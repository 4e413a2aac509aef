//! JSON values.

use crate::text::eq_str;
use vstd::prelude::*;

verus! {

/// A JSON number.
#[derive(Clone, Copy, Debug, PartialEq, Eq, Structural)]
pub enum JsonNumber {
    /// A whole number from zero up.
    Unsigned(u64),
    /// A whole number below zero.
    Signed(i64),
    /// A number with a fraction or an exponent, by the bits of its double-precision form.
    Real { bits: u64 },
}

/// A JSON value.
#[derive(Debug)]
pub enum Json {
    Null,
    Bool(bool),
    Number(JsonNumber),
    Text(String),
    Array(Vec<Json>),
    Object(Vec<Member>),
}

/// A member of a JSON object.
#[derive(Debug)]
pub struct Member {
    pub name: String,
    pub value: Json,
}

/// What a JSON value stands for.
pub ghost enum JsonView {
    Null,
    Bool(bool),
    Number(JsonNumber),
    Text(Seq<char>),
    Array(Seq<JsonView>),
    Object(Seq<(Seq<char>, JsonView)>),
}

/// What a JSON value stands for, by structure.
pub open spec fn meaning(value: Json) -> JsonView
    decreases value,
{
    match value {
        Json::Null => JsonView::Null,
        Json::Bool(b) => JsonView::Bool(b),
        Json::Number(n) => JsonView::Number(n),
        Json::Text(s) => JsonView::Text(s@),
        Json::Array(items) => JsonView::Array(
            Seq::new(
                items@.len(),
                |i: int|
                    if 0 <= i < items@.len() {
                        meaning(items@[i])
                    } else {
                        JsonView::Null
                    },
            ),
        ),
        Json::Object(members) => JsonView::Object(
            Seq::new(
                members@.len(),
                |i: int|
                    if 0 <= i < members@.len() {
                        (members@[i].name@, meaning(members@[i].value))
                    } else {
                        (Seq::empty(), JsonView::Null)
                    },
            ),
        ),
    }
}

impl View for Json {
    type V = JsonView;

    open spec fn view(&self) -> JsonView {
        meaning(*self)
    }
}

/// The value of the member called `name`: of several the last, as in a text that gives a name
/// twice.
pub open spec fn member_of(members: Seq<(Seq<char>, JsonView)>, name: Seq<char>) -> Option<JsonView>
    decreases members.len(),
{
    if members.len() == 0 {
        None
    } else if members.last().0 == name {
        Some(members.last().1)
    } else {
        member_of(members.drop_last(), name)
    }
}

impl JsonView {
    /// The member called `name`, if the value is an object that has one.
    pub open spec fn member(self, name: Seq<char>) -> Option<JsonView> {
        match self {
            JsonView::Object(members) => member_of(members, name),
            _ => None,
        }
    }

    /// The text, if the value is one.
    pub open spec fn text(self) -> Option<Seq<char>> {
        match self {
            JsonView::Text(s) => Some(s),
            _ => None,
        }
    }

    /// The value with one more member.
    pub open spec fn with_member(self, name: Seq<char>, value: JsonView) -> JsonView {
        match self {
            JsonView::Object(members) => JsonView::Object(members.push((name, value))),
            other => other,
        }
    }
}

/// The object without members.
pub open spec fn empty_object() -> JsonView {
    JsonView::Object(Seq::empty())
}

impl Json {
    /// A copy of the value.
    pub fn copy(&self) -> (r: Json)
        ensures
            r@ == self@,
        decreases self,
    {
        match self {
            Json::Null => Json::Null,
            Json::Bool(b) => Json::Bool(*b),
            Json::Number(n) => Json::Number(*n),
            Json::Text(s) => Json::Text(s.clone()),
            Json::Array(items) => {
                let mut copies: Vec<Json> = Vec::new();
                let mut i: usize = 0;
                while i < items.len()
                    invariant
                        i <= items.len(),
                        copies.len() == i,
                        *self == Json::Array(*items),
                        forall|j: int| 0 <= j < i ==> (#[trigger] copies@[j])@ == items@[j]@,
                    decreases items.len() - i,
                {
                    assert(decreases_to!(self => self->Array_0));
                    assert(decreases_to!(items => items@));
                    assert(decreases_to!(items@ => items@[i as int]));
                    let copy = items[i].copy();
                    copies.push(copy);
                    i += 1;
                }
                let r = Json::Array(copies);
                assert(r@->Array_0 =~= self@->Array_0);
                r
            },
            Json::Object(members) => {
                let mut copies: Vec<Member> = Vec::new();
                let mut i: usize = 0;
                while i < members.len()
                    invariant
                        i <= members.len(),
                        copies.len() == i,
                        *self == Json::Object(*members),
                        forall|j: int|
                            0 <= j < i ==> (#[trigger] copies@[j]).name@ == members@[j].name@
                                && copies@[j].value@ == members@[j].value@,
                    decreases members.len() - i,
                {
                    assert(decreases_to!(self => self->Object_0));
                    assert(decreases_to!(members => members@));
                    assert(decreases_to!(members@ => members@[i as int]));
                    assert(decreases_to!(members@[i as int] => members@[i as int].value));
                    let value = members[i].value.copy();
                    copies.push(Member { name: members[i].name.clone(), value });
                    i += 1;
                }
                let r = Json::Object(copies);
                assert(r@->Object_0 =~= self@->Object_0);
                r
            },
        }
    }

    /// The member called `name`, if the value is an object that has one.
    pub fn get(&self, name: &str) -> (r: Option<&Json>)
        ensures
            match r {
                Some(value) => self@.member(name@) == Some(value@),
                None => self@.member(name@) is None,
            },
    {
        match self {
            Json::Object(members) => {
                let ghost all = self@->Object_0;
                let mut i: usize = members.len();
                assert(all.take(all.len() as int) =~= all);
                while i > 0
                    invariant
                        i <= members.len(),
                        all.len() == members.len(),
                        forall|j: int|
                            0 <= j < all.len() ==> #[trigger] all[j] == (
                                members@[j].name@,
                                members@[j].value@,
                            ),
                        self@ == JsonView::Object(all),
                        member_of(all, name@) == member_of(all.take(i as int), name@),
                    decreases i,
                {
                    i -= 1;
                    assert(all.take(i + 1).drop_last() =~= all.take(i as int));
                    if eq_str(members[i].name.as_str(), name) {
                        return Some(&members[i].value);
                    }
                }
                None
            },
            _ => None,
        }
    }

    /// The text, if the value is one.
    pub fn as_str(&self) -> (r: Option<&str>)
        ensures
            match r {
                Some(s) => self@.text() == Some(s@),
                None => self@.text() is None,
            },
    {
        match self {
            Json::Text(s) => Some(s.as_str()),
            _ => None,
        }
    }

    /// Whether the value is null.
    pub fn is_null(&self) -> (r: bool)
        ensures
            r == (self@ == JsonView::Null),
    {
        match self {
            Json::Null => true,
            _ => false,
        }
    }

    /// A text.
    pub fn of_text(s: &str) -> (r: Json)
        ensures
            r@ == JsonView::Text(s@),
    {
        Json::Text(s.to_string())
    }

    /// The object without members.
    pub fn object() -> (r: Json)
        ensures
            r@ == empty_object(),
    {
        let r = Json::Object(Vec::new());
        assert(r@->Object_0 =~= Seq::empty());
        r
    }

    /// The object with one more member; any other value stays as it is.
    pub fn with(self, name: &str, value: Json) -> (r: Json)
        ensures
            r@ == self@.with_member(name@, value@),
    {
        match self {
            Json::Object(members) => {
                let ghost before = self@->Object_0;
                let mut members = members;
                members.push(Member { name: name.to_string(), value });
                let r = Json::Object(members);
                assert(r@->Object_0 =~= before.push((name@, value@)));
                r
            },
            other => other,
        }
    }

    /// The list of the given values.
    pub fn array(items: Vec<Json>) -> (r: Json)
        ensures
            r@ == JsonView::Array(items@.map_values(|item: Json| item@)),
    {
        let r = Json::Array(items);
        assert(r@->Array_0 =~= items@.map_values(|item: Json| item@));
        r
    }
}

/// A member that is added to an object is found under its name, in place of an earlier one, and
/// leaves every other member as it is. An empty object has no members, and neither has a value that
/// is no object.
pub proof fn law_members_are_found_by_name(
    members: Seq<(Seq<char>, JsonView)>,
    name: Seq<char>,
    other: Seq<char>,
    value: JsonView,
)
    ensures
        JsonView::Object(members).with_member(name, value).member(name) == Some(value),
        name != other ==> JsonView::Object(members).with_member(name, value).member(other)
            == JsonView::Object(members).member(other),
        empty_object().member(name) is None,
        !(value is Object) ==> value.member(name) is None && value.with_member(name, value)
            == value,
        value.text() is Some <==> value is Text,
        JsonView::Text(name).text() == Some(name),
{
    assert(members.push((name, value)).drop_last() =~= members);
}

} // verus!
