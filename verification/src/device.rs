//! The name under which this computer appears in Proton Drive.

use crate::text::{chars_of, string_of};
use crate::trimming::{
    is_name_separator, is_white, law_trimming_leaves_the_middle, lemma_trimmed, trim, trim_chars,
    trimmed, CharClass,
};
use crate::web_url::opt_view;
use vstd::prelude::*;

verus! {

/// The remote scope in which synced computers are listed.
pub const DEFAULT_REMOTE_SCOPE_COMPUTERS: &'static str = "computers";

/// The type under which this computer is registered.
pub const DEFAULT_DEVICE_TYPE_LINUX: &'static str = "linux";

/// The most characters that a device name has.
pub const MAX_DEVICE_NAME_CHARS: usize = 64;

/// An ASCII letter or digit.
pub open spec fn is_ascii_alphanumeric(c: char) -> bool {
    'a' <= c <= 'z' || 'A' <= c <= 'Z' || '0' <= c <= '9'
}

/// A character that a device name may hold.
pub open spec fn is_safe(c: char) -> bool {
    is_ascii_alphanumeric(c) || is_name_separator(c)
}

/// `c` itself where a device name may hold it, else a hyphen.
pub open spec fn safe_or_hyphen(c: char) -> char {
    if is_safe(c) {
        c
    } else {
        '-'
    }
}

/// The first characters of `s`, as many as a device name may have.
pub open spec fn bounded(s: Seq<char>) -> Seq<char> {
    if s.len() > MAX_DEVICE_NAME_CHARS {
        s.take(MAX_DEVICE_NAME_CHARS as int)
    } else {
        s
    }
}

/// `value` with unsafe characters replaced and the ends trimmed, cut to the allowed length.
pub open spec fn cleaned(value: Seq<char>) -> Seq<char> {
    bounded(
        trimmed(
            trimmed(value, CharClass::White).map_values(|c: char| safe_or_hyphen(c)),
            CharClass::NameSeparator,
        ),
    )
}

/// The device name for a machine name.
pub open spec fn device_name(value: Seq<char>) -> Seq<char> {
    if cleaned(value).len() == 0 {
        "Linux-PC"@
    } else {
        cleaned(value)
    }
}

/// The machine name, given the host name in the environment and the content of the host name
/// file: the first that is not blank counts, and a machine without either gets a fixed name.
pub open spec fn machine_name(env: Option<Seq<char>>, file: Option<Seq<char>>) -> Seq<char> {
    let chosen = if env is Some && trimmed(env->0, CharClass::White).len() > 0 {
        env
    } else {
        file
    };
    if chosen is Some && trimmed(chosen->0, CharClass::White).len() > 0 {
        trimmed(chosen->0, CharClass::White)
    } else {
        "Linux-PC"@
    }
}

/// The machine name, given the host name in the environment and the content of the host name file.
pub fn machine_name_for_sync(env: Option<String>, file: Option<String>) -> (r: String)
    ensures
        r@ == machine_name(opt_view(env), opt_view(file)),
{
    if let Some(value) = env {
        let name = trim(value.as_str());
        if !name.as_str().is_empty() {
            return name;
        }
    }
    if let Some(value) = file {
        let name = trim(value.as_str());
        if !name.as_str().is_empty() {
            return name;
        }
    }
    "Linux-PC".to_string()
}

/// The device name for a machine name.
pub fn sanitize_sync_device_name(value: &str) -> (r: String)
    ensures
        r@ == device_name(value@),
{
    let all = chars_of(value);
    let inner = trim_chars(&all, CharClass::White);
    let mut mapped: Vec<char> = Vec::new();
    let ghost f = |c: char| safe_or_hyphen(c);
    let mut i: usize = 0;
    while i < inner.len()
        invariant
            i <= inner.len(),
            f == (|c: char| safe_or_hyphen(c)),
            mapped@ == inner@.take(i as int).map_values(f),
        decreases inner.len() - i,
    {
        let c = inner[i];
        let safe = ('a' <= c && c <= 'z') || ('A' <= c && c <= 'Z') || ('0' <= c && c <= '9')
            || CharClass::NameSeparator.matches_char(c);
        let kept = if safe {
            c
        } else {
            '-'
        };
        mapped.push(kept);
        i += 1;
        assert(mapped@ =~= inner@.take(i as int).map_values(f));
    }
    assert(inner@.take(inner@.len() as int) =~= inner@);
    let mut name = trim_chars(&mapped, CharClass::NameSeparator);
    if name.len() > MAX_DEVICE_NAME_CHARS {
        name.truncate(MAX_DEVICE_NAME_CHARS);
        assert(name@ =~= bounded(trimmed(mapped@, CharClass::NameSeparator)));
    }
    if name.len() == 0 {
        "Linux-PC".to_string()
    } else {
        string_of(&name)
    }
}

/// The name under which this computer is registered, given the host name in the environment and
/// the content of the host name file.
pub fn default_sync_device_name(env: Option<String>, file: Option<String>) -> (r: String)
    ensures
        r@ == device_name(machine_name(opt_view(env), opt_view(file))),
{
    sanitize_sync_device_name(machine_name_for_sync(env, file).as_str())
}

/// Every device name is safe as the name of a folder: it holds one to sixty-four letters, digits,
/// hyphens, underscores and dots, and starts with a letter or a digit.
pub proof fn law_device_name_is_path_safe(value: Seq<char>)
    ensures
        0 < device_name(value).len() <= MAX_DEVICE_NAME_CHARS,
        forall|i: int|
            0 <= i < device_name(value).len() ==> is_safe(#[trigger] device_name(value)[i]),
        is_ascii_alphanumeric(device_name(value)[0]),
        device_name(value) != "."@,
        device_name(value) != ".."@,
{
    reveal_strlit("Linux-PC");
    reveal_strlit(".");
    reveal_strlit("..");
    let inner = trimmed(value, CharClass::White);
    let mapped = inner.map_values(|c: char| safe_or_hyphen(c));
    let (lo, hi) = lemma_trimmed(mapped, CharClass::NameSeparator);
    let name = device_name(value);
    assert("."@[0] == '.');
    assert(".."@[0] == '.');
    if cleaned(value).len() > 0 {
        assert forall|i: int| 0 <= i < name.len() implies is_safe(#[trigger] name[i]) by {
            assert(name[i] == mapped[lo + i]);
            assert(mapped[lo + i] == safe_or_hyphen(inner[lo + i]));
        }
        assert(name[0] == trimmed(mapped, CharClass::NameSeparator).first());
        assert(is_safe(name[0]));
    } else {
        assert forall|i: int| 0 <= i < name.len() implies is_safe(#[trigger] name[i]) by {
            assert(name == "Linux-PC"@);
        }
    }
}

/// A name that is clean already is kept: one to sixty-four safe characters, a letter or a digit
/// at either end.
pub proof fn law_clean_device_name_is_kept(value: Seq<char>)
    requires
        0 < value.len() <= MAX_DEVICE_NAME_CHARS,
        forall|i: int| 0 <= i < value.len() ==> is_safe(#[trigger] value[i]),
        is_ascii_alphanumeric(value.first()),
        is_ascii_alphanumeric(value.last()),
    ensures
        device_name(value) == value,
{
    assert(trimmed(value, CharClass::White) == value);
    assert(value.map_values(|c: char| safe_or_hyphen(c)) =~= value);
    assert(trimmed(value, CharClass::NameSeparator) == value);
}

/// A machine name is never blank, and has no white space at either end.
pub proof fn law_machine_name_is_not_blank(env: Option<Seq<char>>, file: Option<Seq<char>>)
    ensures
        machine_name(env, file).len() > 0,
        !is_white(machine_name(env, file).first()),
        !is_white(machine_name(env, file).last()),
{
    reveal_strlit("Linux-PC");
    if env is Some {
        let _ = lemma_trimmed(env->0, CharClass::White);
    }
    if file is Some {
        let _ = lemma_trimmed(file->0, CharClass::White);
    }
}

/// A name between a letter or digit and another one keeps its letters, digits, hyphens, underscores
/// and dots in place; every other character in it becomes a hyphen. Of a long name the first
/// sixty-four characters are kept.
pub proof fn law_device_name_keeps_its_characters(value: Seq<char>)
    requires
        value.len() > 0,
        is_ascii_alphanumeric(value.first()),
        is_ascii_alphanumeric(value.last()),
    ensures
        device_name(value).len() == if value.len() <= 64 {
            value.len()
        } else {
            64
        },
        forall|i: int|
            0 <= i < device_name(value).len() ==> #[trigger] device_name(value)[i] == (if 'a'
                <= value[i] <= 'z' || 'A' <= value[i] <= 'Z' || '0' <= value[i] <= '9' || value[i]
                == '-' || value[i] == '_' || value[i] == '.' {
                value[i]
            } else {
                '-'
            }),
{
    let mapped = value.map_values(|c: char| safe_or_hyphen(c));
    let none = Seq::<char>::empty();
    assert(none + value + none =~= value);
    law_trimming_leaves_the_middle(none, value, none, CharClass::White);
    assert(mapped.first() == value.first());
    assert(mapped.last() == value.last());
    assert(none + mapped + none =~= mapped);
    law_trimming_leaves_the_middle(none, mapped, none, CharClass::NameSeparator);
    assert(cleaned(value) == bounded(mapped));
}

/// White space around a machine name, and within that whatever is no letter and no digit, makes no
/// difference to the device name. A name without letters and digits is replaced.
pub proof fn law_device_name_ignores_the_ends(
    before: Seq<char>,
    front: Seq<char>,
    value: Seq<char>,
    back: Seq<char>,
    behind: Seq<char>,
)
    requires
        forall|i: int| 0 <= i < before.len() ==> is_white(#[trigger] before[i]),
        forall|i: int| 0 <= i < behind.len() ==> is_white(#[trigger] behind[i]),
        forall|i: int|
            0 <= i < front.len() ==> !is_ascii_alphanumeric(#[trigger] front[i]) && !is_white(
                front[i],
            ),
        forall|i: int|
            0 <= i < back.len() ==> !is_ascii_alphanumeric(#[trigger] back[i]) && !is_white(
                back[i],
            ),
        value.len() > 0 ==> is_ascii_alphanumeric(value.first()) && is_ascii_alphanumeric(
            value.last(),
        ),
    ensures
        value.len() > 0 ==> device_name(before + front + value + back + behind) == device_name(
            value,
        ),
        value.len() == 0 ==> device_name(before + front + value + back + behind) == "Linux-PC"@,
{
    let f = |c: char| safe_or_hyphen(c);
    let inner = front + value + back;
    let whole = before + front + value + back + behind;
    assert(whole =~= before + inner + behind);
    law_trimming_leaves_the_middle(before, inner, behind, CharClass::White);
    let mapped = inner.map_values(f);
    let middle = value.map_values(f);
    assert(mapped =~= front.map_values(f) + middle + back.map_values(f));
    if value.len() > 0 {
        assert(middle.first() == value.first());
        assert(middle.last() == value.last());
    }
    law_trimming_leaves_the_middle(
        front.map_values(f),
        middle,
        back.map_values(f),
        CharClass::NameSeparator,
    );
    assert(cleaned(whole) == bounded(middle));
    let none = Seq::<char>::empty();
    if value.len() > 0 {
        assert(none + value + none =~= value);
        law_trimming_leaves_the_middle(none, value, none, CharClass::White);
        assert(none + middle + none =~= middle);
        law_trimming_leaves_the_middle(none, middle, none, CharClass::NameSeparator);
        assert(cleaned(value) == bounded(middle));
    }
}

/// The machine name is the host name in the environment, without white space around it; where that
/// is blank or missing, the one in the file; and where both are, a fixed name.
pub proof fn law_machine_name_is_found(
    front: Seq<char>,
    name: Seq<char>,
    back: Seq<char>,
    blank: Seq<char>,
    file: Option<Seq<char>>,
)
    requires
        forall|i: int| 0 <= i < front.len() ==> is_white(#[trigger] front[i]),
        forall|i: int| 0 <= i < back.len() ==> is_white(#[trigger] back[i]),
        forall|i: int| 0 <= i < blank.len() ==> is_white(#[trigger] blank[i]),
        name.len() > 0,
        !is_white(name.first()) && !is_white(name.last()),
    ensures
        machine_name(Some(front + name + back), file) == name,
        machine_name(None, Some(front + name + back)) == name,
        machine_name(Some(blank), Some(front + name + back)) == name,
        machine_name(None, None) == "Linux-PC"@,
        machine_name(Some(blank), None) == "Linux-PC"@,
        machine_name(None, Some(blank)) == "Linux-PC"@,
        machine_name(Some(blank), Some(blank)) == "Linux-PC"@,
{
    let none = Seq::<char>::empty();
    law_trimming_leaves_the_middle(front, name, back, CharClass::White);
    law_trimming_leaves_the_middle(blank, none, none, CharClass::White);
    assert(blank + none + none =~= blank);
}

} // verus!
