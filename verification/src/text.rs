//! Text operations on `&str` and `String`, specified over sequences of characters.

use vstd::prelude::*;
use vstd::std_specs::iter::IteratorSpec;

verus! {

/// `p` is a prefix of `s`.
pub open spec fn has_prefix(s: Seq<char>, p: Seq<char>) -> bool {
    p.len() <= s.len() && s.subrange(0, p.len() as int) =~= p
}

/// `p` is a suffix of `s`.
pub open spec fn has_suffix(s: Seq<char>, p: Seq<char>) -> bool {
    p.len() <= s.len() && s.subrange(s.len() - p.len(), s.len() as int) =~= p
}

/// `p` occurs in `s` at position `i`.
pub open spec fn occurs_at(s: Seq<char>, p: Seq<char>, i: int) -> bool {
    0 <= i && i + p.len() <= s.len() && s.subrange(i, i + p.len()) =~= p
}

/// A text agrees with each of its prefixes, character by character.
pub proof fn lemma_prefix_char(s: Seq<char>, p: Seq<char>, i: int)
    requires
        has_prefix(s, p),
        0 <= i < p.len(),
    ensures
        s[i] == p[i],
{
    assert(s.subrange(0, p.len() as int)[i] == p[i]);
}

/// `std::string::String::push` appends one character.
pub assume_specification[ String::push ](s: &mut String, ch: char)
    ensures
        final(s)@ == old(s)@.push(ch),
;

/// The characters of `s`, in order.
pub fn chars_of(s: &str) -> (r: Vec<char>)
    ensures
        r@ == s@,
{
    let mut r: Vec<char> = Vec::new();
    for c in iter: s.chars()
        invariant
            iter.seq() == s@,
            r@ == s@.take(iter.index() as int),
    {
        r.push(c);
        assert(r@ =~= s@.take(iter.index() as int + 1));
    }
    assert(s@.take(s@.len() as int) =~= s@);
    r
}

/// The string made of the given characters.
pub fn string_of(v: &Vec<char>) -> (r: String)
    ensures
        r@ == v@,
{
    let mut r = String::new();
    let mut i: usize = 0;
    while i < v.len()
        invariant
            i <= v.len(),
            r@ == v@.take(i as int),
        decreases v.len() - i,
    {
        r.push(v[i]);
        i += 1;
        assert(r@ =~= v@.take(i as int));
    }
    assert(v@.take(v@.len() as int) =~= v@);
    r
}

/// Whether two texts are the same.
pub fn eq_str(a: &str, b: &str) -> (r: bool)
    ensures
        r == (a@ == b@),
{
    let mut x = a.chars();
    let mut y = b.chars();
    let ghost mut i: int = 0;
    assert(a@.skip(0) =~= a@);
    assert(b@.skip(0) =~= b@);
    loop
        invariant
            0 <= i <= a@.len(),
            i <= b@.len(),
            a@.take(i) =~= b@.take(i),
            x.remaining() =~= a@.skip(i),
            y.remaining() =~= b@.skip(i),
        decreases a@.len() - i,
    {
        match (x.next(), y.next()) {
            (None, None) => {
                assert(a@.take(i) =~= a@);
                assert(b@.take(i) =~= b@);
                return true;
            },
            (Some(c), Some(d)) => {
                if c != d {
                    assert(a@[i] != b@[i]);
                    return false;
                }
                proof {
                    assert(a@.take(i + 1) =~= a@.take(i).push(c));
                    assert(b@.take(i + 1) =~= b@.take(i).push(d));
                    assert(a@.skip(i).drop_first() =~= a@.skip(i + 1));
                    assert(b@.skip(i).drop_first() =~= b@.skip(i + 1));
                    i = i + 1;
                }
            },
            _ => {
                return false;
            },
        }
    }
}

/// Whether `s` begins with `p`.
pub fn starts_with(s: &str, p: &str) -> (r: bool)
    ensures
        r == has_prefix(s@, p@),
{
    let v = chars_of(s);
    let w = chars_of(p);
    occurs_here(&v, &w, 0)
}

/// Whether `s` ends with `p`.
pub fn ends_with(s: &str, p: &str) -> (r: bool)
    ensures
        r == has_suffix(s@, p@),
{
    let v = chars_of(s);
    let w = chars_of(p);
    w.len() <= v.len() && occurs_here(&v, &w, v.len() - w.len())
}

/// Whether `p` occurs in `v` at position `i`.
fn occurs_here(v: &Vec<char>, p: &Vec<char>, i: usize) -> (r: bool)
    requires
        i <= v.len(),
    ensures
        r == occurs_at(v@, p@, i as int),
{
    if p.len() > v.len() - i {
        return false;
    }
    let mut k: usize = 0;
    while k < p.len()
        invariant
            k <= p.len(),
            p.len() <= v.len() - i,
            i <= v.len(),
            forall|j: int| 0 <= j < k ==> v@[i + j] == #[trigger] p@[j],
        decreases p.len() - k,
    {
        if v[i + k] != p[k] {
            assert(v@.subrange(i as int, i + p@.len())[k as int] != p@[k as int]);
            return false;
        }
        k += 1;
    }
    true
}

/// The position of the first occurrence of `p` in `s` at or after `i`.
pub open spec fn find_from(s: Seq<char>, p: Seq<char>, i: int) -> Option<int>
    decreases s.len() - i,
{
    if i + p.len() > s.len() {
        None
    } else if occurs_at(s, p, i) {
        Some(i)
    } else {
        find_from(s, p, i + 1)
    }
}

/// `p` occurs somewhere in `s`.
pub open spec fn has_infix(s: Seq<char>, p: Seq<char>) -> bool {
    exists|i: int| occurs_at(s, p, i)
}

/// What `find_from` reports is the least position at which `p` occurs.
pub proof fn lemma_find_from(s: Seq<char>, p: Seq<char>, i: int)
    requires
        0 <= i,
    ensures
        match find_from(s, p, i) {
            Some(k) => i <= k && occurs_at(s, p, k) && forall|j: int|
                i <= j < k ==> !occurs_at(s, p, j),
            None => forall|j: int| i <= j ==> !occurs_at(s, p, j),
        },
    decreases s.len() - i,
{
    if i + p.len() <= s.len() && !occurs_at(s, p, i) {
        lemma_find_from(s, p, i + 1);
    }
}

/// The position, counted in characters, of the first occurrence of `p` in `s`.
pub fn find(s: &str, p: &str) -> (r: Option<usize>)
    ensures
        match r {
            Some(k) => find_from(s@, p@, 0) == Some(k as int),
            None => find_from(s@, p@, 0) is None,
        },
        r matches Some(k) ==> k <= s@.len(),
        r is Some <==> has_infix(s@, p@),
{
    proof {
        lemma_find_from(s@, p@, 0);
    }
    let v = chars_of(s);
    let w = chars_of(p);
    let mut i: usize = 0;
    loop
        invariant
            i <= v.len(),
            v@ == s@,
            w@ == p@,
            find_from(s@, p@, 0) == find_from(s@, p@, i as int),
            match find_from(s@, p@, 0) {
                Some(k) => occurs_at(s@, p@, k),
                None => forall|j: int| 0 <= j ==> !occurs_at(s@, p@, j),
            },
        decreases v.len() - i,
    {
        if w.len() > v.len() - i {
            return None;
        }
        if occurs_here(&v, &w, i) {
            return Some(i);
        }
        if i == v.len() {
            return None;
        }
        i += 1;
    }
}

/// Whether `p` occurs in `s`.
pub fn contains(s: &str, p: &str) -> (r: bool)
    ensures
        r == has_infix(s@, p@),
{
    find(s, p).is_some()
}

/// The pieces of `s` between the separators, in order. There is always at least one.
pub open spec fn split<T>(s: Seq<T>, sep: T) -> Seq<Seq<T>>
    decreases s.len(),
{
    if s.len() == 0 {
        seq![Seq::empty()]
    } else {
        let front = split(s.drop_last(), sep);
        if s.last() == sep {
            front.push(Seq::empty())
        } else {
            front.drop_last().push(front.last().push(s.last()))
        }
    }
}

/// The parts one after another, with `sep` between each two.
pub open spec fn join<T>(parts: Seq<Seq<T>>, sep: Seq<T>) -> Seq<T>
    decreases parts.len(),
{
    if parts.len() == 0 {
        Seq::empty()
    } else if parts.len() == 1 {
        parts[0]
    } else {
        join(parts.drop_last(), sep) + sep + parts.last()
    }
}

/// There is always at least one piece.
pub proof fn lemma_split_nonempty<T>(s: Seq<T>, sep: T)
    ensures
        split(s, sep).len() > 0,
    decreases s.len(),
{
    if s.len() > 0 {
        lemma_split_nonempty(s.drop_last(), sep);
    }
}

/// Splitting loses nothing: joining the pieces with the separator gives the text back, and no
/// piece holds the separator.
pub proof fn lemma_split_join<T>(s: Seq<T>, sep: T)
    ensures
        join(split(s, sep), seq![sep]) == s,
        forall|i: int, j: int|
            0 <= i < split(s, sep).len() && 0 <= j < split(s, sep)[i].len() ==> split(s, sep)[i][j]
                != sep,
    decreases s.len(),
{
    if s.len() > 0 {
        let front = split(s.drop_last(), sep);
        lemma_split_join(s.drop_last(), sep);
        lemma_split_nonempty(s.drop_last(), sep);
        let all = split(s, sep);
        if s.last() == sep {
            assert(all.drop_last() =~= front);
            assert(join(all, seq![sep]) =~= s.drop_last() + seq![sep] + Seq::<T>::empty());
            assert(s =~= s.drop_last() + seq![sep] + Seq::<T>::empty());
        } else {
            assert(all.drop_last() =~= front.drop_last());
            assert(s =~= s.drop_last().push(s.last()));
            if front.len() == 1 {
                assert(join(all, seq![sep]) =~= front[0].push(s.last()));
            } else {
                assert(join(all, seq![sep]) =~= join(front.drop_last(), seq![sep]) + seq![sep]
                    + front.last().push(s.last()));
                assert(join(front, seq![sep]) =~= join(front.drop_last(), seq![sep]) + seq![sep]
                    + front.last());
                assert(join(all, seq![sep]) =~= join(front, seq![sep]).push(s.last()));
            }
            assert forall|i: int, j: int|
                0 <= i < all.len() && 0 <= j < all[i].len() implies all[i][j] != sep by {
                if i < all.len() - 1 {
                    assert(all[i] == front[i]);
                    assert(front[i][j] != sep);
                } else if j < front.last().len() {
                    assert(front[front.len() - 1][j] != sep);
                }
            }
        }
    }
}

/// A text without the separator is a single piece.
pub proof fn lemma_split_single<T>(s: Seq<T>, sep: T)
    requires
        !s.contains(sep),
    ensures
        split(s, sep) == seq![s],
    decreases s.len(),
{
    if s.len() > 0 {
        let front = s.drop_last();
        assert forall|x: T| front.contains(x) implies s.contains(x) by {
            let i = choose|i: int| 0 <= i < front.len() && front[i] == x;
            assert(s[i] == x);
        }
        lemma_split_single(front, sep);
        assert(s[s.len() - 1] == s.last());
        assert(split(s, sep) =~= seq![front.push(s.last())]);
        assert(front.push(s.last()) =~= s);
    } else {
        assert(s =~= Seq::empty());
    }
}

/// The pieces on either side of a separator are those of the two sides.
pub proof fn lemma_split_concat<T>(a: Seq<T>, b: Seq<T>, sep: T)
    ensures
        split(a.push(sep) + b, sep) == split(a, sep) + split(b, sep),
    decreases b.len(),
{
    let s = a.push(sep) + b;
    if b.len() == 0 {
        assert(s =~= a.push(sep));
        assert(s.drop_last() =~= a);
        assert(split(s, sep) =~= split(a, sep) + split(b, sep));
    } else {
        assert(s.drop_last() =~= a.push(sep) + b.drop_last());
        assert(s.last() == b.last());
        lemma_split_concat(a, b.drop_last(), sep);
        lemma_split_nonempty(b.drop_last(), sep);
        let fa = split(a, sep);
        let fb = split(b.drop_last(), sep);
        if b.last() == sep {
            assert((fa + fb).push(Seq::empty()) =~= fa + fb.push(Seq::empty()));
        } else {
            assert((fa + fb).drop_last() =~= fa + fb.drop_last());
            assert((fa + fb).last() == fb.last());
            assert((fa + fb).drop_last().push(fb.last().push(s.last())) =~= fa
                + fb.drop_last().push(fb.last().push(b.last())));
        }
    }
}

/// The views of a list of strings.
pub open spec fn views(v: Seq<String>) -> Seq<Seq<char>> {
    v.map_values(|x: String| x@)
}

/// Splits `s` at every occurrence of `sep`.
pub fn split_at_char(s: &str, sep: char) -> (r: Vec<String>)
    ensures
        views(r@) == split(s@, sep),
        r@.len() > 0,
{
    let mut done: Vec<String> = Vec::new();
    let mut last = String::new();
    assert(views(done@).push(last@) =~= split(s@.take(0), sep));
    for c in iter: s.chars()
        invariant
            iter.seq() == s@,
            views(done@).push(last@) == split(s@.take(iter.index() as int), sep),
    {
        let ghost i = iter.index() as int;
        let ghost front = views(done@).push(last@);
        proof {
            assert(s@.take(i + 1).drop_last() =~= s@.take(i));
            assert(s@.take(i + 1).last() == c);
            assert(front.drop_last() =~= views(done@));
        }
        if c == sep {
            done.push(last);
            last = String::new();
            assert(views(done@).push(last@) =~= front.push(Seq::empty()));
        } else {
            last.push(c);
        }
    }
    assert(s@.take(s@.len() as int) =~= s@);
    let ghost front = views(done@).push(last@);
    done.push(last);
    assert(views(done@) =~= front);
    done
}

/// Joins the parts with `sep` between each two.
pub fn join_strings(parts: &Vec<String>, sep: &str) -> (r: String)
    ensures
        r@ == join(views(parts@), sep@),
{
    let mut r = String::new();
    let ghost all = views(parts@);
    let mut i: usize = 0;
    while i < parts.len()
        invariant
            i <= parts.len(),
            all == views(parts@),
            r@ == join(all.take(i as int), sep@),
        decreases parts.len() - i,
    {
        if i > 0 {
            r.append(sep);
        }
        r.append(parts[i].as_str());
        proof {
            assert(all.take(i + 1).drop_last() =~= all.take(i as int));
            assert(all.take(i + 1).last() == parts@[i as int]@);
            if i == 0 {
                assert(r@ =~= all.take(1)[0]);
            }
        }
        i += 1;
    }
    assert(all.take(all.len() as int) =~= all);
    r
}

/// A join starts with its first part.
pub proof fn lemma_join_first(parts: Seq<Seq<char>>, sep: Seq<char>)
    requires
        parts.len() > 0,
    ensures
        has_prefix(join(parts, sep), parts[0]),
    decreases parts.len(),
{
    if parts.len() > 1 {
        lemma_join_first(parts.drop_last(), sep);
        let front = join(parts.drop_last(), sep);
        assert(join(parts, sep).subrange(0, parts[0].len() as int) =~= front.subrange(
            0,
            parts[0].len() as int,
        ));
    }
}

/// A text begins with `p` exactly if it is `p` followed by something.
pub proof fn law_prefix_is_what_stands_first(s: Seq<char>, p: Seq<char>, rest: Seq<char>)
    ensures
        has_prefix(p + rest, p),
        has_prefix(s, p) ==> p.len() <= s.len() && s == p + s.skip(p.len() as int),
{
    assert((p + rest).subrange(0, p.len() as int) =~= p);
    if has_prefix(s, p) {
        assert(s =~= s.subrange(0, p.len() as int) + s.skip(p.len() as int));
    }
}

/// A text ends with `p` exactly if it is something followed by `p`.
pub proof fn law_suffix_is_what_stands_last(s: Seq<char>, p: Seq<char>, front: Seq<char>)
    ensures
        has_suffix(front + p, p),
        has_suffix(s, p) ==> p.len() <= s.len() && s == s.take(s.len() - p.len()) + p,
{
    assert((front + p).subrange(front.len() as int, (front + p).len() as int) =~= p);
    if has_suffix(s, p) {
        assert(s =~= s.take(s.len() - p.len()) + s.subrange(s.len() - p.len(), s.len() as int));
    }
}

/// A text holds `p` exactly if it is something, followed by `p`, followed by something.
pub proof fn law_infix_is_what_stands_between(
    s: Seq<char>,
    p: Seq<char>,
    front: Seq<char>,
    rest: Seq<char>,
)
    ensures
        has_infix(front + p + rest, p),
        has_infix(s, p) ==> exists|a: Seq<char>, b: Seq<char>| #[trigger] (a + p + b) == s,
{
    let whole = front + p + rest;
    let n = front.len() as int;
    assert(whole.subrange(n, n + p.len()) =~= p);
    assert(occurs_at(whole, p, n));
    if has_infix(s, p) {
        let i = choose|i: int| occurs_at(s, p, i);
        let a = s.take(i);
        let b = s.skip(i + p.len());
        assert(s =~= a + s.subrange(i, i + p.len()) + b);
        assert(a + p + b == s);
    }
}

/// The pieces of a text are what stands between its separators: a text without one is one piece,
/// and a separator parts the pieces before it from those behind it.
pub proof fn law_pieces_stand_between_separators<T>(a: Seq<T>, b: Seq<T>, sep: T)
    ensures
        !a.contains(sep) ==> split(a, sep) == seq![a],
        split(a + seq![sep] + b, sep) == split(a, sep) + split(b, sep),
{
    if !a.contains(sep) {
        lemma_split_single(a, sep);
    }
    lemma_split_concat(a, b, sep);
    assert(a + seq![sep] + b =~= a.push(sep) + b);
}

/// Joining puts the separator between the parts and nowhere else.
pub proof fn law_join_puts_separators_between<T>(parts: Seq<Seq<T>>, last: Seq<T>, sep: Seq<T>)
    ensures
        join(Seq::<Seq<T>>::empty(), sep) == Seq::<T>::empty(),
        join(seq![last], sep) == last,
        parts.len() > 0 ==> join(parts.push(last), sep) == join(parts, sep) + sep + last,
{
    assert(parts.push(last).drop_last() =~= parts);
}

/// Joining two lists puts the separator between their joins.
pub proof fn lemma_join_concat(a: Seq<Seq<char>>, b: Seq<Seq<char>>, sep: Seq<char>)
    requires
        a.len() > 0,
        b.len() > 0,
    ensures
        join(a + b, sep) == join(a, sep) + sep + join(b, sep),
    decreases b.len(),
{
    let all = a + b;
    assert(all.last() == b.last());
    assert(all.drop_last() =~= a + b.drop_last());
    if b.len() == 1 {
        assert(all.drop_last() =~= a);
        assert(join(b, sep) == b[0]);
    } else {
        lemma_join_concat(a, b.drop_last(), sep);
        assert(join(all, sep) =~= join(a, sep) + sep + (join(b.drop_last(), sep) + sep + b.last()));
    }
}

} // verus!
