//! Unix paths, as the bytes that the operating system sees.

use crate::text::{lemma_split_concat, lemma_split_nonempty, lemma_split_single, split};
use vstd::prelude::*;

verus! {

/// The byte that separates the components of a path.
pub const SEPARATOR: u8 = 0x2f;

/// The byte that a path uses for the current directory.
pub const DOT: u8 = 0x2e;

/// `name` appended to `base`: an absolute `name` takes the place of `base`, and a separator comes
/// between them unless `base` is empty or ends with one.
pub open spec fn joined(base: Seq<u8>, name: Seq<u8>) -> Seq<u8> {
    if is_absolute(name) {
        name
    } else if base.len() == 0 || base.last() == SEPARATOR {
        base + name
    } else {
        base.push(SEPARATOR) + name
    }
}

/// The path starts at the root directory.
pub open spec fn is_absolute(path: Seq<u8>) -> bool {
    path.len() > 0 && path[0] == SEPARATOR
}

/// A piece between separators that names something: it is neither empty nor a single dot.
pub open spec fn is_name(piece: Seq<u8>) -> bool {
    piece.len() > 0 && piece != seq![DOT]
}

/// The names in a path, in order.
pub open spec fn names(path: Seq<u8>) -> Seq<Seq<u8>> {
    split(path, SEPARATOR).filter(|piece: Seq<u8>| is_name(piece))
}

/// What a path starts from: the root directory, or an explicit current directory, or neither.
pub open spec fn anchor(path: Seq<u8>) -> Seq<Seq<u8>> {
    if is_absolute(path) {
        seq![seq![SEPARATOR]]
    } else if split(path, SEPARATOR)[0] == seq![DOT] {
        seq![seq![DOT]]
    } else {
        Seq::empty()
    }
}

/// The components of a path. Repeated and trailing separators and inner single dots make no
/// difference.
pub open spec fn components(path: Seq<u8>) -> Seq<Seq<u8>> {
    anchor(path) + names(path)
}

/// The components of `base` come first among those of `path`.
pub open spec fn is_within(path: Seq<u8>, base: Seq<u8>) -> bool {
    components(base).len() <= components(path).len() && components(path).subrange(
        0,
        components(base).len() as int,
    ) =~= components(base)
}

/// The views of a list of byte strings.
pub open spec fn byte_views(v: Seq<Vec<u8>>) -> Seq<Seq<u8>> {
    v.map_values(|x: Vec<u8>| x@)
}

/// Whether two byte strings are equal.
pub fn eq_bytes(a: &Vec<u8>, b: &Vec<u8>) -> (r: bool)
    ensures
        r == (a@ == b@),
{
    if a.len() != b.len() {
        return false;
    }
    let mut i: usize = 0;
    while i < a.len()
        invariant
            i <= a.len(),
            a.len() == b.len(),
            forall|j: int| 0 <= j < i ==> a@[j] == b@[j],
        decreases a.len() - i,
    {
        if a[i] != b[i] {
            return false;
        }
        i += 1;
    }
    assert(a@ =~= b@);
    true
}

/// A copy of a byte string.
pub fn copy_bytes(a: &[u8]) -> (r: Vec<u8>)
    ensures
        r@ == a@,
{
    let mut r: Vec<u8> = Vec::new();
    let mut i: usize = 0;
    while i < a.len()
        invariant
            i <= a.len(),
            r@ == a@.take(i as int),
        decreases a.len() - i,
    {
        r.push(a[i]);
        i += 1;
        assert(r@ =~= a@.take(i as int));
    }
    assert(a@.take(a@.len() as int) =~= a@);
    r
}

/// `name` appended to the path `base`.
pub fn join_path(base: &Vec<u8>, name: &[u8]) -> (r: Vec<u8>)
    ensures
        r@ == joined(base@, name@),
{
    let mut tail = copy_bytes(name);
    if tail.len() > 0 && tail[0] == SEPARATOR {
        return tail;
    }
    let mut r = copy_bytes(base.as_slice());
    if r.len() > 0 && r[r.len() - 1] != SEPARATOR {
        r.push(SEPARATOR);
    }
    r.append(&mut tail);
    r
}

/// The pieces of a path between its separators.
fn split_path(path: &Vec<u8>) -> (r: Vec<Vec<u8>>)
    ensures
        byte_views(r@) == split(path@, SEPARATOR),
        r@.len() > 0,
{
    let mut done: Vec<Vec<u8>> = Vec::new();
    let mut last: Vec<u8> = Vec::new();
    let mut i: usize = 0;
    assert(byte_views(done@).push(last@) =~= split(path@.take(0), SEPARATOR));
    while i < path.len()
        invariant
            i <= path.len(),
            byte_views(done@).push(last@) == split(path@.take(i as int), SEPARATOR),
        decreases path.len() - i,
    {
        let ghost front = byte_views(done@).push(last@);
        proof {
            assert(path@.take(i + 1).drop_last() =~= path@.take(i as int));
            assert(path@.take(i + 1).last() == path@[i as int]);
            assert(front.drop_last() =~= byte_views(done@));
        }
        if path[i] == SEPARATOR {
            done.push(last);
            last = Vec::new();
            assert(byte_views(done@).push(last@) =~= front.push(Seq::empty()));
        } else {
            last.push(path[i]);
        }
        i += 1;
    }
    assert(path@.take(path@.len() as int) =~= path@);
    let ghost front = byte_views(done@).push(last@);
    done.push(last);
    assert(byte_views(done@) =~= front);
    done
}

/// The components of a path.
pub fn path_components(path: &Vec<u8>) -> (r: Vec<Vec<u8>>)
    ensures
        byte_views(r@) == components(path@),
{
    let pieces = split_path(path);
    let ghost all = byte_views(pieces@);
    let ghost keep = |piece: Seq<u8>| is_name(piece);
    let mut r: Vec<Vec<u8>> = Vec::new();
    assert(all[0] == pieces@[0]@);
    if path.len() > 0 && path[0] == SEPARATOR {
        let mut root: Vec<u8> = Vec::new();
        root.push(SEPARATOR);
        assert(root@ =~= seq![SEPARATOR]);
        r.push(root);
    } else if pieces[0].len() == 1 && pieces[0][0] == DOT {
        assert(pieces@[0]@ =~= seq![DOT]);
        let mut here: Vec<u8> = Vec::new();
        here.push(DOT);
        assert(here@ =~= seq![DOT]);
        r.push(here);
    }
    assert(byte_views(r@) =~= anchor(path@));
    assert(all.take(0).filter(keep) =~= Seq::empty()) by {
        reveal(Seq::filter);
    }
    let mut i: usize = 0;
    while i < pieces.len()
        invariant
            i <= pieces.len(),
            all == byte_views(pieces@),
            keep == (|piece: Seq<u8>| is_name(piece)),
            byte_views(r@) == anchor(path@) + all.take(i as int).filter(keep),
        decreases pieces.len() - i,
    {
        let ghost before = r@;
        proof {
            assert(all.take(i + 1).drop_last() =~= all.take(i as int));
            assert(all.take(i + 1).last() == pieces@[i as int]@);
            reveal(Seq::filter);
        }
        let piece = &pieces[i];
        let is_dot = piece.len() == 1 && piece[0] == DOT;
        assert(is_dot == (piece@ =~= seq![DOT]));
        if piece.len() > 0 && !is_dot {
            let copy = copy_bytes(piece.as_slice());
            r.push(copy);
            assert(byte_views(r@) =~= byte_views(before).push(piece@));
        }
        i += 1;
    }
    assert(all.take(all.len() as int) =~= all);
    r
}

/// Whether the components of `base` come first among those of `path`.
pub fn starts_with_path(path: &Vec<u8>, base: &Vec<u8>) -> (r: bool)
    ensures
        r == is_within(path@, base@),
{
    let p = path_components(path);
    let b = path_components(base);
    if b.len() > p.len() {
        return false;
    }
    let mut i: usize = 0;
    while i < b.len()
        invariant
            i <= b.len() <= p.len(),
            byte_views(p@) == components(path@),
            byte_views(b@) == components(base@),
            forall|j: int| 0 <= j < i ==> (#[trigger] b@[j])@ == p@[j]@,
        decreases b.len() - i,
    {
        if !eq_bytes(&p[i], &b[i]) {
            proof {
                assert(components(base@)[i as int] == b@[i as int]@);
                assert(components(path@).subrange(0, b@.len() as int)[i as int] == p@[i as int]@);
            }
            return false;
        }
        i += 1;
    }
    assert(components(path@).subrange(0, b@.len() as int) =~= components(base@)) by {
        assert forall|j: int| 0 <= j < b@.len() implies components(path@)[j] == components(
            base@,
        )[j] by {
            assert(b@[j]@ == p@[j]@);
        }
    }
    true
}

/// Whether two paths have the same components.
pub fn same_path(a: &Vec<u8>, b: &Vec<u8>) -> (r: bool)
    ensures
        r == (components(a@) == components(b@)),
{
    let r = starts_with_path(a, b) && starts_with_path(b, a);
    proof {
        let ca = components(a@);
        let cb = components(b@);
        if r {
            assert(ca.subrange(0, ca.len() as int) =~= ca);
            assert(cb.subrange(0, cb.len() as int) =~= cb);
        }
        if ca == cb {
            assert(ca.subrange(0, ca.len() as int) =~= ca);
        }
    }
    r
}

proof fn lemma_names_concat(a: Seq<u8>, b: Seq<u8>)
    ensures
        names(a.push(SEPARATOR) + b) == names(a) + names(b),
{
    let keep = |piece: Seq<u8>| is_name(piece);
    lemma_split_concat(a, b, SEPARATOR);
    Seq::filter_distributes_over_add(split(a, SEPARATOR), split(b, SEPARATOR), keep);
}

/// Appending a relative path to another one keeps the components of the other one and adds the
/// names of the relative one: the result lies within the other path.
pub proof fn law_join_stays_within(base: Seq<u8>, name: Seq<u8>)
    requires
        base.len() > 0,
        !is_absolute(name),
    ensures
        components(joined(base, name)) == components(base) + names(name),
        is_within(joined(base, name), base),
{
    let whole = joined(base, name);
    let keep = |piece: Seq<u8>| is_name(piece);
    if base.last() == SEPARATOR {
        let front = base.drop_last();
        let empty = Seq::<u8>::empty();
        assert(base =~= front.push(SEPARATOR) + empty);
        assert(whole =~= front.push(SEPARATOR) + name);
        lemma_names_concat(front, empty);
        lemma_names_concat(front, name);
        assert(split(empty, SEPARATOR) =~= seq![empty]);
        reveal(Seq::filter);
        assert(seq![empty].drop_last() =~= Seq::empty());
        assert(Seq::<Seq<u8>>::empty().filter(keep) =~= Seq::empty());
        assert(seq![empty].filter(keep) =~= Seq::empty());
        assert(names(empty) =~= Seq::empty());
        lemma_split_concat(front, empty, SEPARATOR);
        lemma_split_concat(front, name, SEPARATOR);
        lemma_split_nonempty(front, SEPARATOR);
    } else {
        lemma_names_concat(base, name);
        lemma_split_concat(base, name, SEPARATOR);
        lemma_split_nonempty(base, SEPARATOR);
    }
    assert(whole[0] == base[0]);
    assert(components(whole) =~= components(base) + names(name));
    assert(components(whole).subrange(0, components(base).len() as int) =~= components(base));
}

/// The last component of `joined(base, name)` is `name`, where `name` is a single name.
pub proof fn law_join_adds_one_name(base: Seq<u8>, name: Seq<u8>)
    requires
        is_name(name),
        !name.contains(SEPARATOR),
    ensures
        components(joined(base, name)) == components(base).push(name),
{
    assert(!is_absolute(name)) by {
        if is_absolute(name) {
            assert(name[0] == SEPARATOR);
        }
    }
    lemma_split_single(name, SEPARATOR);
    if base.len() > 0 {
        law_join_stays_within(base, name);
    } else {
        assert(joined(base, name) =~= name);
        assert(split(base, SEPARATOR)[0] =~= Seq::empty());
    }
    reveal(Seq::filter);
    assert(seq![name].drop_last() =~= Seq::empty());
    let keep = |piece: Seq<u8>| is_name(piece);
    assert(Seq::<Seq<u8>>::empty().filter(keep) =~= Seq::empty());
    assert(names(name) =~= seq![name]);
    if base.len() == 0 {
        assert(split(base, SEPARATOR) =~= seq![Seq::<u8>::empty()]);
        assert(split(base, SEPARATOR).drop_last() =~= Seq::empty());
        assert(names(base) =~= Seq::empty());
    }
    assert(components(joined(base, name)) =~= components(base).push(name));
}

/// Joining puts exactly one separator between two paths, and an absolute path stands alone.
pub proof fn law_join_puts_one_separator(base: Seq<u8>, name: Seq<u8>)
    ensures
        joined(base, seq![SEPARATOR] + name) == seq![SEPARATOR] + name,
        name.len() == 0 || name[0] != SEPARATOR ==> joined(base + seq![SEPARATOR], name) == base
            + seq![SEPARATOR] + name,
        (name.len() == 0 || name[0] != SEPARATOR) && base.len() > 0 && base.last() != SEPARATOR
            ==> joined(base, name) == base + seq![SEPARATOR] + name,
        name.len() == 0 || name[0] != SEPARATOR ==> joined(Seq::empty(), name) == name,
{
    assert((seq![SEPARATOR] + name)[0] == SEPARATOR);
    assert((base + seq![SEPARATOR]).last() == SEPARATOR);
    assert(base.push(SEPARATOR) =~= base + seq![SEPARATOR]);
    assert(Seq::<u8>::empty() + name =~= name);
}

/// A path lies within another one exactly if its components are those of the other one and possibly
/// more; every path lies within itself.
pub proof fn law_within_means_more_components(path: Seq<u8>, base: Seq<u8>)
    ensures
        is_within(path, path),
        is_within(path, base) ==> exists|rest: Seq<Seq<u8>>|
            components(path) == #[trigger] (components(base) + rest),
        (exists|rest: Seq<Seq<u8>>| components(path) == #[trigger] (components(base) + rest))
            ==> is_within(path, base),
{
    let p = components(path);
    let b = components(base);
    assert(p.subrange(0, p.len() as int) =~= p);
    if is_within(path, base) {
        let rest = p.skip(b.len() as int);
        assert(p =~= p.subrange(0, b.len() as int) + rest);
        assert(p == b + rest);
    }
    if exists|rest: Seq<Seq<u8>>| p == #[trigger] (b + rest) {
        let rest = choose|rest: Seq<Seq<u8>>| p == #[trigger] (b + rest);
        assert((b + rest).subrange(0, b.len() as int) =~= b);
    }
}

/// The root directory is the one component of the path that is a separator alone; a name is the one
/// component of the path that is that name alone.
pub proof fn law_smallest_paths(name: Seq<u8>)
    requires
        name.len() > 0,
        name != seq![DOT],
        !name.contains(SEPARATOR),
    ensures
        components(seq![SEPARATOR]) == seq![seq![SEPARATOR]],
        components(name) == seq![name],
        components(seq![SEPARATOR] + name) == seq![seq![SEPARATOR], name],
{
    let root = seq![SEPARATOR];
    let empty = Seq::<u8>::empty();
    assert(root =~= empty.push(SEPARATOR) + empty);
    lemma_names_concat(empty, empty);
    let keep = |piece: Seq<u8>| is_name(piece);
    assert(split(empty, SEPARATOR) =~= seq![empty]);
    reveal(Seq::filter);
    assert(seq![empty].drop_last() =~= Seq::empty());
    assert(Seq::<Seq<u8>>::empty().filter(keep) =~= Seq::empty());
    assert(seq![empty].filter(keep) =~= Seq::empty());
    assert(names(empty) =~= Seq::empty());
    assert(names(root) =~= Seq::empty());
    assert(components(root) =~= seq![seq![SEPARATOR]]);
    law_join_adds_one_name(root, name);
    law_join_adds_one_name(empty, name);
    assert(!is_absolute(name)) by {
        if is_absolute(name) {
            assert(name[0] == SEPARATOR);
        }
    }
    assert(joined(root, name) =~= root + name);
    assert(joined(empty, name) =~= name);
    assert(split(empty, SEPARATOR)[0] =~= empty);
    assert(components(empty) =~= Seq::empty());
    assert(components(name) =~= seq![name]);
    assert(components(root + name) =~= seq![seq![SEPARATOR], name]);
}

/// Trailing and repeated separators, and dots between separators, make no difference to the
/// components of a path. A dot in front is a component of its own.
pub proof fn law_dots_and_repeated_separators_do_not_count(base: Seq<u8>, name: Seq<u8>)
    requires
        base.len() > 0,
        name.len() == 0 || name[0] != SEPARATOR,
    ensures
        components(base + seq![SEPARATOR]) == components(base),
        components(base + seq![SEPARATOR, DOT]) == components(base),
        components(base + seq![SEPARATOR, SEPARATOR] + name) == components(
            base + seq![SEPARATOR] + name,
        ),
        components(base + seq![SEPARATOR, DOT, SEPARATOR] + name) == components(
            base + seq![SEPARATOR] + name,
        ),
        components(seq![DOT]) == seq![seq![DOT]],
{
    let keep = |piece: Seq<u8>| is_name(piece);
    let empty = Seq::<u8>::empty();
    let dot = seq![DOT];
    let bar = seq![SEPARATOR];
    reveal(Seq::filter);
    assert(Seq::<Seq<u8>>::empty().filter(keep) =~= Seq::empty());
    lemma_split_single(empty, SEPARATOR);
    assert(!dot.contains(SEPARATOR)) by {
        if dot.contains(SEPARATOR) {
            let i = choose|i: int| 0 <= i < dot.len() && dot[i] == SEPARATOR;
            assert(dot[i] == DOT);
        }
    }
    lemma_split_single(dot, SEPARATOR);
    assert(seq![empty].drop_last() =~= Seq::empty());
    assert(seq![dot].drop_last() =~= Seq::empty());
    assert(names(empty) =~= Seq::empty());
    assert(names(dot) =~= Seq::empty());
    lemma_extended(base, empty);
    lemma_extended(base, dot);
    lemma_extended(base, name);
    lemma_extended(base, bar + name);
    lemma_extended(base, dot + bar + name);
    lemma_names_concat(empty, name);
    lemma_names_concat(dot, name);
    assert(bar + name =~= empty.push(SEPARATOR) + name);
    assert(dot + bar + name =~= dot.push(SEPARATOR) + name);
    assert(base + bar =~= base.push(SEPARATOR) + empty);
    assert(base + seq![SEPARATOR, DOT] =~= base.push(SEPARATOR) + dot);
    assert(base + bar + name =~= base.push(SEPARATOR) + name);
    assert(base + seq![SEPARATOR, SEPARATOR] + name =~= base.push(SEPARATOR) + (bar + name));
    assert(base + seq![SEPARATOR, DOT, SEPARATOR] + name =~= base.push(SEPARATOR) + (dot + bar
        + name));
    assert(components(base) + names(empty) =~= components(base));
    assert(names(empty) + names(name) =~= names(name));
    assert(components(dot) =~= seq![dot]);
}

/// What follows a separator adds its names to the components before it.
proof fn lemma_extended(base: Seq<u8>, rest: Seq<u8>)
    requires
        base.len() > 0,
    ensures
        components(base.push(SEPARATOR) + rest) == components(base) + names(rest),
{
    let whole = base.push(SEPARATOR) + rest;
    lemma_names_concat(base, rest);
    lemma_split_concat(base, rest, SEPARATOR);
    lemma_split_nonempty(base, SEPARATOR);
    assert(whole[0] == base[0]);
    assert(components(whole) =~= components(base) + names(rest));
}

} // verus!
