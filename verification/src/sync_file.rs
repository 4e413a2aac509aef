//! Reading one file of the synced folder, step by step.
//!
//! Each step takes what the file system answered to the step before, and either gives the next
//! request to the file system or ends the reading with an error.

use crate::paths::{
    components, is_absolute, is_name, is_within, join_path, joined, law_join_stays_within, names,
    same_path, SEPARATOR,
};
use crate::path_text::{lemma_encode_dots, lemma_split_encoded};
use crate::sync_root::{
    ensure_sync_command_allowed, opt_bytes, sync_origin, ERR_SYNC_NOT_ALLOWED,
};
use crate::text::{
    eq_str, join, join_strings, law_pieces_stand_between_separators, lemma_join_concat,
    lemma_join_first, lemma_prefix_char, lemma_split_concat, lemma_split_join,
    lemma_split_nonempty, lemma_split_single, split, split_at_char, views,
};
use crate::web_url::Url;
use vstd::prelude::*;
use vstd::utf8::{encode_utf8, encode_utf8_decode_utf8};

verus! {

/// The most bytes that a file may have to be read.
pub const MAX_SYNC_BRIDGE_FILE_BYTES: u64 = 104857600;

/// A piece of a relative path that names something: it is neither empty nor a single dot.
pub open spec fn names_something(piece: Seq<char>) -> bool {
    piece.len() > 0 && piece != "."@
}

/// The names in a relative path, in order.
pub open spec fn relative_names(path: Seq<char>) -> Seq<Seq<char>> {
    split(path, '/').filter(|piece: Seq<char>| names_something(piece))
}

/// The path is relative, does not start with a dot of its own, and never goes up.
pub open spec fn is_clean_relative(path: Seq<char>) -> bool {
    &&& path.len() > 0
    &&& path[0] != '/'
    &&& split(path, '/')[0] != "."@
    &&& forall|i: int| 0 <= i < split(path, '/').len() ==> #[trigger] split(path, '/')[i] != ".."@
}

/// The path with its names alone.
pub open spec fn clean_relative(path: Seq<char>) -> Seq<char> {
    join(relative_names(path), "/"@)
}

/// Checks and cleans a path within the synced folder.
pub fn validate_sync_relative_path(path: &str) -> (r: Result<String, String>)
    ensures
        match r {
            Ok(p) => is_clean_relative(path@) && p@ == clean_relative(path@),
            Err(e) => !is_clean_relative(path@) && e@ == "Invalid sync path"@,
        },
{
    if path.is_empty() || path.get_char(0) == '/' {
        return Err("Invalid sync path".to_string());
    }
    let pieces = split_at_char(path, '/');
    let ghost all = views(pieces@);
    let ghost keep = |piece: Seq<char>| names_something(piece);
    assert(all[0] == pieces@[0]@);
    if eq_str(pieces[0].as_str(), ".") {
        return Err("Invalid sync path".to_string());
    }
    let mut kept: Vec<String> = Vec::new();
    assert(views(kept@) =~= all.take(0).filter(keep)) by {
        reveal(Seq::filter);
    }
    let mut i: usize = 0;
    while i < pieces.len()
        invariant
            i <= pieces.len(),
            all == views(pieces@),
            all == split(path@, '/'),
            keep == (|piece: Seq<char>| names_something(piece)),
            views(kept@) == all.take(i as int).filter(keep),
            forall|j: int| 0 <= j < i ==> #[trigger] all[j] != ".."@,
        decreases pieces.len() - i,
    {
        let ghost before = kept@;
        proof {
            assert(all.take(i + 1).drop_last() =~= all.take(i as int));
            assert(all.take(i + 1).last() == pieces@[i as int]@);
            assert(all[i as int] == pieces@[i as int]@);
            reveal(Seq::filter);
        }
        if eq_str(pieces[i].as_str(), "..") {
            return Err("Invalid sync path".to_string());
        }
        if !pieces[i].as_str().is_empty() && !eq_str(pieces[i].as_str(), ".") {
            kept.push(pieces[i].clone());
            assert(views(kept@) =~= views(before).push(pieces@[i as int]@));
        }
        i += 1;
    }
    assert(all.take(all.len() as int) =~= all);
    proof {
        reveal_strlit("/");
    }
    Ok(join_strings(&kept, "/"))
}

/// The two folders whose canonical paths are asked for.
pub struct RootsToResolve {
    /// The folder that is being synced.
    pub active_root: String,
    /// The folder that the caller named.
    pub requested_root: String,
    /// The file within it.
    pub relative_path: String,
}

/// A file about which the file system is asked, without following links.
pub struct SyncFileTarget {
    /// The folder that is being synced.
    pub root: Vec<u8>,
    /// The file within it.
    pub relative: String,
    /// The whole path of the file.
    pub path: Vec<u8>,
}

/// What the file system says of a file, without following links.
pub struct FileFacts {
    pub is_symlink: bool,
    pub is_file: bool,
    /// The length in bytes.
    pub len: u64,
    /// The time of the last change, in milliseconds since 1970, where it is known.
    pub modified_ms: Option<u128>,
}

/// A file whose content is asked for.
pub struct SyncFileToRead {
    /// The file within the synced folder.
    pub relative: String,
    /// The whole path of the file.
    pub path: Vec<u8>,
    /// The length in bytes.
    pub size: u64,
    /// The time of the last change, in milliseconds since 1970, where it is known.
    pub modified_ms: Option<u128>,
}

/// A file as it is handed to the page that uploads it.
pub struct SyncFilePayload {
    /// The file within the synced folder.
    pub relative_path: String,
    /// The name of the file.
    pub name: String,
    /// The length in bytes.
    pub size: u64,
    /// The time of the last change, in milliseconds since 1970, where it is known.
    pub modified_ms: Option<u128>,
    /// The content in base64.
    pub content_base64: String,
}

/// Starts a reading for the page in a window, given the folder that is being synced, if any, or
/// why that could not be told.
pub fn read_sync_file(
    window_url: Option<&Url>,
    folder_path: Result<Option<String>, String>,
    root_path: String,
    relative_path: String,
) -> (r: Result<RootsToResolve, String>)
    ensures
        match r {
            Ok(q) => {
                &&& window_url is Some && sync_origin((*window_url->0)@)
                &&& folder_path == Ok::<Option<String>, String>(Some(q.active_root))
                &&& q.requested_root == root_path
                &&& q.relative_path == relative_path
            },
            Err(e) => if window_url is None || !sync_origin((*window_url->0)@) {
                &&& e@ == ERR_SYNC_NOT_ALLOWED@
                &&& e@ == "Sync operation is not allowed in this context"@
            } else {
                match folder_path {
                    Ok(folder) => folder is None && e@ == "Live sync is not active"@,
                    Err(reason) => e == reason,
                }
            },
        },
{
    ensure_sync_command_allowed(window_url)?;
    match folder_path {
        Ok(Some(active_root)) => Ok(
            RootsToResolve { active_root, requested_root: root_path, relative_path },
        ),
        Ok(None) => Err("Live sync is not active".to_string()),
        Err(reason) => Err(reason),
    }
}

/// Both folders exist and are the same.
pub open spec fn same_root(active: Option<Seq<u8>>, requested: Option<Seq<u8>>) -> bool {
    active is Some && requested is Some && components(active->0) == components(requested->0)
}

impl RootsToResolve {
    /// Goes on, given the canonical paths of the two folders, as far as they have one.
    pub fn resolved(self, active: Option<Vec<u8>>, requested: Option<Vec<u8>>) -> (r: Result<
        SyncFileTarget,
        String,
    >)
        ensures
            match r {
                Ok(t) => {
                    &&& same_root(opt_bytes(active), opt_bytes(requested))
                    &&& is_clean_relative(self.relative_path@)
                    &&& t.root@ == active->0@
                    &&& t.relative@ == clean_relative(self.relative_path@)
                    &&& t.path@ == joined(t.root@, encode_utf8(t.relative@))
                },
                Err(e) => {
                    ||| !same_root(opt_bytes(active), opt_bytes(requested)) && e@
                        == "Unable to read sync file"@
                    ||| same_root(opt_bytes(active), opt_bytes(requested)) && !is_clean_relative(
                        self.relative_path@,
                    ) && e@ == "Invalid sync path"@
                },
            },
    {
        let (root, other) = match (active, requested) {
            (Some(a), Some(b)) => (a, b),
            _ => return Err("Unable to read sync file".to_string()),
        };
        if !same_path(&root, &other) {
            return Err("Unable to read sync file".to_string());
        }
        match validate_sync_relative_path(self.relative_path.as_str()) {
            Ok(relative) => {
                let path = join_path(&root, relative.as_str().as_bytes());
                Ok(SyncFileTarget { root, relative, path })
            },
            Err(e) => Err(e),
        }
    }
}

/// A regular file, not a link, within the synced folder.
pub open spec fn readable(within_root: bool, facts: Option<FileFacts>) -> bool {
    within_root && facts is Some && !facts->0.is_symlink && facts->0.is_file
}

impl SyncFileTarget {
    /// Goes on, given whether the file lies within the synced folder after all links are resolved,
    /// and what the file system says of it, if anything.
    pub fn inspected(self, within_root: bool, facts: Option<FileFacts>) -> (r: Result<
        SyncFileToRead,
        String,
    >)
        ensures
            match r {
                Ok(f) => {
                    &&& readable(within_root, facts)
                    &&& facts->0.len <= MAX_SYNC_BRIDGE_FILE_BYTES
                    &&& facts->0.len <= 100 * 1024 * 1024
                    &&& f.relative == self.relative
                    &&& f.path == self.path
                    &&& f.size == facts->0.len
                    &&& f.modified_ms == facts->0.modified_ms
                },
                Err(e) => {
                    ||| !readable(within_root, facts) && e@ == "Unable to read sync file"@
                    ||| readable(within_root, facts) && facts->0.len > MAX_SYNC_BRIDGE_FILE_BYTES
                        && facts->0.len > 100 * 1024 * 1024 && e@ == "Sync file is too large"@
                },
            },
    {
        if !within_root {
            return Err("Unable to read sync file".to_string());
        }
        match facts {
            Some(found) => {
                if found.is_symlink || !found.is_file {
                    return Err("Unable to read sync file".to_string());
                }
                if found.len > MAX_SYNC_BRIDGE_FILE_BYTES {
                    return Err("Sync file is too large".to_string());
                }
                Ok(
                    SyncFileToRead {
                        relative: self.relative,
                        path: self.path,
                        size: found.len,
                        modified_ms: found.modified_ms,
                    },
                )
            },
            None => Err("Unable to read sync file".to_string()),
        }
    }
}

/// The base64 digit for a number below sixty-four.
pub open spec fn base64_digit(n: int) -> char {
    "ABCDEFGHIJKLMNOPQRSTUVWXYZabcdefghijklmnopqrstuvwxyz0123456789+/"@[n]
}

/// The length of the base64 form of `n` bytes.
pub open spec fn base64_len(n: nat) -> nat {
    (n + 2) / 3 * 4
}

/// The byte at `i`, or zero past the end.
pub open spec fn byte_or_zero(bytes: Seq<u8>, i: int) -> int {
    if i < bytes.len() {
        bytes[i] as int
    } else {
        0
    }
}

/// The character at `k` of the base64 form of `bytes`: each group of three bytes is written as four
/// digits of six bits each, and digits without any bit of the content are written as `=`.
pub open spec fn base64_char(bytes: Seq<u8>, k: int) -> char {
    let first = k / 4 * 3;
    let a = byte_or_zero(bytes, first);
    let b = byte_or_zero(bytes, first + 1);
    let c = byte_or_zero(bytes, first + 2);
    if k % 4 == 0 {
        base64_digit(a / 4)
    } else if k % 4 == 1 {
        base64_digit(a % 4 * 16 + b / 16)
    } else if first + k % 4 - 1 >= bytes.len() {
        '='
    } else if k % 4 == 2 {
        base64_digit(b % 16 * 4 + c / 64)
    } else {
        base64_digit(c % 64)
    }
}

/// The base64 form of some bytes, in the standard alphabet and with padding.
pub open spec fn base64_text(bytes: Seq<u8>) -> Seq<char> {
    Seq::new(base64_len(bytes.len()), |k: int| base64_char(bytes, k))
}

/// Calls `base64::Engine::encode` on `base64::engine::general_purpose::STANDARD`.
///
/// Claimed: the result is the base64 form of the bytes in the standard alphabet of RFC 4648, with
/// padding. Content so long that the result would not fit in memory is left out.
#[verifier::external_body]
fn encode_base64(bytes: &Vec<u8>) -> (r: String)
    requires
        base64_len(bytes@.len()) <= isize::MAX,
    ensures
        r@ == base64_text(bytes@),
{
    base64::Engine::encode(&base64::engine::general_purpose::STANDARD, bytes)
}

impl SyncFileToRead {
    /// Ends the reading, given the content of the file, if it could be read.
    pub fn payload(self, content: Option<Vec<u8>>) -> (r: Result<SyncFilePayload, String>)
        requires
            content is Some ==> base64_len(content->0@.len()) <= isize::MAX,
        ensures
            match r {
                Ok(p) => {
                    &&& content is Some
                    &&& p.relative_path == self.relative
                    &&& p.name@ == split(self.relative@, '/').last()
                    &&& p.size == self.size
                    &&& p.modified_ms == self.modified_ms
                    &&& p.content_base64@ == base64_text(content->0@)
                },
                Err(e) => content is None && e@ == "Unable to read sync file"@,
            },
    {
        match content {
            Some(bytes) => {
                let pieces = split_at_char(self.relative.as_str(), '/');
                let name = pieces[pieces.len() - 1].clone();
                assert(views(pieces@).last() == pieces@.last()@);
                Ok(
                    SyncFilePayload {
                        relative_path: self.relative,
                        name,
                        size: self.size,
                        modified_ms: self.modified_ms,
                        content_base64: encode_base64(&bytes),
                    },
                )
            },
            None => Err("Unable to read sync file".to_string()),
        }
    }
}

/// Splitting undoes joining, where no part holds the separator.
proof fn lemma_split_joined(parts: Seq<Seq<char>>)
    requires
        parts.len() > 0,
        forall|i: int| 0 <= i < parts.len() ==> !(#[trigger] parts[i]).contains('/'),
    ensures
        split(join(parts, seq!['/']), '/') == parts,
    decreases parts.len(),
{
    if parts.len() == 1 {
        lemma_split_single(parts[0], '/');
        assert(seq![parts[0]] =~= parts);
    } else {
        let front = parts.drop_last();
        assert forall|i: int| 0 <= i < front.len() implies !(#[trigger] front[i]).contains('/') by {
            assert(front[i] == parts[i]);
        }
        lemma_split_joined(front);
        assert(join(parts, seq!['/']) =~= join(front, seq!['/']).push('/') + parts.last());
        lemma_split_concat(join(front, seq!['/']), parts.last(), '/');
        lemma_split_single(parts[parts.len() - 1], '/');
        assert(front + seq![parts.last()] =~= parts);
    }
}

/// A cleaned path holds the names of the path and nothing else: none is empty, a dot or two dots.
pub proof fn law_clean_path_holds_names(path: Seq<char>)
    requires
        is_clean_relative(path),
    ensures
        split(clean_relative(path), '/') == relative_names(path),
        relative_names(path).len() > 0,
        forall|i: int|
            0 <= i < relative_names(path).len() ==> {
                let name = #[trigger] relative_names(path)[i];
                name.len() > 0 && name != "."@ && name != ".."@ && !name.contains('/')
            },
{
    reveal_strlit("/");
    assert("/"@ =~= seq!['/']);
    let keep = |piece: Seq<char>| names_something(piece);
    let pieces = split(path, '/');
    let kept = relative_names(path);
    lemma_split_nonempty(path, '/');
    lemma_split_join(path, '/');
    assert forall|i: int| 0 <= i < kept.len() implies {
        let name = #[trigger] kept[i];
        name.len() > 0 && name != "."@ && name != ".."@ && !name.contains('/')
    } by {
        pieces.lemma_filter_pred(keep, i);
        pieces.lemma_filter_contains_rev(keep, kept[i]);
        let j = choose|j: int| 0 <= j < pieces.len() && pieces[j] == kept[i];
        assert(pieces[j] != ".."@);
        if kept[i].contains('/') {
            let k = choose|k: int| 0 <= k < kept[i].len() && kept[i][k] == '/';
            assert(pieces[j][k] == '/');
        }
    }
    assert(pieces[0].len() > 0) by {
        if pieces[0].len() == 0 {
            lemma_first_piece(path);
        }
    }
    pieces.lemma_filter_contains(keep, 0);
    assert(kept.contains(pieces[0]));
    lemma_split_joined(kept);
}

/// A cleaned path is accepted, and cleaning it again changes nothing.
pub proof fn law_cleaning_again_changes_nothing(path: Seq<char>)
    requires
        is_clean_relative(path),
    ensures
        is_clean_relative(clean_relative(path)),
        clean_relative(clean_relative(path)) == clean_relative(path),
{
    law_clean_path_holds_names(path);
    let clean = clean_relative(path);
    let kept = relative_names(path);
    let keep = |piece: Seq<char>| names_something(piece);
    lemma_join_first(kept, "/"@);
    lemma_prefix_char(clean, kept[0], 0);
    assert(kept[0].contains(kept[0][0]));
    assert forall|i: int| 0 <= i < kept.len() implies keep(#[trigger] kept[i]) by {}
    lemma_filter_all(kept, keep);
}

/// A path whose first piece is empty is empty or starts with a slash.
proof fn lemma_first_piece(path: Seq<char>)
    requires
        split(path, '/')[0].len() == 0,
    ensures
        path.len() == 0 || path[0] == '/',
    decreases path.len(),
{
    if path.len() > 0 {
        let front = path.drop_last();
        lemma_split_nonempty(front, '/');
        if split(front, '/')[0].len() == 0 {
            lemma_first_piece(front);
            if front.len() == 0 {
                assert(split(front, '/') =~= seq![Seq::empty()]);
                assert(path[0] == path.last());
            }
        }
    }
}

/// A file that is read lies within the synced folder: its path has the components of the folder,
/// followed by the names of the relative path.
pub proof fn law_sync_file_lies_within_root(root: Seq<u8>, path: Seq<char>)
    requires
        is_absolute(root),
        is_clean_relative(path),
    ensures
        is_within(joined(root, encode_utf8(clean_relative(path))), root),
        components(joined(root, encode_utf8(clean_relative(path)))) == components(root)
            + relative_names(path).map_values(|name: Seq<char>| encode_utf8(name)),
{
    law_clean_path_holds_names(path);
    let clean = clean_relative(path);
    let bytes = encode_utf8(clean);
    let f = |name: Seq<char>| encode_utf8(name);
    let keep = |piece: Seq<u8>| is_name(piece);
    lemma_split_encoded(clean);
    let pieces = split(bytes, SEPARATOR);
    assert(pieces == relative_names(path).map_values(f));
    reveal_strlit(".");
    assert forall|i: int| 0 <= i < pieces.len() implies is_name(#[trigger] pieces[i]) by {
        let name = relative_names(path)[i];
        assert(pieces[i] == encode_utf8(name));
        encode_utf8_decode_utf8(name);
        encode_utf8_decode_utf8("."@);
        encode_utf8_decode_utf8(Seq::empty());
        assert("."@ =~= seq!['.']);
        lemma_encode_dots();
        if encode_utf8(name).len() == 0 {
            assert(encode_utf8(name) =~= encode_utf8(Seq::empty()));
        }
    }
    lemma_filter_all(pieces, keep);
    assert(names(bytes) == pieces);
    assert(!is_absolute(bytes)) by {
        if is_absolute(bytes) {
            lemma_absolute_first_piece(bytes);
            assert(is_name(pieces[0]));
        }
    }
    law_join_stays_within(root, bytes);
}

/// The first piece of an absolute path is empty.
proof fn lemma_absolute_first_piece(path: Seq<u8>)
    requires
        is_absolute(path),
    ensures
        split(path, SEPARATOR)[0].len() == 0,
    decreases path.len(),
{
    let front = path.drop_last();
    lemma_split_nonempty(front, SEPARATOR);
    if front.len() == 0 {
        assert(path.last() == path[0]);
        assert(split(front, SEPARATOR) =~= seq![Seq::empty()]);
    } else {
        assert(front[0] == path[0]);
        lemma_absolute_first_piece(front);
        lemma_two_pieces(front);
    }
}

/// An absolute path has at least two pieces.
proof fn lemma_two_pieces(path: Seq<u8>)
    requires
        is_absolute(path),
    ensures
        split(path, SEPARATOR).len() >= 2,
    decreases path.len(),
{
    let front = path.drop_last();
    lemma_split_nonempty(front, SEPARATOR);
    if front.len() > 0 {
        assert(front[0] == path[0]);
        lemma_two_pieces(front);
    }
}

/// A filter that every element passes keeps all of them.
pub proof fn lemma_filter_all<T>(s: Seq<T>, keep: spec_fn(T) -> bool)
    requires
        forall|i: int| 0 <= i < s.len() ==> keep(#[trigger] s[i]),
    ensures
        s.filter(keep) == s,
    decreases s.len(),
{
    reveal(Seq::filter);
    if s.len() > 0 {
        lemma_filter_all(s.drop_last(), keep);
        assert(s.drop_last().push(s.last()) =~= s);
    } else {
        assert(s.filter(keep) =~= s);
    }
}

/// Every path made of names can be read, and is kept as it is.
pub proof fn law_paths_of_names_are_kept(parts: Seq<Seq<char>>)
    requires
        parts.len() > 0,
        forall|i: int|
            0 <= i < parts.len() ==> {
                let name = #[trigger] parts[i];
                name.len() > 0 && name != "."@ && name != ".."@ && !name.contains('/')
            },
    ensures
        is_clean_relative(join(parts, "/"@)),
        clean_relative(join(parts, "/"@)) == join(parts, "/"@),
{
    reveal_strlit("/");
    assert("/"@ =~= seq!['/']);
    let path = join(parts, "/"@);
    lemma_split_joined(parts);
    lemma_join_first(parts, "/"@);
    lemma_prefix_char(path, parts[0], 0);
    assert(parts[0].contains(parts[0][0]));
    let keep = |piece: Seq<char>| names_something(piece);
    assert forall|i: int| 0 <= i < parts.len() implies keep(#[trigger] parts[i]) by {}
    lemma_filter_all(parts, keep);
}

/// The names of a path are those on either side of a slash; an empty piece and a dot are no names.
/// So doubled and trailing slashes, and dots between slashes, make no difference.
pub proof fn law_names_stand_between_slashes(a: Seq<char>, b: Seq<char>)
    ensures
        relative_names(a + seq!['/'] + b) == relative_names(a) + relative_names(b),
        relative_names(Seq::empty()) == Seq::<Seq<char>>::empty(),
        relative_names("."@) == Seq::<Seq<char>>::empty(),
        !a.contains('/') && a.len() > 0 && a != "."@ ==> relative_names(a) == seq![a],
{
    let keep = |piece: Seq<char>| names_something(piece);
    law_pieces_stand_between_separators(a, b, '/');
    Seq::filter_distributes_over_add(split(a, '/'), split(b, '/'), keep);
    reveal_strlit(".");
    let empty = Seq::<char>::empty();
    lemma_split_single(empty, '/');
    assert(!"."@.contains('/')) by {
        if "."@.contains('/') {
            let i = choose|i: int| 0 <= i < "."@.len() && "."@[i] == '/';
        }
    }
    lemma_split_single("."@, '/');
    reveal(Seq::filter);
    assert(Seq::<Seq<char>>::empty().filter(keep) =~= Seq::empty());
    assert(seq![empty].drop_last() =~= Seq::empty());
    assert(seq!["."@].drop_last() =~= Seq::empty());
    assert(seq![a].drop_last() =~= Seq::empty());
    assert(relative_names(empty) =~= Seq::empty());
    assert(relative_names("."@) =~= Seq::empty());
    if !a.contains('/') && a.len() > 0 && a != "."@ {
        assert(relative_names(a) =~= seq![a]);
    }
}

/// No path is read that is empty, starts at the root directory or at an explicit current directory,
/// or goes up anywhere.
pub proof fn law_ways_out_are_refused(a: Seq<char>, b: Seq<char>)
    ensures
        !is_clean_relative(Seq::empty()),
        !is_clean_relative(seq!['/'] + a),
        !is_clean_relative("."@),
        !is_clean_relative("."@ + seq!['/'] + a),
        !is_clean_relative(".."@),
        !is_clean_relative(".."@ + seq!['/'] + a),
        !is_clean_relative(a + seq!['/'] + ".."@),
        !is_clean_relative(a + seq!['/'] + ".."@ + seq!['/'] + b),
{
    reveal_strlit(".");
    reveal_strlit("..");
    assert(!"."@.contains('/')) by {
        if "."@.contains('/') {
            let i = choose|i: int| 0 <= i < "."@.len() && "."@[i] == '/';
        }
    }
    assert(!".."@.contains('/')) by {
        if ".."@.contains('/') {
            let i = choose|i: int| 0 <= i < ".."@.len() && ".."@[i] == '/';
        }
    }
    law_pieces_stand_between_separators("."@, a, '/');
    law_pieces_stand_between_separators(".."@, a, '/');
    law_pieces_stand_between_separators(a, ".."@, '/');
    let tail = ".."@ + seq!['/'] + b;
    law_pieces_stand_between_separators(".."@, b, '/');
    law_pieces_stand_between_separators(a, tail, '/');
    lemma_split_nonempty(a, '/');
    let n = split(a, '/').len() as int;
    assert(a + seq!['/'] + ".."@ + seq!['/'] + b =~= a + seq!['/'] + tail);
    assert(split("."@ + seq!['/'] + a, '/')[0] == "."@);
    assert(split(".."@ + seq!['/'] + a, '/')[0] == ".."@);
    assert(split(a + seq!['/'] + ".."@, '/')[n] == ".."@);
    assert(split(a + seq!['/'] + tail, '/')[n] == ".."@);
    assert(split("."@, '/')[0] == "."@);
    assert(split(".."@, '/')[0] == ".."@);
    assert((seq!['/'] + a)[0] == '/');
}

/// Files are read from the folder that is being synced, whichever way its path is written, and from
/// no other one.
pub proof fn law_only_the_active_root_is_read(
    active: Seq<u8>,
    requested: Seq<u8>,
    other: Option<Seq<u8>>,
)
    ensures
        same_root(Some(active), Some(active)),
        same_root(Some(active), Some(requested)) <==> components(active) == components(requested),
        !same_root(None, other),
        !same_root(other, None),
{
}

/// A regular file within the folder can be read, however it came by its length and its time; a
/// link, a directory, a file outside and a missing file cannot.
pub proof fn law_regular_files_are_read(facts: FileFacts, within_root: bool)
    ensures
        facts.is_file && !facts.is_symlink ==> readable(true, Some(facts)),
        facts.is_symlink ==> !readable(within_root, Some(facts)),
        !facts.is_file ==> !readable(within_root, Some(facts)),
        !readable(false, Some(facts)),
        !readable(within_root, None),
{
}

/// A path that can be read can be followed by anything that does not go up: by names, by dots and
/// by further slashes. What it comes to is cleaned piece by piece.
pub proof fn law_clean_paths_can_go_on(a: Seq<char>, b: Seq<char>)
    requires
        is_clean_relative(a),
        !split(b, '/').contains(".."@),
    ensures
        is_clean_relative(a + seq!['/'] + b),
        relative_names(b).len() == 0 ==> clean_relative(a + seq!['/'] + b) == clean_relative(a),
        relative_names(b).len() > 0 ==> clean_relative(a + seq!['/'] + b) == clean_relative(a)
            + seq!['/'] + join(relative_names(b), seq!['/']),
{
    let whole = a + seq!['/'] + b;
    law_pieces_stand_between_separators(a, b, '/');
    law_names_stand_between_slashes(a, b);
    lemma_split_nonempty(a, '/');
    let pa = split(a, '/');
    let pb = split(b, '/');
    assert(whole[0] == a[0]);
    assert forall|i: int| 0 <= i < split(whole, '/').len() implies #[trigger] split(whole, '/')[i]
        != ".."@ by {
        if i < pa.len() {
            assert(split(whole, '/')[i] == pa[i]);
        } else {
            assert(split(whole, '/')[i] == pb[i - pa.len()]);
            assert(pb.contains(pb[i - pa.len()]));
        }
    }
    reveal_strlit("/");
    assert("/"@ =~= seq!['/']);
    if relative_names(b).len() == 0 {
        assert(relative_names(a) + relative_names(b) =~= relative_names(a));
    } else {
        law_clean_path_holds_names(a);
        lemma_join_concat(relative_names(a), relative_names(b), "/"@);
    }
}

} // verus!
