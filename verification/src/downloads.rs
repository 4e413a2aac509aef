//! Where downloads are saved.

use crate::path_text::{
    lemma_absolute_text, lemma_encode_dots, lemma_single_name, lemma_split_encoded,
};
use crate::paths::{
    components, is_absolute, is_name, join_path, joined, law_join_adds_one_name,
    law_join_stays_within, names, DOT, SEPARATOR,
};
use crate::sync_root::{home_dir, lossy_text, opt_bytes, text_from_bytes};
use crate::text::{
    eq_str, law_pieces_stand_between_separators, lemma_split_join, lemma_split_nonempty,
    lemma_split_single, split, split_at_char, views,
};
use vstd::prelude::*;
use vstd::utf8::encode_utf8;

verus! {

/// The folder, in the user's home directory, that takes downloads.
pub const DOWNLOADS_DIR: &'static str = "Downloads";

/// The folder for downloads: the one of the user's desktop, or else the one in the home directory.
pub open spec fn downloads_dir(desktop: Option<Seq<u8>>, home: Option<Seq<u8>>) -> Option<Seq<u8>> {
    match (desktop, home) {
        (Some(dir), _) => Some(dir),
        (None, Some(base)) => Some(joined(base, encode_utf8(DOWNLOADS_DIR@))),
        (None, None) => None,
    }
}

/// A download to be saved.
pub struct Download {
    /// The folder that has to exist.
    pub dir: Vec<u8>,
    /// The file.
    pub path: Vec<u8>,
    /// The file, as the page is told of it.
    pub shown: String,
}

/// What stands behind the last slash of the name that the page gives to a download.
pub open spec fn last_name(filename: Seq<char>) -> Seq<char> {
    split(filename, '/').last()
}

/// The name stays below the folder that it is joined to: it is relative and never goes up.
pub open spec fn stays_below(filename: Seq<char>) -> bool {
    &&& filename.len() > 0 && filename[0] != '/'
    &&& !split(filename, '/').contains(".."@)
}

/// The path within the folder under which a download is saved: the name that the page gives it,
/// where that stays below the folder, and else what stands behind its last slash.
pub open spec fn saved_name(filename: Seq<char>) -> Seq<char> {
    if stays_below(filename) {
        filename
    } else {
        last_name(filename)
    }
}

/// A download can be saved under this name: behind its last slash it names a file.
pub open spec fn can_be_saved(filename: Seq<char>) -> bool {
    let name = last_name(filename);
    name.len() > 0 && name != "."@ && name != ".."@
}

/// The download goes to `dir`: the names in its path are added to those of the folder.
pub open spec fn saved_in(d: Download, dir: Seq<u8>, filename: Seq<char>) -> bool {
    let name = encode_utf8(saved_name(filename));
    &&& d.dir@ == dir
    &&& d.path@ == joined(dir, name)
    &&& dir.len() > 0 ==> components(d.path@) == components(dir) + names(name)
    &&& d.shown@ == lossy_text(d.path@)
}

fn never_goes_up(filename: &str) -> (r: bool)
    ensures
        r == stays_below(filename@),
{
    if filename.is_empty() || filename.get_char(0) == '/' {
        return false;
    }
    let pieces = split_at_char(filename, '/');
    let ghost spread = views(pieces@);
    let mut i: usize = 0;
    while i < pieces.len()
        invariant
            i <= pieces.len(),
            spread == views(pieces@),
            spread == split(filename@, '/'),
            filename@.len() > 0 && filename@[0] != '/',
            forall|j: int| 0 <= j < i ==> #[trigger] spread[j] != ".."@,
        decreases pieces.len() - i,
    {
        assert(spread[i as int] == pieces@[i as int]@);
        if eq_str(pieces[i].as_str(), "..") {
            assert(spread.contains(".."@));
            return false;
        }
        i += 1;
    }
    true
}

/// Decides where a download goes, given the folder of the user's desktop for downloads and the
/// home directory.
pub fn save_download_in(desktop: Option<Vec<u8>>, home: Option<Vec<u8>>, filename: &str) -> (r:
    Result<Download, String>)
    ensures
        match downloads_dir(opt_bytes(desktop), opt_bytes(home)) {
            Some(dir) => match r {
                Ok(d) => can_be_saved(filename@) && saved_in(d, dir, filename@),
                Err(e) => !can_be_saved(filename@) && e@ == "Unable to save download"@,
            },
            None => r matches Err(e) && e@ == "Unable to access download location"@,
        },
{
    let dir = match (desktop, home) {
        (Some(dir), _) => dir,
        (None, Some(base)) => join_path(&base, DOWNLOADS_DIR.as_bytes()),
        (None, None) => {
            return Err("Unable to access download location".to_string());
        },
    };
    let pieces = split_at_char(filename, '/');
    let ghost spread = views(pieces@);
    let last = &pieces[pieces.len() - 1];
    assert(last@ == spread.last());
    if last.as_str().is_empty() || eq_str(last.as_str(), ".") || eq_str(last.as_str(), "..") {
        return Err("Unable to save download".to_string());
    }
    let name = if never_goes_up(filename) {
        filename
    } else {
        last.as_str()
    };
    proof {
        if dir@.len() > 0 {
            law_saved_downloads_stay_in_the_folder(dir@, filename@);
        }
    }
    let path = join_path(&dir, name.as_bytes());
    let shown = text_from_bytes(&path);
    Ok(Download { dir, path, shown })
}

/// Decides where a download goes, given the folder of the user's desktop for downloads, or else in
/// the user's home directory.
pub fn save_download(desktop: Option<Vec<u8>>, filename: &str) -> (r: Result<Download, String>)
    ensures
        desktop is Some && can_be_saved(filename@) ==> r is Ok,
        match r {
            Ok(d) => {
                &&& can_be_saved(filename@)
                &&& exists|home: Option<Seq<u8>>| #[trigger]
                    downloads_dir(opt_bytes(desktop), home) == Some(d.dir@)
                &&& saved_in(d, d.dir@, filename@)
            },
            Err(e) => {
                ||| !can_be_saved(filename@) && e@ == "Unable to save download"@
                ||| desktop is None && e@ == "Unable to access download location"@
            },
        },
{
    let home = home_dir();
    let ghost known = opt_bytes(home);
    let r = save_download_in(desktop, home, filename);
    assert(r matches Ok(d) ==> downloads_dir(opt_bytes(desktop), known) == Some(d.dir@));
    r
}

/// Whatever name the page gives it, a download that is saved goes to a place below the folder:
/// names are added to those of the folder, none of them is the way up, and the last one is the name
/// of the file.
pub proof fn law_saved_downloads_stay_in_the_folder(dir: Seq<u8>, filename: Seq<char>)
    requires
        dir.len() > 0,
        can_be_saved(filename),
    ensures
        ({
            let added = names(encode_utf8(saved_name(filename)));
            &&& components(joined(dir, encode_utf8(saved_name(filename)))) == components(dir)
                + added
            &&& added.len() > 0
            &&& added.last() == encode_utf8(last_name(filename))
            &&& forall|i: int|
                0 <= i < added.len() ==> #[trigger] added[i] != seq![DOT, DOT]
                    && !added[i].contains(SEPARATOR)
        }),
{
    let name = saved_name(filename);
    let last = last_name(filename);
    lemma_split_nonempty(filename, '/');
    lemma_pieces_hold_no_slash(filename);
    assert(split(filename, '/')[split(filename, '/').len() - 1] == last);
    if !stays_below(filename) {
        lemma_split_single(last, '/');
        assert(last.contains(last[0]));
    }
    lemma_absolute_text(name);
    law_join_stays_within(dir, encode_utf8(name));
    let pieces = split(name, '/');
    lemma_pieces_hold_no_slash(name);
    lemma_split_encoded(name);
    let encoded = split(encode_utf8(name), SEPARATOR);
    assert(pieces.last() == last);
    assert(encoded.last() == encode_utf8(last));
    lemma_single_name(last);
    let keep = |piece: Seq<u8>| is_name(piece);
    let added = names(encode_utf8(name));
    reveal(Seq::filter);
    assert(added == encoded.drop_last().filter(keep).push(encoded.last()));
    assert forall|i: int| 0 <= i < added.len() implies #[trigger] added[i] != seq![DOT, DOT]
        && !added[i].contains(SEPARATOR) by {
        encoded.lemma_filter_pred(keep, i);
        encoded.lemma_filter_contains_rev(keep, added[i]);
        let j = choose|j: int| 0 <= j < encoded.len() && encoded[j] == added[i];
        assert(encoded[j] == encode_utf8(pieces[j]));
        lemma_single_name(pieces[j]);
        assert(pieces.contains(pieces[j]));
    }
}

/// No piece holds a slash.
proof fn lemma_pieces_hold_no_slash(s: Seq<char>)
    ensures
        forall|i: int| 0 <= i < split(s, '/').len() ==> !(#[trigger] split(s, '/')[i]).contains('/'),
{
    lemma_split_join(s, '/');
    assert forall|i: int| 0 <= i < split(s, '/').len() implies !(#[trigger] split(
        s,
        '/',
    )[i]).contains('/') by {
        let piece = split(s, '/')[i];
        if piece.contains('/') {
            let k = choose|k: int| 0 <= k < piece.len() && piece[k] == '/';
            assert(split(s, '/')[i][k] == '/');
        }
    }
}

/// The name that a URL gives to what it leads to: what stands behind the last slash, up to a
/// question mark.
pub open spec fn url_file_name(url: Seq<char>) -> Seq<char> {
    split(split(url, '/').last(), '?').first()
}

fn file_name_in_url(url: &str) -> (r: String)
    ensures
        r@ == url_file_name(url@),
{
    let pieces = split_at_char(url, '/');
    let ghost spread = views(pieces@);
    let last = &pieces[pieces.len() - 1];
    assert(last@ == spread.last());
    let parts = split_at_char(last.as_str(), '?');
    assert(parts@[0]@ == views(parts@).first());
    parts[0].clone()
}

/// Where a file that the web view downloads goes: to the folder for downloads in the home
/// directory, and nowhere in particular if there is no home directory or the URL ends on the way
/// up.
pub open spec fn web_view_destination(home: Option<Seq<u8>>, url: Seq<char>) -> Option<Seq<u8>> {
    match home {
        Some(base) => if url_file_name(url) == ".."@ {
            None
        } else {
            Some(
                joined(
                    joined(base, encode_utf8(DOWNLOADS_DIR@)),
                    encode_utf8(url_file_name(url)),
                ),
            )
        },
        None => None,
    }
}

/// Where a file that the web view downloads goes, given the home directory.
pub fn download_destination_in(home: Option<Vec<u8>>, url: &str) -> (r: Option<Vec<u8>>)
    ensures
        opt_bytes(r) == web_view_destination(opt_bytes(home), url@),
{
    match home {
        Some(base) => {
            let name = file_name_in_url(url);
            if eq_str(name.as_str(), "..") {
                return None;
            }
            let dir = join_path(&base, DOWNLOADS_DIR.as_bytes());
            Some(join_path(&dir, name.as_str().as_bytes()))
        },
        None => None,
    }
}

/// Where a file that the web view downloads goes, in the user's home directory.
pub fn download_destination(url: &str) -> (r: Option<Vec<u8>>)
    ensures
        exists|home: Option<Seq<u8>>|
            opt_bytes(r) == #[trigger] web_view_destination(home, url@),
        url_file_name(url@) == ".."@ ==> r is None,
{
    let home = home_dir();
    let ghost known = opt_bytes(home);
    let r = download_destination_in(home, url);
    assert(opt_bytes(r) == web_view_destination(known, url@));
    r
}

/// Whatever its URL, a file that the web view downloads goes to the folder for downloads in the
/// home directory, as a file directly in it: exactly one name is added, which is not the way up, or
/// none where the URL gives no name.
pub proof fn law_web_view_downloads_stay_in_downloads(home: Seq<u8>, url: Seq<char>)
    ensures
        web_view_destination(Some(home), url) matches Some(place) ==> {
            let dir = joined(home, encode_utf8("Downloads"@));
            let name = url_file_name(url);
            if name.len() == 0 || name == "."@ {
                components(place) == components(dir)
            } else {
                components(place) == components(dir).push(encode_utf8(name)) && !encode_utf8(
                    name,
                ).contains(SEPARATOR) && encode_utf8(name) != seq![DOT, DOT]
            }
        },
{
    reveal_strlit("Downloads");
    lemma_absolute_text("Downloads"@);
    lemma_single_name("Downloads"@);
    let dir = joined(home, encode_utf8("Downloads"@));
    let piece = split(url, '/').last();
    let name = url_file_name(url);
    lemma_split_nonempty(url, '/');
    lemma_pieces_hold_no_slash(url);
    assert(split(url, '/')[split(url, '/').len() - 1] == piece);
    lemma_split_nonempty(piece, '?');
    lemma_split_prefix(piece, '?');
    if name.contains('/') {
        let i = choose|i: int| 0 <= i < name.len() && name[i] == '/';
        assert(piece[i] == '/');
        assert(piece.contains('/'));
    }
    lemma_single_name(name);
    if name.len() == 0 || name == "."@ {
        let bytes = encode_utf8(name);
        lemma_encode_dots();
        assert(dir.len() > 0);
        assert(!is_absolute(bytes));
        law_join_stays_within(dir, bytes);
        lemma_split_single(bytes, SEPARATOR);
        let keep = |piece: Seq<u8>| is_name(piece);
        reveal(Seq::filter);
        assert(seq![bytes].drop_last() =~= Seq::empty());
        assert(Seq::<Seq<u8>>::empty().filter(keep) =~= Seq::empty());
        assert(names(bytes) =~= Seq::empty());
        assert(components(dir) + names(bytes) =~= components(dir));
    } else {
        law_join_adds_one_name(dir, encode_utf8(name));
    }
}

/// The first piece of a text is a prefix of it.
proof fn lemma_split_prefix(s: Seq<char>, sep: char)
    ensures
        split(s, sep).first().len() <= s.len(),
        split(s, sep).first() == s.take(split(s, sep).first().len() as int),
    decreases s.len(),
{
    lemma_split_nonempty(s, sep);
    if s.len() == 0 {
        assert(s.take(0) =~= Seq::empty());
    } else {
        let front = s.drop_last();
        lemma_split_nonempty(front, sep);
        lemma_split_prefix(front, sep);
        let before = split(front, sep);
        let n = before.first().len() as int;
        assert(front.take(n) =~= s.take(n));
        if s.last() != sep && before.len() == 1 {
            lemma_split_join(front, sep);
            assert(before.first() =~= front);
            assert(split(s, sep).first() == front.push(s.last()));
            assert(s.take(s.len() as int) =~= s);
            assert(front.push(s.last()) =~= s);
        }
    }
}

/// A file that the web view downloads keeps its whole name: all that stands behind the last slash
/// of its URL, up to a question mark.
pub proof fn law_web_view_downloads_keep_their_name(
    prefix: Seq<char>,
    name: Seq<char>,
    rest: Seq<char>,
)
    requires
        !name.contains('/'),
        !name.contains('?'),
        !rest.contains('/'),
    ensures
        url_file_name(name) == name,
        url_file_name(prefix + seq!['/'] + name) == name,
        url_file_name(prefix + seq!['/'] + name + seq!['?'] + rest) == name,
{
    let tail = name + seq!['?'] + rest;
    law_pieces_stand_between_separators(name, rest, '/');
    law_pieces_stand_between_separators(name, rest, '?');
    law_pieces_stand_between_separators(prefix, name, '/');
    law_pieces_stand_between_separators(prefix, tail, '/');
    assert(!tail.contains('/')) by {
        if tail.contains('/') {
            let i = choose|i: int| 0 <= i < tail.len() && tail[i] == '/';
            if i < name.len() {
                assert(name[i] == '/');
            } else if i > name.len() {
                assert(rest[i - name.len() - 1] == '/');
            }
        }
    }
    law_pieces_stand_between_separators(tail, rest, '/');
    assert((split(prefix, '/') + split(name, '/')).last() == name);
    assert((split(prefix, '/') + split(tail, '/')).last() == tail);
    assert(prefix + seq!['/'] + name + seq!['?'] + rest =~= prefix + seq!['/'] + tail);
    assert((seq![name] + split(rest, '?')).first() == name);
}

/// A file that the web view downloads goes to the folder `Downloads` in the home directory, under
/// the name in its URL.
pub proof fn law_web_view_downloads_go_to_downloads(
    home: Seq<u8>,
    prefix: Seq<char>,
    name: Seq<char>,
    rest: Seq<char>,
)
    requires
        !name.contains('/'),
        !name.contains('?'),
        !rest.contains('/'),
        name != ".."@,
    ensures
        web_view_destination(Some(home), prefix + seq!['/'] + name) == Some(
            joined(joined(home, encode_utf8("Downloads"@)), encode_utf8(name)),
        ),
        web_view_destination(Some(home), prefix + seq!['/'] + name + seq!['?'] + rest) == Some(
            joined(joined(home, encode_utf8("Downloads"@)), encode_utf8(name)),
        ),
        web_view_destination(None, name) is None,
{
    law_web_view_downloads_keep_their_name(prefix, name, rest);
}

/// Downloads go to the folder of the user's desktop for them; without one, to `Downloads` in the
/// home directory; and without that, nowhere.
pub proof fn law_downloads_folder(dir: Seq<u8>, home: Option<Seq<u8>>, base: Seq<u8>)
    ensures
        downloads_dir(Some(dir), home) == Some(dir),
        downloads_dir(None, Some(base)) == Some(joined(base, encode_utf8("Downloads"@))),
        downloads_dir(None, None) is None,
{
}

/// A download is saved under the name that the page gives it: a plain name as it is, and a name
/// below a sub-folder in that sub-folder. Behind a way up, or from the root directory, only the
/// last name counts. A name that ends in a slash, a dot or two dots names no file.
pub proof fn law_downloads_keep_the_given_name(sub: Seq<char>, name: Seq<char>)
    requires
        !name.contains('/'),
        sub.len() > 0,
    ensures
        name.len() > 0 && name != "."@ && name != ".."@ ==> {
            &&& can_be_saved(name) && saved_name(name) == name
            &&& can_be_saved(sub + seq!['/'] + name)
            &&& sub[0] != '/' && !split(sub, '/').contains(".."@) ==> saved_name(
                sub + seq!['/'] + name,
            ) == sub + seq!['/'] + name
            &&& sub[0] == '/' || split(sub, '/').contains(".."@) ==> saved_name(
                sub + seq!['/'] + name,
            ) == name
        },
        name.len() == 0 || name == "."@ || name == ".."@ ==> !can_be_saved(name) && !can_be_saved(
            sub + seq!['/'] + name,
        ),
{
    let whole = sub + seq!['/'] + name;
    law_pieces_stand_between_separators(sub, name, '/');
    law_pieces_stand_between_separators(name, name, '/');
    let front = split(sub, '/');
    let pieces = front + seq![name];
    assert(split(whole, '/') == pieces);
    assert(pieces.last() == name);
    assert(whole[0] == sub[0]);
    assert(seq![name].last() == name);
    if front.contains(".."@) {
        let i = choose|i: int| 0 <= i < front.len() && front[i] == ".."@;
        assert(pieces[i] == ".."@);
    }
    if pieces.contains(".."@) {
        let i = choose|i: int| 0 <= i < pieces.len() && pieces[i] == ".."@;
        if i < front.len() {
            assert(front[i] == ".."@);
        }
    }
    if name.len() > 0 && name != "."@ && name != ".."@ {
        assert(name.contains(name[0]));
        if seq![name].contains(".."@) {
            let i = choose|i: int| 0 <= i < seq![name].len() && seq![name][i] == ".."@;
            assert(seq![name][i] == name);
        }
    }
}

/// What is said of a saved download fixes where it goes and what the page is told.
pub proof fn law_saved_downloads_are_told(d: Download, dir: Seq<u8>, filename: Seq<char>)
    requires
        saved_in(d, dir, filename),
    ensures
        d.dir@ == dir,
        d.path@ == joined(dir, encode_utf8(saved_name(filename))),
        d.shown@ == lossy_text(d.path@),
{
}

} // verus!
