//! The folder that is kept in sync, and who may ask about it.

use crate::device::{
    default_sync_device_name, device_name, machine_name, DEFAULT_DEVICE_TYPE_LINUX,
    DEFAULT_REMOTE_SCOPE_COMPUTERS,
};
use crate::path_text::lemma_absolute_text;
use crate::paths::{
    components, copy_bytes, is_absolute, is_within, join_path, joined, law_join_adds_one_name,
    law_join_stays_within, law_within_means_more_components, starts_with_path, SEPARATOR,
};
use crate::proton_navigation::{is_local_app_host, local_app_host};
use crate::text::{eq_str, has_prefix, lemma_prefix_char, starts_with};
use crate::trimming::{is_white, law_trimming_leaves_the_middle, trim, trimmed, CharClass};
use crate::web_url::{opt_view, Url, UrlView};
use vstd::prelude::*;
use vstd::utf8::{decode_utf8, encode_utf8, is_ascii_chars, is_ascii_chars_encode_utf8, valid_utf8};

verus! {

/// The answer to a sync command that comes from anywhere but the shell's own pages.
pub const ERR_SYNC_NOT_ALLOWED: &'static str = "Sync operation is not allowed in this context";

/// The file, in the data directory of the application, that names the selected folder.
pub const SYNC_ROOT_CONFIG_FILE: &'static str = "sync-root.txt";

/// The folder, in the user's home directory, that is synced by default.
pub const DEFAULT_SYNC_ROOT_DIR: &'static str = "ProtonDrive";

/// The access rights of files that only their owner may read.
pub const PRIVATE_FILE_MODE: u32 = 0o600;

/// The text that `String::from_utf8_lossy` makes of some bytes.
pub uninterp spec fn lossy_text(bytes: Seq<u8>) -> Seq<char>;

/// Calls `dirs::home_dir`.
///
/// Claimed, of Linux: a home directory that is found is not the empty path. Which one it is depends
/// on the environment and on the system's list of users, and is left unsaid.
#[verifier::external_body]
pub(crate) fn home_dir() -> (r: Option<Vec<u8>>)
    ensures
        r matches Some(p) ==> p@.len() > 0,
{
    dirs::home_dir().map(|p| p.into_os_string().into_encoded_bytes())
}

/// Calls `String::from_utf8_lossy`.
///
/// Claimed: the text depends on the bytes alone, under the name [`lossy_text`], and well-formed
/// UTF-8 is decoded as it is.
#[verifier::external_body]
pub(crate) fn text_from_bytes(bytes: &Vec<u8>) -> (r: String)
    ensures
        r@ == lossy_text(bytes@),
        valid_utf8(bytes@) ==> r@ == decode_utf8(bytes@),
{
    String::from_utf8_lossy(bytes.as_slice()).into_owned()
}

/// The view of an optional byte string.
pub open spec fn opt_bytes(b: Option<Vec<u8>>) -> Option<Seq<u8>> {
    match b {
        Some(x) => Some(x@),
        None => None,
    }
}

/// A page of the shell itself, which alone may give sync commands.
pub open spec fn sync_origin(url: UrlView) -> bool {
    url.scheme == "tauri"@ && local_app_host(url.host)
}

/// Refuses sync commands unless the window shows a page of the shell itself.
pub fn ensure_sync_command_allowed(window_url: Option<&Url>) -> (r: Result<(), String>)
    ensures
        match r {
            Ok(_) => window_url is Some && sync_origin((*window_url->0)@),
            Err(e) => {
                &&& window_url is None || !sync_origin((*window_url->0)@)
                &&& e@ == ERR_SYNC_NOT_ALLOWED@
                &&& e@ == "Sync operation is not allowed in this context"@
            },
        },
{
    match window_url {
        Some(url) => {
            if eq_str(url.scheme.as_str(), "tauri") && is_local_app_host(url.host_str()) {
                Ok(())
            } else {
                Err(ERR_SYNC_NOT_ALLOWED.to_string())
            }
        },
        None => Err(ERR_SYNC_NOT_ALLOWED.to_string()),
    }
}

/// The folder may be synced: it is named by an absolute path, exists, and lies within the home
/// directory.
pub open spec fn sync_root_accepted(
    path: Seq<char>,
    canonical: Option<Seq<u8>>,
    home: Option<Seq<u8>>,
) -> bool {
    &&& path.len() > 0 && path[0] == '/'
    &&& canonical is Some && home is Some && is_within(canonical->0, home->0)
}

/// Checks a folder, given the path that names it, its canonical path, if it has one, and the home
/// directory.
pub fn sync_root_within_home(
    path: &str,
    canonical: Option<Vec<u8>>,
    home: Option<Vec<u8>>,
) -> (r: Result<Vec<u8>, String>)
    ensures
        match r {
            Ok(p) => sync_root_accepted(path@, opt_bytes(canonical), opt_bytes(home)) && Some(p@)
                == opt_bytes(canonical),
            Err(e) => !sync_root_accepted(path@, opt_bytes(canonical), opt_bytes(home)) && e@
                == "Invalid sync folder"@,
        },
{
    proof {
        reveal_strlit("/");
        if has_prefix(path@, "/"@) {
            lemma_prefix_char(path@, "/"@, 0);
        } else if path@.len() > 0 && path@[0] == '/' {
            assert(path@.subrange(0, 1) =~= "/"@);
        }
    }
    if !starts_with(path, "/") {
        return Err("Invalid sync folder".to_string());
    }
    match (canonical, home) {
        (Some(resolved), Some(base)) => {
            if starts_with_path(&resolved, &base) {
                Ok(resolved)
            } else {
                Err("Invalid sync folder".to_string())
            }
        },
        _ => Err("Invalid sync folder".to_string()),
    }
}

/// Checks a folder, given the path that names it and its canonical path, if it has one, against the
/// user's home directory.
pub fn validate_sync_root_path(path: &str, canonical: Option<Vec<u8>>) -> (r: Result<
    Vec<u8>,
    String,
>)
    ensures
        match r {
            Ok(p) => Some(p@) == opt_bytes(canonical) && exists|home: Seq<u8>|
                home.len() > 0 && #[trigger] sync_root_accepted(path@, Some(p@), Some(home)),
            Err(e) => e@ == "Invalid sync folder"@,
        },
        canonical is None || path@.len() == 0 || path@[0] != '/' ==> r is Err,
{
    let home = home_dir();
    let ghost known = opt_bytes(home);
    let r = sync_root_within_home(path, canonical, home);
    assert(r matches Ok(p) ==> sync_root_accepted(path@, Some(p@), Some(known->0)));
    r
}

/// The default folder, given the home directory.
pub fn default_sync_root_in(home: Option<Vec<u8>>) -> (r: Result<Vec<u8>, String>)
    ensures
        match r {
            Ok(p) => {
                &&& home is Some
                &&& p@ == joined(home->0@, encode_utf8(DEFAULT_SYNC_ROOT_DIR@))
                &&& p@ == joined(home->0@, encode_utf8("ProtonDrive"@))
            },
            Err(e) => home is None && e@ == "Invalid sync folder"@,
        },
{
    match home {
        Some(base) => Ok(join_path(&base, DEFAULT_SYNC_ROOT_DIR.as_bytes())),
        None => Err("Invalid sync folder".to_string()),
    }
}

/// The default folder in the user's home directory.
pub fn default_sync_root_path() -> (r: Result<Vec<u8>, String>)
    ensures
        match r {
            Ok(p) => exists|home: Seq<u8>|
                home.len() > 0 && p@ == #[trigger] joined(
                    home,
                    encode_utf8(DEFAULT_SYNC_ROOT_DIR@),
                ),
            Err(e) => e@ == "Invalid sync folder"@,
        },
{
    default_sync_root_in(home_dir())
}

/// The file that names the selected folder.
pub fn sync_root_config_path(app_data_dir: &Vec<u8>) -> (r: Vec<u8>)
    ensures
        r@ == joined(app_data_dir@, encode_utf8(SYNC_ROOT_CONFIG_FILE@)),
        r@ == joined(app_data_dir@, encode_utf8("sync-root.txt"@)),
{
    join_path(app_data_dir, SYNC_ROOT_CONFIG_FILE.as_bytes())
}

/// A text file to be written, readable by its owner alone.
pub struct PrivateFile {
    /// Where it goes.
    pub path: Vec<u8>,
    /// What it holds.
    pub text: String,
}

/// The file to be written when a folder has been selected.
pub fn persist_selected_sync_root(app_data_dir: &Vec<u8>, sync_root: &Vec<u8>) -> (r: PrivateFile)
    ensures
        r.path@ == joined(app_data_dir@, encode_utf8(SYNC_ROOT_CONFIG_FILE@)),
        r.path@ == joined(app_data_dir@, encode_utf8("sync-root.txt"@)),
        r.text@ == lossy_text(sync_root@),
        valid_utf8(sync_root@) ==> r.text@ == decode_utf8(sync_root@),
{
    PrivateFile {
        path: sync_root_config_path(app_data_dir),
        text: text_from_bytes(sync_root),
    }
}

/// What the content of the file says is selected: nothing if it is blank.
pub open spec fn selected_root(content: Option<Seq<char>>) -> Option<Seq<char>> {
    match content {
        Some(text) => if trimmed(text, CharClass::White).len() > 0 {
            Some(trimmed(text, CharClass::White))
        } else {
            None
        },
        None => None,
    }
}

/// The selected folder, given the content of the file, if it could be read.
pub fn read_selected_sync_root(content: Option<String>) -> (r: Option<String>)
    ensures
        opt_view(r) == selected_root(opt_view(content)),
{
    match content {
        Some(text) => {
            let path = trim(text.as_str());
            if path.as_str().is_empty() {
                None
            } else {
                Some(path)
            }
        },
        None => None,
    }
}

/// An entry among the synced computers.
pub struct ComputersRoot {
    /// The local folder.
    pub local_path: Vec<u8>,
    /// The name of this computer.
    pub device_name: String,
    /// The type of this computer.
    pub device_type: String,
    /// The remote scope that lists it.
    pub remote_scope: String,
}

/// The entry for a folder of this computer, given the host name in the environment and the content
/// of the host name file.
pub fn register_sync_root_metadata(
    sync_root: &Vec<u8>,
    env: Option<String>,
    file: Option<String>,
) -> (r: ComputersRoot)
    ensures
        r.local_path@ == sync_root@,
        r.device_name@ == device_name(machine_name(opt_view(env), opt_view(file))),
        r.device_type@ == "linux"@,
        r.remote_scope@ == "computers"@,
{
    ComputersRoot {
        local_path: copy_bytes(sync_root.as_slice()),
        device_name: default_sync_device_name(env, file),
        device_type: DEFAULT_DEVICE_TYPE_LINUX.to_string(),
        remote_scope: DEFAULT_REMOTE_SCOPE_COMPUTERS.to_string(),
    }
}

/// A selected folder is read back as it was written, unless its name starts or ends with white
/// space.
pub proof fn law_selected_root_is_read_back(sync_root: Seq<u8>)
    requires
        valid_utf8(sync_root),
        sync_root.len() > 0,
        !is_white(decode_utf8(sync_root).first()),
        !is_white(decode_utf8(sync_root).last()),
    ensures
        selected_root(Some(decode_utf8(sync_root))) == Some(decode_utf8(sync_root)),
{
}

/// The default folder lies directly in the home directory, under its own name, and may be synced,
/// where the home directory is named by an absolute path in well-formed text.
pub proof fn law_default_root_is_accepted(home: Seq<u8>, path: Seq<char>)
    requires
        is_absolute(home),
        encode_utf8(path) == joined(home, encode_utf8("ProtonDrive"@)),
    ensures
        components(joined(home, encode_utf8("ProtonDrive"@))) == components(home).push(
            encode_utf8("ProtonDrive"@),
        ),
        sync_root_accepted(path, Some(encode_utf8(path)), Some(home)),
{
    reveal_strlit("ProtonDrive");
    let name = encode_utf8("ProtonDrive"@);
    assert(is_ascii_chars("ProtonDrive"@));
    is_ascii_chars_encode_utf8("ProtonDrive"@);
    assert(name.len() == 11);
    assert(!name.contains(SEPARATOR)) by {
        if name.contains(SEPARATOR) {
            let i = choose|i: int| 0 <= i < name.len() && name[i] == SEPARATOR;
            assert("ProtonDrive"@[i] as u8 == name[i]);
        }
    }
    assert(name[0] != SEPARATOR);
    law_join_adds_one_name(home, name);
    law_join_stays_within(home, name);
    assert(is_absolute(joined(home, name)));
    lemma_absolute_text(path);
}

/// The home directory and every folder within it, at any depth, may be synced, where it is named by
/// an absolute path.
pub proof fn law_folders_within_home_are_accepted(path: Seq<char>, home: Seq<u8>, name: Seq<u8>)
    requires
        path.len() > 0 && path[0] == '/',
        home.len() > 0,
        name.len() == 0 || name[0] != SEPARATOR,
    ensures
        sync_root_accepted(path, Some(home), Some(home)),
        sync_root_accepted(path, Some(joined(home, name)), Some(home)),
{
    law_within_means_more_components(home, home);
    law_join_stays_within(home, name);
}

/// A folder that may be synced has all components of the home directory in front; a folder that is
/// named by a relative path, or does not exist, may not, and without a home directory none may.
pub proof fn law_other_folders_are_refused(
    path: Seq<char>,
    canonical: Option<Seq<u8>>,
    home: Option<Seq<u8>>,
)
    ensures
        sync_root_accepted(path, canonical, home) ==> canonical is Some && home is Some && exists|
            rest: Seq<Seq<u8>>,
        |
            components(canonical->0) == #[trigger] (components(home->0) + rest),
        path.len() == 0 || path[0] != '/' ==> !sync_root_accepted(path, canonical, home),
        !sync_root_accepted(path, None, home),
        !sync_root_accepted(path, canonical, None),
{
    if canonical is Some && home is Some {
        law_within_means_more_components(canonical->0, home->0);
    }
}

/// Sync commands are taken from pages of the scheme `tauri` on the host of the shell, and from no
/// others.
pub proof fn law_sync_commands_come_from_the_shell(url: UrlView)
    ensures
        sync_origin(url) <==> url.scheme == "tauri"@ && (url.host == Some("localhost"@) || url.host
            == Some("tauri.localhost"@)),
{
}

/// The selected folder is what the file holds, without the white space around it; a blank file
/// selects none.
pub proof fn law_selection_loses_its_white_space(
    front: Seq<char>,
    path: Seq<char>,
    back: Seq<char>,
    blank: Seq<char>,
)
    requires
        forall|i: int| 0 <= i < front.len() ==> is_white(#[trigger] front[i]),
        forall|i: int| 0 <= i < back.len() ==> is_white(#[trigger] back[i]),
        forall|i: int| 0 <= i < blank.len() ==> is_white(#[trigger] blank[i]),
        path.len() > 0,
        !is_white(path.first()) && !is_white(path.last()),
    ensures
        selected_root(Some(front + path + back)) == Some(path),
        selected_root(Some(blank)) is None,
        selected_root(None) is None,
{
    let none = Seq::<char>::empty();
    law_trimming_leaves_the_middle(front, path, back, CharClass::White);
    law_trimming_leaves_the_middle(blank, none, none, CharClass::White);
    assert(blank + none + none =~= blank);
}

} // verus!
