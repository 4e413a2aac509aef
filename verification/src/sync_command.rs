//! The commands that change or tell what is being synced.

use crate::device::{default_sync_device_name, device_name, machine_name};
use crate::paths::{is_within, joined, SEPARATOR};
use crate::sync_root::{
    default_sync_root_in, ensure_sync_command_allowed, home_dir,
    law_folders_within_home_are_accepted, lossy_text, opt_bytes, persist_selected_sync_root,
    register_sync_root_metadata, sync_origin, sync_root_accepted, sync_root_within_home,
    text_from_bytes, ComputersRoot, PrivateFile, DEFAULT_SYNC_ROOT_DIR, ERR_SYNC_NOT_ALLOWED,
    SYNC_ROOT_CONFIG_FILE,
};
use crate::web_url::{opt_view, Url};
use vstd::prelude::*;
use vstd::utf8::encode_utf8;

verus! {

/// A command that makes a folder the synced one.
#[derive(Clone, Copy, Debug, PartialEq, Eq, Structural)]
pub enum RootCommand {
    /// A page asks to sync a folder for now.
    StartSync,
    /// A page asks to sync a folder from now on.
    SetSyncRoot,
    /// The shell itself resumes a folder.
    StartSelected,
}

/// The folder of the application's data could not be found.
pub open spec fn data_dir_error(command: RootCommand) -> Seq<char> {
    if command == RootCommand::SetSyncRoot {
        "Unable to save sync folder"@
    } else {
        "Unable to save sync metadata"@
    }
}

/// The choice of a folder, to be remembered.
pub struct SavedChoice {
    /// The directory that has to exist.
    pub data_dir: Vec<u8>,
    /// The file that goes into it.
    pub file: PrivateFile,
}

/// What it takes to make a folder the synced one, in this order: remember the choice, where that
/// is asked for; list the folder among the synced computers; watch the folder.
pub struct RootChange {
    pub save: Option<SavedChoice>,
    pub entry: ComputersRoot,
    pub root: Vec<u8>,
}

/// What an entry among the synced computers comes to.
pub ghost struct EntryView {
    pub local_path: Seq<u8>,
    pub device_name: Seq<char>,
    pub device_type: Seq<char>,
    pub remote_scope: Seq<char>,
}

/// What a change of the synced folder comes to.
pub ghost struct RootChangeView {
    /// The directory, the path and the content of the file that remembers the choice.
    pub save: Option<(Seq<u8>, Seq<u8>, Seq<char>)>,
    /// What is listed among the synced computers.
    pub entry: EntryView,
    /// The folder that is watched.
    pub root: Seq<u8>,
}

impl View for RootChange {
    type V = RootChangeView;

    open spec fn view(&self) -> RootChangeView {
        RootChangeView {
            save: match self.save {
                Some(choice) => Some((choice.data_dir@, choice.file.path@, choice.file.text@)),
                None => None,
            },
            entry: EntryView {
                local_path: self.entry.local_path@,
                device_name: self.entry.device_name@,
                device_type: self.entry.device_type@,
                remote_scope: self.entry.remote_scope@,
            },
            root: self.root@,
        }
    }
}

/// The view of a change or a refusal.
pub open spec fn change_view(r: Result<RootChange, String>) -> Result<RootChangeView, Seq<char>> {
    match r {
        Ok(change) => Ok(change@),
        Err(e) => Err(e@),
    }
}

/// The command is allowed on account of where it comes from.
pub open spec fn command_allowed(command: RootCommand, window_url: Option<&Url>) -> bool {
    command == RootCommand::StartSelected || (window_url is Some && sync_origin((*window_url->0)@))
}

/// What a command leads to, given whether it is allowed, the path that names the folder, its
/// canonical path, if it has one, the home directory, the data directory of the application and the
/// host name in the environment and in its file.
pub open spec fn root_change(
    command: RootCommand,
    allowed: bool,
    path: Seq<char>,
    canonical: Option<Seq<u8>>,
    home: Option<Seq<u8>>,
    data_dir: Option<Seq<u8>>,
    env: Option<Seq<char>>,
    file: Option<Seq<char>>,
) -> Result<RootChangeView, Seq<char>> {
    if !allowed {
        Err(ERR_SYNC_NOT_ALLOWED@)
    } else if !sync_root_accepted(path, canonical, home) {
        Err("Invalid sync folder"@)
    } else if data_dir is None {
        Err(data_dir_error(command))
    } else {
        let root = canonical->0;
        Ok(
            RootChangeView {
                save: if command == RootCommand::SetSyncRoot {
                    Some(
                        (
                            data_dir->0,
                            joined(data_dir->0, encode_utf8(SYNC_ROOT_CONFIG_FILE@)),
                            lossy_text(root),
                        ),
                    )
                } else {
                    None
                },
                entry: EntryView {
                    local_path: root,
                    device_name: device_name(machine_name(env, file)),
                    device_type: "linux"@,
                    remote_scope: "computers"@,
                },
                root,
            },
        )
    }
}

/// Plans a change of the synced folder.
pub fn plan_root_change(
    command: RootCommand,
    window_url: Option<&Url>,
    path: &str,
    canonical: Option<Vec<u8>>,
    home: Option<Vec<u8>>,
    data_dir: Option<Vec<u8>>,
    env: Option<String>,
    file: Option<String>,
) -> (r: Result<RootChange, String>)
    ensures
        change_view(r) == root_change(
            command,
            command_allowed(command, window_url),
            path@,
            opt_bytes(canonical),
            opt_bytes(home),
            opt_bytes(data_dir),
            opt_view(env),
            opt_view(file),
        ),
{
    if command != RootCommand::StartSelected {
        ensure_sync_command_allowed(window_url)?;
    }
    let root = sync_root_within_home(path, canonical, home)?;
    match data_dir {
        Some(data_dir) => {
            let entry = register_sync_root_metadata(&root, env, file);
            let save = if command == RootCommand::SetSyncRoot {
                let file = persist_selected_sync_root(&data_dir, &root);
                Some(SavedChoice { data_dir, file })
            } else {
                None
            };
            Ok(RootChange { save, entry, root })
        },
        None => {
            if command == RootCommand::SetSyncRoot {
                Err("Unable to save sync folder".to_string())
            } else {
                Err("Unable to save sync metadata".to_string())
            }
        },
    }
}

/// Plans to sync a folder for now, as a page asked, against the user's home directory.
pub fn start_sync(
    window_url: Option<&Url>,
    path: &str,
    canonical: Option<Vec<u8>>,
    data_dir: Option<Vec<u8>>,
    env: Option<String>,
    file: Option<String>,
) -> (r: Result<RootChange, String>)
    ensures
        exists|home: Option<Seq<u8>>|
            change_view(r) == #[trigger] root_change(
                RootCommand::StartSync,
                command_allowed(RootCommand::StartSync, window_url),
                path@,
                opt_bytes(canonical),
                home,
                opt_bytes(data_dir),
                opt_view(env),
                opt_view(file),
            ),
{
    let home = home_dir();
    let ghost known = opt_bytes(home);
    let r = plan_root_change(
        RootCommand::StartSync,
        window_url,
        path,
        canonical,
        home,
        data_dir,
        env,
        file,
    );
    assert(change_view(r) == root_change(
        RootCommand::StartSync,
        command_allowed(RootCommand::StartSync, window_url),
        path@,
        opt_bytes(canonical),
        known,
        opt_bytes(data_dir),
        opt_view(env),
        opt_view(file),
    ));
    r
}

/// Plans to sync a folder from now on, as a page asked, against the user's home directory.
pub fn set_sync_root(
    window_url: Option<&Url>,
    path: &str,
    canonical: Option<Vec<u8>>,
    data_dir: Option<Vec<u8>>,
    env: Option<String>,
    file: Option<String>,
) -> (r: Result<RootChange, String>)
    ensures
        exists|home: Option<Seq<u8>>|
            change_view(r) == #[trigger] root_change(
                RootCommand::SetSyncRoot,
                command_allowed(RootCommand::SetSyncRoot, window_url),
                path@,
                opt_bytes(canonical),
                home,
                opt_bytes(data_dir),
                opt_view(env),
                opt_view(file),
            ),
{
    let home = home_dir();
    let ghost known = opt_bytes(home);
    let r = plan_root_change(
        RootCommand::SetSyncRoot,
        window_url,
        path,
        canonical,
        home,
        data_dir,
        env,
        file,
    );
    assert(change_view(r) == root_change(
        RootCommand::SetSyncRoot,
        command_allowed(RootCommand::SetSyncRoot, window_url),
        path@,
        opt_bytes(canonical),
        known,
        opt_bytes(data_dir),
        opt_view(env),
        opt_view(file),
    ));
    r
}

/// Plans to resume a folder, against the user's home directory.
pub fn start_selected_sync_root(
    path: &str,
    canonical: Option<Vec<u8>>,
    data_dir: Option<Vec<u8>>,
    env: Option<String>,
    file: Option<String>,
) -> (r: Result<RootChange, String>)
    ensures
        exists|home: Option<Seq<u8>>|
            change_view(r) == #[trigger] root_change(
                RootCommand::StartSelected,
                true,
                path@,
                opt_bytes(canonical),
                home,
                opt_bytes(data_dir),
                opt_view(env),
                opt_view(file),
            ),
{
    let home = home_dir();
    let ghost known = opt_bytes(home);
    let r = plan_root_change(
        RootCommand::StartSelected,
        None,
        path,
        canonical,
        home,
        data_dir,
        env,
        file,
    );
    assert(change_view(r) == root_change(
        RootCommand::StartSelected,
        true,
        path@,
        opt_bytes(canonical),
        known,
        opt_bytes(data_dir),
        opt_view(env),
        opt_view(file),
    ));
    r
}

/// The folder that is synced when the shell starts.
pub struct LaunchRoot {
    /// The path that names it.
    pub path: String,
    /// The folder that has to be created first, if any.
    pub create: Option<Vec<u8>>,
}

/// What the choice of a folder at the start comes to: the path that names it, and the folder that
/// has to be created first.
pub open spec fn launch_view(r: Result<LaunchRoot, String>) -> Result<
    (Seq<char>, Option<Seq<u8>>),
    Seq<char>,
> {
    match r {
        Ok(root) => Ok((root.path@, opt_bytes(root.create))),
        Err(e) => Err(e@),
    }
}

/// The folder that is synced when the shell starts: the one that the environment names, or else the
/// default one in the home directory. A folder that was selected earlier makes no difference.
pub open spec fn launch_root(env_path: Option<Seq<char>>, home: Option<Seq<u8>>) -> Result<
    (Seq<char>, Option<Seq<u8>>),
    Seq<char>,
> {
    match (env_path, home) {
        (Some(path), _) => Ok((path, None)),
        (None, Some(base)) => {
            let root = joined(base, encode_utf8(DEFAULT_SYNC_ROOT_DIR@));
            Ok((lossy_text(root), Some(root)))
        },
        (None, None) => Err("Invalid sync folder"@),
    }
}

/// Chooses the folder that is synced when the shell starts, given the path in the environment and
/// the home directory.
pub fn launch_sync_root_in(env_path: Option<String>, home: Option<Vec<u8>>) -> (r: Result<
    LaunchRoot,
    String,
>)
    ensures
        launch_view(r) == launch_root(opt_view(env_path), opt_bytes(home)),
{
    match env_path {
        Some(path) => Ok(LaunchRoot { path, create: None }),
        None => {
            let root = default_sync_root_in(home)?;
            Ok(LaunchRoot { path: text_from_bytes(&root), create: Some(root) })
        },
    }
}

/// Chooses the folder that is synced when the shell starts, given the path in the environment, or
/// else in the user's home directory.
pub fn launch_sync_root(env_path: Option<String>) -> (r: Result<LaunchRoot, String>)
    ensures
        env_path matches Some(path) ==> launch_view(r) == Ok::<
            (Seq<char>, Option<Seq<u8>>),
            Seq<char>,
        >((path@, None)),
        exists|home: Option<Seq<u8>>|
            launch_view(r) == #[trigger] launch_root(opt_view(env_path), home),
{
    let home = home_dir();
    let ghost known = opt_bytes(home);
    let r = launch_sync_root_in(env_path, home);
    assert(launch_view(r) == launch_root(opt_view(env_path), known));
    r
}

/// The name of this computer, for a page of the shell itself.
pub fn get_sync_device_name(
    window_url: Option<&Url>,
    env: Option<String>,
    file: Option<String>,
) -> (r: Result<String, String>)
    ensures
        match r {
            Ok(name) => {
                &&& window_url is Some && sync_origin((*window_url->0)@)
                &&& name@ == device_name(machine_name(opt_view(env), opt_view(file)))
            },
            Err(e) => {
                &&& window_url is None || !sync_origin((*window_url->0)@)
                &&& e@ == ERR_SYNC_NOT_ALLOWED@
                &&& e@ == "Sync operation is not allowed in this context"@
            },
        },
{
    ensure_sync_command_allowed(window_url)?;
    Ok(default_sync_device_name(env, file))
}

/// Whatever the command, only a folder that is named by an absolute path and lies within the home
/// directory comes to be listed or watched, and it is one and the same folder.
pub proof fn law_only_folders_of_the_user_are_synced(
    command: RootCommand,
    allowed: bool,
    path: Seq<char>,
    canonical: Option<Seq<u8>>,
    home: Option<Seq<u8>>,
    data_dir: Option<Seq<u8>>,
    env: Option<Seq<char>>,
    file: Option<Seq<char>>,
)
    ensures
        root_change(command, allowed, path, canonical, home, data_dir, env, file) matches Ok(
            change,
        ) ==> {
            &&& path.len() > 0 && path[0] == '/'
            &&& home is Some && is_within(change.root, home->0)
            &&& change.entry.local_path == change.root
            &&& change.save matches Some(choice) ==> choice.2 == lossy_text(change.root)
        },
{
}

/// A command from anywhere but the shell's own pages changes nothing.
pub proof fn law_foreign_commands_change_nothing(
    command: RootCommand,
    window_url: Option<&Url>,
    path: Seq<char>,
    canonical: Option<Seq<u8>>,
    home: Option<Seq<u8>>,
    data_dir: Option<Seq<u8>>,
    env: Option<Seq<char>>,
    file: Option<Seq<char>>,
)
    requires
        command != RootCommand::StartSelected,
        window_url is None || !sync_origin((*window_url->0)@),
    ensures
        root_change(
            command,
            command_allowed(command, window_url),
            path,
            canonical,
            home,
            data_dir,
            env,
            file,
        ) == Err::<RootChangeView, Seq<char>>(ERR_SYNC_NOT_ALLOWED@),
{
}

/// A folder within the home directory, named by an absolute path, is synced as every allowed
/// command asks: it is watched and listed for this computer, and the choice is remembered exactly
/// if the command is to select the folder.
pub proof fn law_folders_of_the_user_are_synced(
    command: RootCommand,
    path: Seq<char>,
    home: Seq<u8>,
    name: Seq<u8>,
    data_dir: Seq<u8>,
    env: Option<Seq<char>>,
    file: Option<Seq<char>>,
)
    requires
        path.len() > 0 && path[0] == '/',
        home.len() > 0,
        name.len() == 0 || name[0] != SEPARATOR,
    ensures
        root_change(
            command,
            true,
            path,
            Some(joined(home, name)),
            Some(home),
            Some(data_dir),
            env,
            file,
        ) matches Ok(change) && {
            &&& change.root == joined(home, name)
            &&& change.entry.local_path == joined(home, name)
            &&& change.entry.device_name == device_name(machine_name(env, file))
            &&& change.entry.device_type == "linux"@
            &&& change.entry.remote_scope == "computers"@
            &&& command == RootCommand::SetSyncRoot ==> change.save == Some(
                (
                    data_dir,
                    joined(data_dir, encode_utf8("sync-root.txt"@)),
                    lossy_text(joined(home, name)),
                ),
            )
            &&& command != RootCommand::SetSyncRoot ==> change.save is None
        },
{
    law_folders_within_home_are_accepted(path, home, name);
}

/// A command that is not carried out tells why: it is not allowed, or the folder is not one to be
/// synced, or there is nowhere to remember it.
pub proof fn law_refusals_tell_why(
    command: RootCommand,
    path: Seq<char>,
    canonical: Option<Seq<u8>>,
    home: Option<Seq<u8>>,
    data_dir: Option<Seq<u8>>,
    env: Option<Seq<char>>,
    file: Option<Seq<char>>,
)
    ensures
        root_change(command, false, path, canonical, home, data_dir, env, file) == Err::<
            RootChangeView,
            Seq<char>,
        >("Sync operation is not allowed in this context"@),
        !sync_root_accepted(path, canonical, home) ==> root_change(
            command,
            true,
            path,
            canonical,
            home,
            data_dir,
            env,
            file,
        ) == Err::<RootChangeView, Seq<char>>("Invalid sync folder"@),
        sync_root_accepted(path, canonical, home) ==> root_change(
            command,
            true,
            path,
            canonical,
            home,
            None,
            env,
            file,
        ) == Err::<RootChangeView, Seq<char>>(
            if command == RootCommand::SetSyncRoot {
                "Unable to save sync folder"@
            } else {
                "Unable to save sync metadata"@
            },
        ),
{
}

/// The shell itself may always resume a folder; a page may give a command exactly if it is one of
/// the shell's own.
pub proof fn law_own_pages_give_commands(command: RootCommand, url: &Url)
    ensures
        command_allowed(RootCommand::StartSelected, None),
        command_allowed(RootCommand::StartSelected, Some(url)),
        command != RootCommand::StartSelected ==> !command_allowed(command, None),
        command != RootCommand::StartSelected ==> (command_allowed(command, Some(url))
            <==> url@.scheme == "tauri"@ && (url@.host == Some("localhost"@) || url@.host == Some(
            "tauri.localhost"@,
        ))),
{
}

/// At the start the folder in the environment is synced; without one, `ProtonDrive` in the home
/// directory, which is created first.
pub proof fn law_launch_takes_the_environment_first(
    path: Seq<char>,
    home: Option<Seq<u8>>,
    base: Seq<u8>,
)
    ensures
        launch_root(Some(path), home) == Ok::<(Seq<char>, Option<Seq<u8>>), Seq<char>>(
            (path, None),
        ),
        launch_root(None, Some(base)) == Ok::<(Seq<char>, Option<Seq<u8>>), Seq<char>>(
            (
                lossy_text(joined(base, encode_utf8("ProtonDrive"@))),
                Some(joined(base, encode_utf8("ProtonDrive"@))),
            ),
        ),
        launch_root(None, None) is Err,
{
}

} // verus!
