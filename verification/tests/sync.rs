use proton_drive::device::{
    default_sync_device_name, machine_name_for_sync, sanitize_sync_device_name,
    DEFAULT_DEVICE_TYPE_LINUX, DEFAULT_REMOTE_SCOPE_COMPUTERS, MAX_DEVICE_NAME_CHARS,
};
use proton_drive::sync_command::{
    get_sync_device_name, launch_sync_root, launch_sync_root_in, plan_root_change, set_sync_root,
    start_selected_sync_root, start_sync, RootChange, RootCommand,
};
use proton_drive::sync_file::{
    read_sync_file, validate_sync_relative_path, FileFacts, RootsToResolve, SyncFileTarget,
    SyncFileToRead, MAX_SYNC_BRIDGE_FILE_BYTES,
};
use proton_drive::sync_root::{
    default_sync_root_in, default_sync_root_path, ensure_sync_command_allowed,
    persist_selected_sync_root, read_selected_sync_root, register_sync_root_metadata,
    sync_root_config_path, sync_root_within_home, validate_sync_root_path, DEFAULT_SYNC_ROOT_DIR,
    ERR_SYNC_NOT_ALLOWED, PRIVATE_FILE_MODE, SYNC_ROOT_CONFIG_FILE,
};
use proton_drive::web_url::Url;
use std::path::{Component, Path, PathBuf};

fn url(text: &str) -> Url {
    Url::parse(text).unwrap()
}

fn bytes(text: &str) -> Vec<u8> {
    text.as_bytes().to_vec()
}

fn some(text: &str) -> Option<Vec<u8>> {
    Some(bytes(text))
}

fn word(text: &str) -> Option<String> {
    Some(text.to_string())
}

#[test]
fn default_sync_root_is_home_protondrive() {
    let root = default_sync_root_path().unwrap();
    let root = PathBuf::from(String::from_utf8(root).unwrap());
    assert_eq!(
        root.file_name().and_then(|name| name.to_str()),
        Some("ProtonDrive")
    );
}

#[test]
fn device_folder_name_is_path_safe_and_bounded() {
    assert_eq!(
        sanitize_sync_device_name("dev box/../../bad"),
        "dev-box-..-..-bad"
    );
    assert_eq!(sanitize_sync_device_name("..."), "Linux-PC");
    assert_eq!(sanitize_sync_device_name(""), "Linux-PC");
    assert!(sanitize_sync_device_name(&"a".repeat(100)).len() <= 64);
}

#[test]
fn default_sync_device_metadata_uses_linux_computers_scope() {
    for (env, file) in [
        (None, None),
        (word("box"), None),
        (None, word("host\n")),
        (word(" "), word("...")),
    ] {
        let device_name = default_sync_device_name(env, file);
        assert_eq!(DEFAULT_REMOTE_SCOPE_COMPUTERS, "computers");
        assert_eq!(DEFAULT_DEVICE_TYPE_LINUX, "linux");
        assert!(!device_name.is_empty());
    }
}

#[test]
fn sync_relative_path_rejects_escape_and_absolute_paths() {
    assert_eq!(
        PathBuf::from(validate_sync_relative_path("nested/file.txt").unwrap()),
        PathBuf::from("nested/file.txt")
    );
    assert!(validate_sync_relative_path("../file.txt").is_err());
    assert!(validate_sync_relative_path("/tmp/file.txt").is_err());
    assert!(validate_sync_relative_path("").is_err());
}

fn cleaned_by_std(path: &str) -> Option<PathBuf> {
    let relative = Path::new(path);
    if relative.as_os_str().is_empty() || relative.is_absolute() {
        return None;
    }
    let mut clean = PathBuf::new();
    for component in relative.components() {
        match component {
            Component::Normal(part) => clean.push(part),
            _ => return None,
        }
    }
    if clean.as_os_str().is_empty() {
        None
    } else {
        Some(clean)
    }
}

#[test]
fn relative_paths_are_cleaned_like_std_paths() {
    let pieces = ["", ".", "..", "a", "b c", "...", "é", ".x"];
    let mut paths: Vec<String> = Vec::new();
    for a in pieces {
        paths.push(a.to_string());
        for b in pieces {
            paths.push(format!("{}/{}", a, b));
            for c in pieces {
                paths.push(format!("{}/{}/{}", a, b, c));
            }
        }
    }
    for path in paths {
        match (validate_sync_relative_path(&path), cleaned_by_std(&path)) {
            (Ok(ours), Some(theirs)) => {
                assert_eq!(ours, theirs.to_str().unwrap(), "{:?}", path);
                assert_eq!(validate_sync_relative_path(&ours).unwrap(), ours);
            }
            (Err(e), None) => assert_eq!(e, "Invalid sync path"),
            (ours, theirs) => panic!("{:?}: {:?} {:?}", path, ours, theirs),
        }
    }
}

#[test]
fn device_names_are_cleaned() {
    assert_eq!(sanitize_sync_device_name("  my laptop\n"), "my-laptop");
    assert_eq!(sanitize_sync_device_name("häuschen"), "h-uschen");
    assert_eq!(sanitize_sync_device_name("-_.box.-_"), "box");
    assert_eq!(sanitize_sync_device_name("a-b_c.D9"), "a-b_c.D9");
    assert_eq!(sanitize_sync_device_name("é"), "Linux-PC");
    let long = format!("{}-b", "a".repeat(63));
    assert_eq!(sanitize_sync_device_name(&long), format!("{}-", "a".repeat(63)));
    assert_eq!(MAX_DEVICE_NAME_CHARS, 64);
    assert_eq!(sanitize_sync_device_name(&"a".repeat(100)), "a".repeat(64));
}

#[test]
fn machine_name_comes_from_the_environment_first() {
    assert_eq!(machine_name_for_sync(word(" box "), word("file")), "box");
    assert_eq!(machine_name_for_sync(word("  "), word("file\n")), "file");
    assert_eq!(machine_name_for_sync(None, word("file\n")), "file");
    assert_eq!(machine_name_for_sync(None, word(" \n")), "Linux-PC");
    assert_eq!(machine_name_for_sync(word(""), None), "Linux-PC");
    assert_eq!(machine_name_for_sync(None, None), "Linux-PC");
    assert_eq!(default_sync_device_name(word("my box"), None), "my-box");
}

#[test]
fn sync_commands_come_from_the_shell() {
    for text in ["tauri://localhost/u/1/", "tauri://tauri.localhost/"] {
        assert_eq!(ensure_sync_command_allowed(Some(&url(text))), Ok(()));
    }
    for text in ["https://localhost/", "tauri://example/", "about:blank", "tauri:x"] {
        assert_eq!(
            ensure_sync_command_allowed(Some(&url(text))),
            Err(ERR_SYNC_NOT_ALLOWED.to_string()),
            "{}",
            text
        );
    }
    assert_eq!(
        ensure_sync_command_allowed(None),
        Err("Sync operation is not allowed in this context".to_string())
    );
}

#[test]
fn sync_roots_lie_within_home() {
    let home = || some("/home/user");
    let no = || Err("Invalid sync folder".to_string());
    for inside in ["/home/user/x", "/home/user"] {
        assert_eq!(sync_root_within_home(inside, some(inside), home()), Ok(bytes(inside)));
    }
    assert_eq!(
        sync_root_within_home("/home/link", some("/home/user/x"), home()),
        Ok(bytes("/home/user/x"))
    );
    for outside in ["/home/user2", "/home", "/", "/etc/x"] {
        assert_eq!(sync_root_within_home(outside, some(outside), home()), no());
    }
    for relative in ["docs", "./docs", "", "~/docs"] {
        assert_eq!(sync_root_within_home(relative, some("/home/user/docs"), home()), no());
    }
    assert_eq!(sync_root_within_home("/home/user/x", None, home()), no());
    assert_eq!(sync_root_within_home("/home/user", some("/home/user"), None), no());
}

#[test]
fn the_default_root_is_accepted() {
    let root = default_sync_root_path().unwrap();
    let text = String::from_utf8(root.clone()).unwrap();
    assert_eq!(validate_sync_root_path(&text, Some(root.clone())), Ok(root.clone()));
    assert_eq!(
        validate_sync_root_path("ProtonDrive", Some(root)),
        Err("Invalid sync folder".to_string())
    );
    assert_eq!(
        validate_sync_root_path(&text, None),
        Err("Invalid sync folder".to_string())
    );
    assert_eq!(
        validate_sync_root_path("/relative", some("relative")),
        Err("Invalid sync folder".to_string())
    );
    assert_eq!(default_sync_root_in(some("/home/u")), Ok(bytes("/home/u/ProtonDrive")));
    assert_eq!(default_sync_root_in(None), Err("Invalid sync folder".to_string()));
    assert_eq!(DEFAULT_SYNC_ROOT_DIR, "ProtonDrive");
}

#[test]
fn a_selected_root_is_read_back() {
    assert_eq!(SYNC_ROOT_CONFIG_FILE, "sync-root.txt");
    assert_eq!(PRIVATE_FILE_MODE, 0o600);
    assert_eq!(sync_root_config_path(&bytes("/data")), bytes("/data/sync-root.txt"));
    let file = persist_selected_sync_root(&bytes("/data/"), &bytes("/home/u/Dü x"));
    assert_eq!(file.path, bytes("/data/sync-root.txt"));
    assert_eq!(file.text, "/home/u/Dü x");
    assert_eq!(read_selected_sync_root(Some(file.text)).as_deref(), Some("/home/u/Dü x"));
    let broken = persist_selected_sync_root(&bytes("/data"), &vec![b'/', 0xff, b'x']);
    assert_eq!(broken.text, "/\u{fffd}x");
    assert_eq!(read_selected_sync_root(word(" /x \n")).as_deref(), Some("/x"));
    assert_eq!(read_selected_sync_root(word(" \n")), None);
    assert_eq!(read_selected_sync_root(None), None);
}

#[test]
fn a_root_is_listed_for_this_computer() {
    let entry = register_sync_root_metadata(&bytes("/home/u/x"), word("box 1"), None);
    assert_eq!(entry.local_path, bytes("/home/u/x"));
    assert_eq!(entry.device_name, "box-1");
    assert_eq!(entry.device_type, "linux");
    assert_eq!(entry.remote_scope, "computers");
}

fn plan(
    command: RootCommand,
    page: Option<&str>,
    root: Option<&str>,
    dir: Option<&str>,
) -> Result<RootChange, String> {
    plan_for(command, page, "/given", root, dir)
}

fn plan_for(
    command: RootCommand,
    page: Option<&str>,
    path: &str,
    root: Option<&str>,
    dir: Option<&str>,
) -> Result<RootChange, String> {
    let page = page.map(url);
    plan_root_change(
        command,
        page.as_ref(),
        path,
        root.map(bytes),
        some("/home/u"),
        dir.map(bytes),
        word("box"),
        None,
    )
}

fn refusal(r: Result<RootChange, String>) -> String {
    match r {
        Ok(_) => panic!("not refused"),
        Err(e) => e,
    }
}

#[test]
fn root_changes_are_planned() {
    let page = Some("tauri://localhost/");
    let change = plan(RootCommand::SetSyncRoot, page, Some("/home/u/x"), Some("/data")).unwrap();
    let save = change.save.unwrap();
    assert_eq!(save.data_dir, bytes("/data"));
    assert_eq!(save.file.path, bytes("/data/sync-root.txt"));
    assert_eq!(save.file.text, "/home/u/x");
    assert_eq!(change.entry.local_path, bytes("/home/u/x"));
    assert_eq!(change.entry.device_name, "box");
    assert_eq!(change.entry.device_type, "linux");
    assert_eq!(change.entry.remote_scope, "computers");
    assert_eq!(change.root, bytes("/home/u/x"));

    let change = plan(RootCommand::StartSync, page, Some("/home/u/x"), Some("/data")).unwrap();
    assert!(change.save.is_none());
    assert_eq!(change.root, bytes("/home/u/x"));
    let change = plan(RootCommand::StartSelected, None, Some("/home/u/y"), Some("/data")).unwrap();
    assert!(change.save.is_none());
    assert_eq!(change.root, bytes("/home/u/y"));
}

#[test]
fn root_changes_are_refused() {
    let page = Some("tauri://localhost/");
    for command in [RootCommand::StartSync, RootCommand::SetSyncRoot] {
        for foreign in [None, Some("https://example.com/")] {
            assert_eq!(
                refusal(plan(command, foreign, Some("/home/u/x"), Some("/data"))),
                ERR_SYNC_NOT_ALLOWED
            );
        }
        for root in [None, Some("/etc")] {
            assert_eq!(refusal(plan(command, page, root, None)), "Invalid sync folder");
        }
    }
    for command in [RootCommand::StartSync, RootCommand::SetSyncRoot, RootCommand::StartSelected] {
        assert_eq!(
            refusal(plan_for(command, page, "x", Some("/home/u/x"), Some("/data"))),
            "Invalid sync folder"
        );
    }
    assert_eq!(
        refusal(plan(RootCommand::SetSyncRoot, page, Some("/home/u"), None)),
        "Unable to save sync folder"
    );
    assert_eq!(
        refusal(plan(RootCommand::StartSync, page, Some("/home/u"), None)),
        "Unable to save sync metadata"
    );
    assert_eq!(
        refusal(plan(RootCommand::StartSelected, None, Some("/home/u"), None)),
        "Unable to save sync metadata"
    );
}

#[test]
fn sync_commands_use_the_home_of_the_user() {
    let root = default_sync_root_path().unwrap();
    let path = String::from_utf8(root.clone()).unwrap();
    let page = url("tauri://localhost/");
    let data = || some("/data");
    let started = start_sync(Some(&page), &path, Some(root.clone()), data(), None, None).unwrap();
    assert_eq!(started.root, root);
    assert!(started.save.is_none());
    let set = set_sync_root(Some(&page), &path, Some(root.clone()), data(), None, None).unwrap();
    assert_eq!(set.save.unwrap().file.text.as_bytes(), root.as_slice());
    let resumed = start_selected_sync_root(&path, Some(root.clone()), data(), None, None).unwrap();
    assert_eq!(resumed.entry.local_path, root);
    assert_eq!(resumed.entry.device_name, "Linux-PC");
    assert_eq!(
        refusal(start_sync(None, &path, Some(root.clone()), data(), None, None)),
        ERR_SYNC_NOT_ALLOWED
    );
    assert_eq!(
        refusal(start_selected_sync_root(&path, None, data(), None, None)),
        "Invalid sync folder"
    );
    assert_eq!(
        refusal(set_sync_root(Some(&page), &path, Some(root), None, None, None)),
        "Unable to save sync folder"
    );
}

#[test]
fn the_root_at_launch_is_chosen() {
    let given = launch_sync_root_in(word("/home/u/x"), some("/home/u")).unwrap();
    assert_eq!((given.path.as_str(), given.create), ("/home/u/x", None));
    let given = launch_sync_root(word("relative")).unwrap();
    assert_eq!((given.path.as_str(), given.create), ("relative", None));
    let default = launch_sync_root_in(None, some("/home/u")).unwrap();
    assert_eq!(default.path, "/home/u/ProtonDrive");
    assert_eq!(default.create, some("/home/u/ProtonDrive"));
    let broken = launch_sync_root_in(None, Some(vec![b'/', 0xff])).unwrap();
    assert_eq!(broken.path, "/\u{fffd}/ProtonDrive");
    assert_eq!(message(launch_sync_root_in(None, None)), "Invalid sync folder");
    let found = launch_sync_root(None).unwrap();
    assert_eq!(found.create, Some(default_sync_root_path().unwrap()));
}

#[test]
fn the_device_name_is_told_to_the_shell() {
    let page = url("tauri://localhost/");
    assert_eq!(
        get_sync_device_name(Some(&page), word("my box"), None),
        Ok("my-box".to_string())
    );
    assert_eq!(
        get_sync_device_name(None, word("my box"), None),
        Err(ERR_SYNC_NOT_ALLOWED.to_string())
    );
}

fn begin(relative: &str) -> RootsToResolve {
    read_sync_file(
        Some(&url("tauri://localhost/")),
        Ok(word("/home/u/x")),
        "/home/u/./x".to_string(),
        relative.to_string(),
    )
    .unwrap()
}

fn target(relative: &str) -> SyncFileTarget {
    begin(relative).resolved(some("/home/u/x"), some("/home/u/x")).unwrap()
}

fn facts(len: u64) -> Option<FileFacts> {
    Some(FileFacts { is_symlink: false, is_file: true, len, modified_ms: Some(5) })
}

fn to_read(relative: &str, len: u64) -> SyncFileToRead {
    target(relative).inspected(true, facts(len)).unwrap()
}

fn message<T>(r: Result<T, String>) -> String {
    match r {
        Ok(_) => panic!("no error"),
        Err(e) => e,
    }
}

#[test]
fn a_sync_file_is_read() {
    let roots = begin("a//b.txt");
    assert_eq!(roots.active_root, "/home/u/x");
    assert_eq!(roots.requested_root, "/home/u/./x");
    let target = roots.resolved(some("/home/u/x"), some("/home/u/x")).unwrap();
    assert_eq!(target.root, bytes("/home/u/x"));
    assert_eq!(target.relative, "a/b.txt");
    assert_eq!(target.path, bytes("/home/u/x/a/b.txt"));
    let file = target.inspected(true, facts(2)).unwrap();
    assert_eq!(file.path, bytes("/home/u/x/a/b.txt"));
    let payload = file.payload(Some(vec![0xfb, 0xff])).unwrap();
    assert_eq!(payload.relative_path, "a/b.txt");
    assert_eq!(payload.name, "b.txt");
    assert_eq!(payload.size, 2);
    assert_eq!(payload.modified_ms, Some(5));
    assert_eq!(payload.content_base64, "+/8=");
}

#[test]
fn sync_file_content_is_base64() {
    for (content, text) in [
        ("", ""),
        ("f", "Zg=="),
        ("fo", "Zm8="),
        ("foo", "Zm9v"),
        ("foobar", "Zm9vYmFy"),
    ] {
        let payload = to_read("x", 0).payload(some(content)).unwrap();
        assert_eq!(payload.content_base64, text);
    }
}

#[test]
fn sync_file_reading_is_refused() {
    let page = url("tauri://localhost/");
    let ask = |window: Option<&Url>, folder: Result<Option<String>, String>| {
        message(read_sync_file(window, folder, "/r".to_string(), "f".to_string()))
    };
    assert_eq!(ask(None, Ok(None)), ERR_SYNC_NOT_ALLOWED);
    assert_eq!(ask(Some(&url("https://x/")), Ok(word("/r"))), ERR_SYNC_NOT_ALLOWED);
    assert_eq!(ask(Some(&page), Ok(None)), "Live sync is not active");
    assert_eq!(ask(Some(&page), Err("broken".to_string())), "broken");

    let no = "Unable to read sync file";
    assert_eq!(message(begin("f").resolved(None, some("/r"))), no);
    assert_eq!(message(begin("f").resolved(some("/r"), None)), no);
    assert_eq!(message(begin("f").resolved(some("/r"), some("/s"))), no);
    assert_eq!(
        message(begin("../f").resolved(some("/r"), some("/r"))),
        "Invalid sync path"
    );
    assert_eq!(message(target("f").inspected(false, facts(1))), no);
    assert_eq!(message(target("f").inspected(true, None)), no);
    let link = FileFacts { is_symlink: true, is_file: true, len: 1, modified_ms: None };
    assert_eq!(message(target("f").inspected(true, Some(link))), no);
    let dir = FileFacts { is_symlink: false, is_file: false, len: 1, modified_ms: None };
    assert_eq!(message(target("f").inspected(true, Some(dir))), no);
    assert_eq!(MAX_SYNC_BRIDGE_FILE_BYTES, 100 * 1024 * 1024);
    assert_eq!(
        message(target("f").inspected(true, facts(MAX_SYNC_BRIDGE_FILE_BYTES + 1))),
        "Sync file is too large"
    );
    assert!(target("f").inspected(true, facts(MAX_SYNC_BRIDGE_FILE_BYTES)).is_ok());
    assert_eq!(message(to_read("f", 1).payload(None)), no);
}
