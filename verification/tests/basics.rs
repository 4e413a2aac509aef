use proton_drive::downloads::{
    download_destination, download_destination_in, save_download, save_download_in, DOWNLOADS_DIR,
};
use proton_drive::letter_case::eq_ignore_ascii_case;
use proton_drive::numeral::{parse_u16, to_decimal};
use proton_drive::paths::{join_path, path_components, same_path, starts_with_path};
use proton_drive::text::{
    chars_of, contains, ends_with, eq_str, find, join_strings, split_at_char, starts_with,
    string_of,
};
use proton_drive::trimming::{is_white_space, trim};
use proton_drive::workers::{worker_support, WorkerSupport};
use std::path::{Path, PathBuf};

fn bytes(text: &str) -> Vec<u8> {
    text.as_bytes().to_vec()
}

fn text(bytes: &Vec<u8>) -> String {
    String::from_utf8(bytes.clone()).unwrap()
}

#[test]
fn white_space_is_that_of_unicode() {
    for code in 0u32..=0x10ffff {
        if let Some(c) = char::from_u32(code) {
            assert_eq!(is_white_space(c), c.is_whitespace(), "{:x}", code);
        }
    }
}

#[test]
fn text_is_trimmed_like_std_text() {
    for s in ["", " ", "a", " a ", "\t a b\u{2003}\n", "\u{feff}a", "\u{85}x\u{3000}"] {
        assert_eq!(trim(s), s.trim());
    }
}

#[test]
fn text_is_searched_like_std_text() {
    let texts = ["", "a", "ab", "aab", "abab", "é/é", "x?y", "/api", "a/api/b/api"];
    for s in texts {
        assert_eq!(string_of(&chars_of(s)), s);
        for p in texts {
            assert_eq!(eq_str(s, p), s == p);
            assert_eq!(starts_with(s, p), s.starts_with(p), "{} {}", s, p);
            assert_eq!(ends_with(s, p), s.ends_with(p), "{} {}", s, p);
            assert_eq!(contains(s, p), s.contains(p), "{} {}", s, p);
            let place = s.find(p).map(|at| s[..at].chars().count());
            assert_eq!(find(s, p), place, "{} {}", s, p);
        }
        for sep in ['/', '?', 'a', 'é'] {
            let ours = split_at_char(s, sep);
            let theirs: Vec<&str> = s.split(sep).collect();
            assert_eq!(ours, theirs);
            assert_eq!(join_strings(&ours, &sep.to_string()), s);
        }
    }
    assert_eq!(join_strings(&vec![], "&"), "");
}

#[test]
fn letters_are_matched_without_case() {
    assert!(eq_ignore_ascii_case("Set-Cookie", "set-cookie"));
    assert!(eq_ignore_ascii_case("SET-COOKIE", "set-cookie"));
    assert!(!eq_ignore_ascii_case("set-cookie2", "set-cookie"));
    assert!(!eq_ignore_ascii_case("É", "é"));
    assert!(eq_ignore_ascii_case("é", "é"));
}

#[test]
fn numerals_are_those_of_std() {
    for n in [0u64, 1, 9, 10, 99, 100, 37242, u64::MAX] {
        assert_eq!(to_decimal(n), n.to_string());
    }
    for s in [
        "", "+", "-", "0", "-0", "+0", "00", "65535", "65536", "+65535", "99999999999", "1a", "a1",
        " 1", "١", "++1", "0000065535",
    ] {
        assert_eq!(parse_u16(s), s.parse::<u16>().ok(), "{:?}", s);
    }
}

#[test]
fn paths_are_joined_and_compared_like_std_paths() {
    let paths = [
        "", "/", "//", ".", "..", "a", "a/", "./a", "a/.", "a/./b", "a//b", "a/b", "/a", "//a",
        "/a/", "/a/b", "/a/./b", "/a/../b", "/ab", "é/x", "/.", "a/..",
    ];
    for a in paths {
        let parts: Vec<String> = path_components(&bytes(a)).iter().map(text).collect();
        let expected: Vec<String> = Path::new(a)
            .components()
            .map(|c| c.as_os_str().to_str().unwrap().to_string())
            .collect();
        assert_eq!(parts, expected, "{:?}", a);
        for b in paths {
            let joined = join_path(&bytes(a), b.as_bytes());
            assert_eq!(text(&joined), Path::new(a).join(b).to_str().unwrap(), "{} {}", a, b);
            assert_eq!(
                starts_with_path(&bytes(a), &bytes(b)),
                Path::new(a).starts_with(b),
                "{} {}",
                a,
                b
            );
            assert_eq!(
                same_path(&bytes(a), &bytes(b)),
                PathBuf::from(a) == PathBuf::from(b),
                "{} {}",
                a,
                b
            );
        }
    }
}

#[test]
fn downloads_are_saved_in_the_downloads_folder() {
    assert_eq!(DOWNLOADS_DIR, "Downloads");
    let saved = save_download(Some(bytes("/home/u/Save")), "a.txt").unwrap();
    assert_eq!(text(&saved.dir), "/home/u/Save");
    assert_eq!(text(&saved.path), "/home/u/Save/a.txt");
    assert_eq!(saved.shown, "/home/u/Save/a.txt");
    let saved = save_download_in(None, Some(bytes("/home/u")), "b.txt").unwrap();
    assert_eq!(text(&saved.path), "/home/u/Downloads/b.txt");
    let broken = save_download_in(Some(vec![b'/', 0xff]), None, "b").unwrap();
    assert_eq!(broken.path, vec![b'/', 0xff, b'/', b'b']);
    assert_eq!(broken.shown, "/\u{fffd}/b");
    match save_download_in(None, None, "b.txt") {
        Ok(_) => panic!("accepted"),
        Err(e) => assert_eq!(e, "Unable to access download location"),
    }
    for (given, saved) in [
        ("/tmp/evil.txt", "/home/u/Save/evil.txt"),
        ("../evil.txt", "/home/u/Save/evil.txt"),
        ("sub/../x", "/home/u/Save/x"),
        ("a/b c", "/home/u/Save/a/b c"),
        ("sub/file.txt", "/home/u/Save/sub/file.txt"),
        ("./file.txt", "/home/u/Save/./file.txt"),
        ("a//b", "/home/u/Save/a//b"),
        ("...", "/home/u/Save/..."),
        ("é?", "/home/u/Save/é?"),
    ] {
        let d = save_download(Some(bytes("/home/u/Save")), given).unwrap();
        assert_eq!(d.shown, saved, "{}", given);
        assert!(Path::new(&d.shown).starts_with("/home/u/Save"));
        assert!(!d.shown.split('/').any(|piece| piece == ".."));
    }
    for given in ["", ".", "..", "a/", "/", "a/..", "../."] {
        match save_download(Some(bytes("/home/u/Save")), given) {
            Ok(_) => panic!("accepted {}", given),
            Err(e) => assert_eq!(e, "Unable to save download"),
        }
    }
    match save_download_in(None, None, "..") {
        Ok(_) => panic!("accepted"),
        Err(e) => assert_eq!(e, "Unable to access download location"),
    }
    let home = save_download(None, "c").unwrap();
    assert_eq!(Path::new(&home.shown).parent().unwrap().file_name().unwrap(), "Downloads");
}

#[test]
fn web_view_downloads_are_named_after_their_url() {
    let home = || Some(bytes("/home/u"));
    for (url, path) in [
        ("https://x.proton.me/a/b.zip?token=1", "/home/u/Downloads/b.zip"),
        ("https://x.proton.me/a/b.zip", "/home/u/Downloads/b.zip"),
        ("https://x.proton.me/", "/home/u/Downloads/"),
        ("https://x.proton.me/?a/b?c", "/home/u/Downloads/b"),
        ("data", "/home/u/Downloads/data"),
    ] {
        assert_eq!(text(&download_destination_in(home(), url).unwrap()), path, "{}", url);
    }
    assert_eq!(download_destination_in(None, "https://x/y"), None);
    for up in ["https://x/?a/..", "https://x/..", "..", "https://x/..?b"] {
        assert_eq!(download_destination_in(home(), up), None, "{}", up);
        assert_eq!(download_destination(up), None, "{}", up);
    }
    assert_eq!(
        text(&download_destination_in(home(), "https://x/...").unwrap()),
        "/home/u/Downloads/..."
    );
    let place = text(&download_destination("https://x/y.txt?z").unwrap());
    assert!(place.ends_with("/Downloads/y.txt"));
}

#[test]
fn workers_depend_on_the_package() {
    for kind in ["appimage", "aur"] {
        assert_eq!(worker_support(Some(kind)), WorkerSupport::Native);
    }
    for kind in ["rpm", "deb", "flatpak", "snap"] {
        assert_eq!(worker_support(Some(kind)), WorkerSupport::Disabled);
    }
    assert_eq!(worker_support(None), WorkerSupport::Disabled);
    assert_eq!(worker_support(Some("apk")), WorkerSupport::Blocked);
    assert_eq!(worker_support(Some("")), WorkerSupport::Blocked);
}
