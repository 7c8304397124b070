use std::path::Path;

use codex_usage_tray::paths::{
    choose_codex_bin, codex_auth_path, codex_candidates, home_icon_dir, is_session_file, join_path,
};

#[test]
fn paths_join_like_std_joins_them() {
    for base in ["", "/", "/home/u", "/home/u/", "rel", "ä"] {
        for name in ["x", "a/b", "/abs"] {
            let expected = Path::new(base).join(name).to_string_lossy().into_owned();
            assert_eq!(join_path(base, name), expected, "{base:?} {name:?}");
        }
    }
}

#[test]
fn session_files_have_their_extension() {
    for name in [
        "a.jsonl", ".jsonl", "..jsonl", "a.json", "a.jsonl.bak", "jsonl", "a.JSONL", "x.y.jsonl", "",
        "a.jsonlx",
    ] {
        let expected = Path::new(name).extension().and_then(|s| s.to_str()) == Some("jsonl");
        assert_eq!(is_session_file(name), expected, "{name:?}");
    }
}

#[test]
fn the_login_is_looked_for() {
    assert_eq!(codex_auth_path(Some("/c"), Some("/h")), "/c/auth.json");
    assert_eq!(codex_auth_path(None, Some("/h")), "/h/.codex/auth.json");
    assert_eq!(codex_auth_path(None, None), "auth.json");
}

#[test]
fn the_icon_is_looked_for() {
    assert_eq!(
        home_icon_dir(Some("/h")),
        "/h/.local/share/icons/hicolor/scalable/apps"
    );
    assert_eq!(home_icon_dir(None), "/tmp/StatusBar-Codex-Linux-icons");
}

fn texts(list: &[&str]) -> Vec<String> {
    list.iter().map(|s| s.to_string()).collect()
}

#[test]
fn places_are_tried_in_order() {
    let found = codex_candidates(
        &texts(&["/bin", "/opt/bin/"]),
        Some("/h"),
        &texts(&["v18.1.0", "v20.0.0", "v18.2.0", "v20.0.0-rc"]),
    );
    assert_eq!(
        found,
        texts(&[
            "/bin/codex",
            "/opt/bin/codex",
            "/h/.local/bin/codex",
            "/h/.cargo/bin/codex",
            "/h/.nvm/versions/node/v20.0.0-rc/bin/codex",
            "/h/.nvm/versions/node/v20.0.0/bin/codex",
            "/h/.nvm/versions/node/v18.2.0/bin/codex",
            "/h/.nvm/versions/node/v18.1.0/bin/codex",
            "/usr/local/bin/codex",
            "/usr/bin/codex",
        ])
    );
    assert_eq!(
        codex_candidates(&Vec::new(), None, &texts(&["v1"])),
        texts(&["/usr/local/bin/codex", "/usr/bin/codex"])
    );
}

#[test]
fn the_first_place_that_is_there_counts() {
    let places = texts(&["/a/codex", "/b/codex"]);
    assert_eq!(choose_codex_bin(Some("/mine"), &places, &vec![true, true]), "/mine");
    assert_eq!(choose_codex_bin(Some(""), &places, &vec![false, true]), "/b/codex");
    assert_eq!(choose_codex_bin(None, &places, &vec![true, true]), "/a/codex");
    assert_eq!(choose_codex_bin(None, &places, &vec![false, false]), "codex");
}
