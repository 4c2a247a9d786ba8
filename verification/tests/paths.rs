use paperdock::links::{is_lab_file, open_in_zotero, open_url};
use paperdock::lookup::{
    env_ready, find_first, interpreter, resolve_worker, spots_for, Place, Spot, Wanted,
};
use paperdock::paths::file_name;
use std::path::Path;

const PATHS: [&str; 22] = [
    "", "/", "a", "a/", "/a/b", "/a/b/", "/a/b//", "a/.", "a/./", "a/..", "..", ".", "./a", "a//b",
    "/.a", "a.paperdock", "/x/lab.paperdock", "/x/.paperdock", "x..paperdock", "lab.paperdock/",
    "/x/lab.paperdock/..", "lab.Paperdock",
];

#[test]
fn the_last_part_of_a_path_is_what_std_says() {
    for p in PATHS {
        let expected = Path::new(p).file_name().and_then(|n| n.to_str());
        assert_eq!(file_name(p).as_deref(), expected, "{p}");
    }
}

#[test]
fn lab_files_are_told_by_their_extension() {
    for p in PATHS {
        let expected = Path::new(p).extension().and_then(|e| e.to_str()) == Some("paperdock");
        assert_eq!(is_lab_file(p), expected, "{p}");
    }
}

#[test]
fn items_are_selected_in_their_library() {
    assert_eq!(open_in_zotero("users/0", "ABC"), "zotero://select/library/items/ABC");
    assert_eq!(open_in_zotero("groups/12", "ABC"), "zotero://select/groups/12/items/ABC");
}

#[test]
fn only_the_web_is_opened() {
    assert_eq!(open_url("https://a.example"), Ok(()));
    assert_eq!(open_url("http://a.example"), Ok(()));
    for url in ["file:///etc/passwd", "HTTPS://a", "zotero://x", "", "http:/a"] {
        assert_eq!(open_url(url), Err("Refusing to open a non-web URL.".to_string()));
    }
}

#[test]
fn the_first_file_found_is_taken() {
    assert_eq!(find_first(&vec![]), None);
    assert_eq!(find_first(&vec![false, false]), None);
    assert_eq!(find_first(&vec![false, true, true]), Some(1));
    assert_eq!(resolve_worker(&vec![false, false, true]), 2);
    assert_eq!(resolve_worker(&vec![false, false, false]), 0);
    assert!(env_ready(&vec![false, true]));
    assert!(!env_ready(&vec![false, false]));
}

#[test]
fn the_engine_runs_on_what_was_found() {
    assert_eq!(interpreter(Some("/p/bin/python".to_string())), "/p/bin/python");
    assert_eq!(interpreter(None), "python3");
}

#[test]
fn files_are_looked_for_in_their_places() {
    let spot = |place, relative: &str| Spot { place, relative: relative.to_string() };
    assert_eq!(
        spots_for(Wanted::Worker),
        vec![
            spot(Place::WorkingDir, "../sidecar/paperdock_worker.py"),
            spot(Place::WorkingDir, "sidecar/paperdock_worker.py"),
            spot(Place::Resources, "paperdock_worker.py"),
        ]
    );
    assert_eq!(
        spots_for(Wanted::Python),
        vec![
            spot(Place::AppData, "pyenv/bin/python"),
            spot(Place::BesideWorker, ".venv/bin/python"),
        ]
    );
    assert_eq!(
        spots_for(Wanted::Uv),
        vec![
            spot(Place::Resources, "bin/uv"),
            spot(Place::WorkingDir, "src-tauri/bin/uv"),
            spot(Place::WorkingDir, "bin/uv"),
            spot(Place::CommandPath, "uv"),
        ]
    );
    assert_eq!(spots_for(Wanted::Requirements)[0], spot(Place::Resources, "requirements.lock"));
    assert_eq!(spots_for(Wanted::TeamConfig).len(), 3);
}
