use heyday::watcher::{event_is_relevant, meaningful, path_is_relevant, ChangeKind, Debouncer};

fn root() -> Vec<String> {
    vec![
        "var".to_string(),
        "lib".to_string(),
        "pacman".to_string(),
        "local".to_string(),
    ]
}

fn under(extra: &[&str]) -> Vec<String> {
    let mut p = root();
    for c in extra {
        p.push(c.to_string());
    }
    p
}

#[test]
fn only_structural_kinds_are_meaningful() {
    assert!(meaningful(ChangeKind::CreateDir));
    assert!(meaningful(ChangeKind::RemoveDir));
    assert!(meaningful(ChangeKind::CreateFile));
    assert!(meaningful(ChangeKind::RemoveFile));
    assert!(meaningful(ChangeKind::Rename));
    assert!(!meaningful(ChangeKind::Other));
}

#[test]
fn directory_events_must_be_direct_children() {
    assert!(path_is_relevant(
        ChangeKind::CreateDir,
        &under(&["firefox-123.0-1"]),
        &root()
    ));
    assert!(!path_is_relevant(
        ChangeKind::CreateDir,
        &under(&["firefox-123.0-1", "sub"]),
        &root()
    ));
    assert!(!path_is_relevant(ChangeKind::RemoveDir, &root(), &root()));
}

#[test]
fn file_events_must_name_the_desc_file() {
    assert!(path_is_relevant(
        ChangeKind::CreateFile,
        &under(&["firefox-123.0-1", "desc"]),
        &root()
    ));
    assert!(!path_is_relevant(
        ChangeKind::RemoveFile,
        &under(&["firefox-123.0-1", "files"]),
        &root()
    ));
}

#[test]
fn renames_anywhere_under_the_root_count() {
    assert!(path_is_relevant(
        ChangeKind::Rename,
        &under(&["a", "b", "c"]),
        &root()
    ));
    let outside = vec!["tmp".to_string(), "x".to_string()];
    assert!(!path_is_relevant(ChangeKind::Rename, &outside, &root()));
}

#[test]
fn an_event_is_relevant_when_any_path_is() {
    let paths = vec![
        vec!["tmp".to_string()],
        under(&["zlib-1.3-1"]),
    ];
    assert!(event_is_relevant(ChangeKind::CreateDir, &paths, &root()));
    assert!(!event_is_relevant(ChangeKind::Other, &paths, &root()));
    let misses = vec![vec!["tmp".to_string()]];
    assert!(!event_is_relevant(ChangeKind::CreateDir, &misses, &root()));
}

#[test]
fn burst_inside_the_window_yields_one_signal() {
    let mut d = Debouncer::new(1200);
    let mut signals = 0;
    for t in [0u64, 100, 200, 300, 400] {
        if d.observe(t) {
            signals += 1;
        }
    }
    assert_eq!(signals, 1);
    // the sixth event, past the cooldown window, fires a second one
    assert!(d.observe(1200));
    // and re-arms the window from its own timestamp
    assert!(!d.observe(2399));
    assert!(d.observe(2400));
}
