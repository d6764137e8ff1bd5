use cygwin_fs::{maybe_cygwin_symlink, CygRoot, FileEntry, FsSnapshot};

fn cygwin() -> CygRoot {
    CygRoot::from(String::from("F:\\cygwin"), true)
}

fn link_bytes(target: &str) -> Vec<u8> {
    let mut v: Vec<u8> = b"!<symlink>".to_vec();
    v.extend_from_slice(target.as_bytes());
    v
}

fn entry(path: &str, system_attribute: bool, contents: Vec<u8>) -> FileEntry {
    FileEntry { path: String::from(path), system_attribute, contents }
}

#[test]
fn probe_answers_the_system_attribute() {
    let fs = FsSnapshot {
        files: vec![
            entry("C:\\link", true, link_bytes("dest")),
            entry("C:\\plain", false, b"data".to_vec()),
        ],
    };
    assert!(maybe_cygwin_symlink(&fs, "C:\\link"));
    assert!(!maybe_cygwin_symlink(&fs, "C:\\plain"));
    assert!(!maybe_cygwin_symlink(&fs, "C:\\absent"));
}

#[test]
fn reads_symlink_contents_from_snapshot() {
    let cygroot = cygwin();
    let fs = FsSnapshot {
        files: vec![
            entry("C:\\link", true, link_bytes("/tmp/dest")),
            entry("C:\\plain", false, b"no marker here".to_vec()),
        ],
    };
    assert_eq!(
        cygroot.read_symlink_contents(&fs, "C:\\link"),
        Some(String::from("/tmp/dest"))
    );
    assert_eq!(cygroot.read_symlink_contents(&fs, "C:\\plain"), None);
    assert_eq!(cygroot.read_symlink_contents(&fs, "C:\\absent"), None);
}

#[test]
fn resolve_once_follows_one_hop() {
    let cygroot = cygwin();
    let fs = FsSnapshot {
        files: vec![entry("C:\\dir1\\link", true, link_bytes("a/bb"))],
    };
    assert_eq!(
        cygroot.resolve_symlink_once(&fs, "C:\\dir1\\link"),
        "C:\\dir1\\a\\bb"
    );
}

#[test]
fn resolve_once_returns_non_symlink_unchanged() {
    let cygroot = cygwin();
    let fs = FsSnapshot {
        files: vec![entry("C:\\plain", true, b"ordinary bytes".to_vec())],
    };
    assert_eq!(cygroot.resolve_symlink_once(&fs, "C:\\plain"), "C:\\plain");
    assert_eq!(cygroot.resolve_symlink_once(&fs, "C:\\absent"), "C:\\absent");
}

#[test]
fn resolver_follows_chain_of_three() {
    let cygroot = cygwin();
    let fs = FsSnapshot {
        files: vec![
            entry("C:\\a", true, link_bytes("b")),
            entry("C:\\b", true, link_bytes("c")),
            entry("C:\\c", true, link_bytes("final")),
        ],
    };
    assert_eq!(cygroot.resolve_symlink(&fs, "C:\\a"), "C:\\final");
}

#[test]
fn resolve_once_three_times_matches_full_resolution() {
    let cygroot = cygwin();
    let fs = FsSnapshot {
        files: vec![
            entry("C:\\a", true, link_bytes("b")),
            entry("C:\\b", true, link_bytes("c")),
            entry("C:\\c", true, link_bytes("final")),
        ],
    };
    let once = cygroot.resolve_symlink_once(&fs, "C:\\a");
    let twice = cygroot.resolve_symlink_once(&fs, once.as_str());
    let thrice = cygroot.resolve_symlink_once(&fs, twice.as_str());
    assert_eq!(once, "C:\\b");
    assert_eq!(twice, "C:\\c");
    assert_eq!(thrice, "C:\\final");
    assert_eq!(thrice, cygroot.resolve_symlink(&fs, "C:\\a"));
}

#[test]
fn resolver_follows_absolute_target_through_translation() {
    let cygroot = cygwin();
    let fs = FsSnapshot {
        files: vec![entry("C:\\dir1\\link", true, link_bytes("/tmp/dest"))],
    };
    assert_eq!(
        cygroot.resolve_symlink(&fs, "C:\\dir1\\link"),
        "F:\\cygwin\\tmp\\dest"
    );
}

#[test]
fn resolver_stops_at_unprobed_destination() {
    // The destination exists but its attribute bit is clear: the second
    // iteration probes it and stops without reading it.
    let cygroot = cygwin();
    let fs = FsSnapshot {
        files: vec![
            entry("C:\\a", true, link_bytes("b")),
            entry("C:\\b", false, link_bytes("c")),
        ],
    };
    assert_eq!(cygroot.resolve_symlink(&fs, "C:\\a"), "C:\\b");
}

#[test]
fn resolve_path_is_passthrough_when_inactive() {
    let cygroot = CygRoot::from(String::from("F:\\cygwin"), false);
    let fs = FsSnapshot { files: vec![entry("C:\\x", true, link_bytes("y"))] };
    assert_eq!(cygroot.resolve_path(&fs, "/tmp/abc"), "/tmp/abc");
    assert_eq!(cygroot.resolve_path(&fs, "C:\\x"), "C:\\x");
}

#[test]
fn resolve_path_returns_unprobed_native_path_unchanged() {
    let cygroot = cygwin();
    let fs = FsSnapshot { files: Vec::new() };
    assert_eq!(cygroot.resolve_path(&fs, "C:\\plain\\file"), "C:\\plain\\file");
}

#[test]
fn resolve_path_translates_and_resolves() {
    let cygroot = cygwin();
    let fs = FsSnapshot {
        files: vec![entry("F:\\cygwin\\tmp\\link", true, link_bytes("dest"))],
    };
    assert_eq!(
        cygroot.resolve_path(&fs, "/tmp/link"),
        "F:\\cygwin\\tmp\\dest"
    );
    assert_eq!(
        cygroot.resolve_path(&fs, "/tmp/other"),
        "F:\\cygwin\\tmp\\other"
    );
}

#[test]
fn new_context_is_inactive() {
    let cygroot = CygRoot::new();
    assert!(!cygroot.running_under_cygwin());
    assert_eq!(cygroot.root_path(), "");
    let fs = FsSnapshot { files: Vec::new() };
    assert_eq!(cygroot.resolve_path(&fs, "/tmp"), "/tmp");
}

#[test]
fn from_keeps_root_and_flag() {
    let cygroot = cygwin();
    assert!(cygroot.running_under_cygwin());
    assert_eq!(cygroot.root_path(), "F:\\cygwin");
}
