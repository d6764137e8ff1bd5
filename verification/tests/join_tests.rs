use cygwin_fs::CygRoot;

fn cygwin() -> CygRoot {
    CygRoot::from(String::from("F:\\cygwin"), true)
}

#[test]
fn joins_symlink_native_path_and_cygwin_relative_target() {
    let cygroot = cygwin();
    let win32_s =
        cygroot.join_symlink_native_path_and_cygwin_target("C:\\dir1\\symlink", "a/bb/ccc");
    assert_eq!(win32_s, "C:\\dir1\\a\\bb\\ccc");
}

#[test]
fn joins_symlink_native_path_and_cygwin_absolute_target() {
    let cygroot = cygwin();
    let win32_s =
        cygroot.join_symlink_native_path_and_cygwin_target("C:\\dir1\\symlink", "/a/bb/ccc");
    assert_eq!(win32_s, "F:\\cygwin\\a\\bb\\ccc");
}

#[test]
fn joins_symlink_native_path_and_cygwin_absolute_cygdrive_target() {
    let cygroot = cygwin();
    let win32_s = cygroot
        .join_symlink_native_path_and_cygwin_target("C:\\dir1\\symlink", "/cygdrive/a/bb/ccc");
    assert_eq!(win32_s, "A:\\bb\\ccc");
}

#[test]
fn joins_symlink_empty_native_path_and_cygwin_absolute_target() {
    let cygroot = cygwin();
    let win32_s = cygroot.join_symlink_native_path_and_cygwin_target("", "/a/bb/ccc");
    assert_eq!(win32_s, "F:\\cygwin\\a\\bb\\ccc");
}

#[test]
fn joins_symlink_empty_native_path_and_cygwin_relative_target() {
    let cygroot = cygwin();
    let win32_s = cygroot.join_symlink_native_path_and_cygwin_target("", "a/bb/ccc");
    assert_eq!(win32_s, "a\\bb\\ccc");
}

#[test]
fn joins_bare_filename_without_parent() {
    let cygroot = cygwin();
    let win32_s = cygroot.join_symlink_native_path_and_cygwin_target("symlink", "a/b");
    assert_eq!(win32_s, "a\\b");
}

#[test]
fn joins_at_drive_root() {
    let cygroot = cygwin();
    let win32_s = cygroot.join_symlink_native_path_and_cygwin_target("C:\\symlink", "dest");
    assert_eq!(win32_s, "C:\\dest");
}

#[test]
fn join_keeps_dot_dot_segments_verbatim() {
    // Deliberately preserved limitation: `..` segments are not collapsed
    // and a cygdrive prefix reached through them is not re-detected.
    let cygroot = cygwin();
    let win32_s =
        cygroot.join_symlink_native_path_and_cygwin_target("C:\\dir1\\symlink", "../../target");
    assert_eq!(win32_s, "C:\\dir1\\..\\..\\target");
}
