use cygwin_fs::CygRoot;

fn cygwin() -> CygRoot {
    CygRoot::from(String::from("F:\\cygwin"), true)
}

#[test]
fn converts_absolute_posix_paths() {
    let cygroot = cygwin();
    let posix = String::from("/tmp");
    let win32_s = cygroot.convert_path_to_native(posix.as_str());
    assert_eq!(win32_s, "F:\\cygwin\\tmp");
}

#[test]
fn converts_absolute_posix_paths_several_levels_deep() {
    let cygroot = cygwin();
    let posix = String::from("/tmp/abc/def/ghi");
    let win32_s = cygroot.convert_path_to_native(posix.as_str());
    assert_eq!(win32_s, "F:\\cygwin\\tmp\\abc\\def\\ghi");
}

#[test]
fn converts_absolute_posix_dirs_several_levels_deep() {
    let cygroot = cygwin();
    let posix = String::from("/tmp/abc/def/ghi/");
    let win32_s = cygroot.convert_path_to_native(posix.as_str());
    assert_eq!(win32_s, "F:\\cygwin\\tmp\\abc\\def\\ghi");
}

#[test]
fn converts_absolute_cygdrive_paths() {
    let cygroot = cygwin();
    let posix = String::from("/cygdrive/f");
    let win32_s = cygroot.convert_path_to_native(posix.as_str());
    assert_eq!(win32_s, "F:\\");
}

#[test]
fn converts_absolute_cygdrive_paths_several_levels_deep() {
    let cygroot = cygwin();
    let posix = String::from("/cygdrive/f/a/bb/ccc");
    let win32_s = cygroot.convert_path_to_native(posix.as_str());
    assert_eq!(win32_s, "F:\\a\\bb\\ccc");
}

#[test]
fn converts_absolute_cygdrive_dirs_several_levels_deep() {
    let cygroot = cygwin();
    let posix = String::from("/cygdrive/f/a/bb/ccc/");
    let win32_s = cygroot.convert_path_to_native(posix.as_str());
    assert_eq!(win32_s, "F:\\a\\bb\\ccc");
}

#[test]
fn converts_cygdrive_with_upper_case_letter() {
    let cygroot = cygwin();
    assert_eq!(cygroot.convert_path_to_native("/cygdrive/F/x"), "F:\\x");
    assert_eq!(cygroot.convert_path_to_native("/cygdrive/a"), "A:\\");
    assert_eq!(cygroot.convert_path_to_native("/cygdrive/Z"), "Z:\\");
}

#[test]
fn converts_bare_cygdrive_root_with_trailing_separator() {
    let cygroot = cygwin();
    assert_eq!(cygroot.convert_path_to_native("/cygdrive/f/"), "F:\\");
}

#[test]
fn falls_through_on_invalid_cygdrive_letter() {
    let cygroot = cygwin();
    assert_eq!(
        cygroot.convert_path_to_native("/cygdrive/1/x"),
        "F:\\cygwin\\cygdrive\\1\\x"
    );
    assert_eq!(
        cygroot.convert_path_to_native("/cygdrive/ff"),
        "F:\\cygwin\\cygdrive\\ff"
    );
}

#[test]
fn converts_bare_slash_to_root_alone() {
    let cygroot = cygwin();
    assert_eq!(cygroot.convert_path_to_native("/"), "F:\\cygwin");
    assert_eq!(cygroot.convert_path_to_native("///"), "F:\\cygwin");
}

#[test]
fn converts_empty_path_to_empty() {
    let cygroot = cygwin();
    assert_eq!(cygroot.convert_path_to_native(""), "");
}

#[test]
fn converts_backslash_only_input_to_empty() {
    // A backslash-led input is not POSIX-absolute: no root is prefixed,
    // and separators alone carry no component.
    let cygroot = cygwin();
    assert_eq!(cygroot.convert_path_to_native("\\"), "");
    assert_eq!(cygroot.convert_path_to_native("\\a"), "a");
}

#[test]
fn collapses_separator_runs() {
    let cygroot = cygwin();
    assert_eq!(
        cygroot.convert_path_to_native("/tmp//abc///def"),
        "F:\\cygwin\\tmp\\abc\\def"
    );
    assert_eq!(
        cygroot.convert_path_to_native("/tmp\\abc/def"),
        "F:\\cygwin\\tmp\\abc\\def"
    );
}

#[test]
fn passthrough_input_is_idempotent() {
    let cygroot = cygwin();
    let once = cygroot.convert_path_to_native("C:\\dir1\\file");
    assert_eq!(once, "C:\\dir1\\file");
    let twice = cygroot.convert_path_to_native(once.as_str());
    assert_eq!(twice, once);
    let mixed = cygroot.convert_path_to_native("a/bb\\ccc");
    assert_eq!(mixed, "a\\bb\\ccc");
    assert_eq!(cygroot.convert_path_to_native(mixed.as_str()), mixed);
}

#[test]
fn trailing_separator_changes_nothing() {
    let cygroot = cygwin();
    assert_eq!(
        cygroot.convert_path_to_native("/a/b/"),
        cygroot.convert_path_to_native("/a/b")
    );
    assert_eq!(
        cygroot.convert_path_to_native("rel/x\\"),
        cygroot.convert_path_to_native("rel/x")
    );
    assert_eq!(
        cygroot.convert_path_to_native("/cygdrive/f\\"),
        cygroot.convert_path_to_native("/cygdrive/f")
    );
}

#[test]
fn converts_with_empty_root() {
    let cygroot = CygRoot::from(String::new(), true);
    assert_eq!(cygroot.convert_path_to_native("/tmp/a"), "tmp\\a");
}
