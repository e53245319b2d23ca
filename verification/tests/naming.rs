use std::path::Path;

use pdfix::naming::{
    basename_in, basename_of, log_path_for, log_path_in, output_path_for, output_path_in, rename_target,
    rename_target_in, temp_target, temp_target_in,
};
use pdfix::path::{native_style, parent_len, PathStyle};

#[test]
fn output_path_for_replaces_extension() {
    let out = output_path_for("/tmp/foo.pdf");
    assert!(out.ends_with("foo_rs.pdf"));
}

#[test]
fn output_path_for_no_extension_defaults_to_pdf() {
    let out = output_path_for("/tmp/foo");
    assert!(out.ends_with("foo_rs.pdf"));
}

#[test]
fn output_path_for_no_parent() {
    let out = output_path_for("foo.pdf");
    assert_eq!(out, "foo_rs.pdf");
}

#[test]
fn basename_of_handles_separators() {
    assert_eq!(basename_of("/tmp/foo.pdf"), "foo.pdf");
    assert_eq!(basename_of("/a/b/c/foo.pdf"), "foo.pdf");
    assert_eq!(basename_of("foo.pdf"), "foo.pdf");

    // Native Windows backslash paths only round-trip on Windows.
    if std::path::MAIN_SEPARATOR == '\\' {
        assert_eq!(basename_of(r"C:\tmp\foo.pdf"), "foo.pdf");
        assert_eq!(basename_of(r"D:\dir\subdir\file.pdf"), "file.pdf");
    }
}

#[test]
fn rename_target_appends_suffix() {
    let p = rename_target("/dir/foo.pdf", "_old").unwrap();
    let p = Path::new(&p);
    assert!(p.ends_with("foo_old.pdf"));
    let parent = p.parent().unwrap();
    assert!(parent.ends_with("dir"));

    if std::path::MAIN_SEPARATOR == '\\' {
        let p = rename_target(r"C:\dir\foo.pdf", "_old").unwrap();
        let p = Path::new(&p);
        assert!(p.ends_with("foo_old.pdf"));
        let parent = p.parent().unwrap();
        assert!(parent.ends_with("dir"));
    }
}

#[test]
fn rename_target_no_extension_defaults_to_pdf() {
    let p = rename_target("/dir/foo", "_old").unwrap();
    assert!(Path::new(&p).ends_with("foo_old.pdf"));
}

#[test]
fn temp_target_uses_hidden_form() {
    let p = temp_target("/dir/foo.pdf").unwrap();
    let name = Path::new(&p).file_name().unwrap().to_string_lossy().into_owned();
    assert_eq!(name, ".foo.pdf.converting");
}

#[test]
fn log_path_for_swaps_extension_to_txt() {
    let p = log_path_for("/dir/foo.pdf");
    assert!(Path::new(&p).ends_with("foo.txt"));
}

#[test]
fn naming_exact_values() {
    assert_eq!(output_path_for("/tmp/foo.pdf"), "/tmp/foo_rs.pdf");
    assert_eq!(output_path_for("/"), "output_rs.pdf");
    assert_eq!(output_path_for("/tmp/archive.tar.gz"), "/tmp/archive.tar_rs.gz");
    assert_eq!(output_path_for("/tmp/.hidden"), "/tmp/.hidden_rs.pdf");
    assert_eq!(log_path_for("/dir/foo.pdf"), "/dir/foo.txt");
    assert_eq!(log_path_for("/dir/"), "/dir.txt");
    assert_eq!(rename_target("/dir/foo.pdf", ".pdfix-bak").unwrap(), "/dir/foo.pdfix-bak.pdf");
    assert_eq!(temp_target("/dir/foo.pdf").unwrap(), "/dir/.foo.pdf.converting");
    assert_eq!(basename_of("/"), "/");
}

#[test]
fn naming_refuses_paths_without_file_name() {
    assert_eq!(rename_target("/", "_old"), Err("invalid filename".to_string()));
    assert_eq!(rename_target("a/..", "_old"), Err("invalid filename".to_string()));
    assert_eq!(temp_target(""), Err("invalid filename".to_string()));
}

// Each name computed with std::path, for comparison.
fn std_output_path_for(input: &str) -> String {
    let p = Path::new(input);
    let stem = p.file_stem().and_then(|s| s.to_str()).unwrap_or("output");
    let ext = p.extension().and_then(|s| s.to_str()).unwrap_or("pdf");
    let parent = p.parent().unwrap_or(Path::new(""));
    parent.join(format!("{stem}_rs.{ext}")).to_string_lossy().into_owned()
}

fn std_log_path_for(input: &str) -> String {
    let p = Path::new(input);
    let parent = p.parent().unwrap_or(Path::new(""));
    let stem = p.file_stem().and_then(|s| s.to_str()).unwrap_or("output");
    parent.join(format!("{stem}.txt")).to_string_lossy().into_owned()
}

fn std_rename_target(input: &str, suffix: &str) -> Result<String, String> {
    let p = Path::new(input);
    let parent = p.parent().unwrap_or(Path::new(""));
    let stem = p.file_stem().and_then(|s| s.to_str()).ok_or_else(|| "invalid filename".to_string())?;
    let ext = p.extension().and_then(|s| s.to_str()).unwrap_or("pdf");
    Ok(parent.join(format!("{stem}{suffix}.{ext}")).to_string_lossy().into_owned())
}

fn std_temp_target(input: &str) -> Result<String, String> {
    let p = Path::new(input);
    let parent = p.parent().unwrap_or(Path::new(""));
    let name = p.file_name().and_then(|s| s.to_str()).ok_or_else(|| "invalid filename".to_string())?;
    Ok(parent.join(format!(".{name}.converting")).to_string_lossy().into_owned())
}

fn std_basename_of(path: &str) -> String {
    Path::new(path).file_name().and_then(|s| s.to_str()).unwrap_or(path).to_string()
}

const TRICKY: &[&str] = &[
    "", "/", "//", "///", ".", "./", ".//", "..", "../", "a", "a/", "a//", "/a", "/a/", "//a",
    "a/b", "a//b", "a/./b", "a/b/.", "a/b/..", "./a", ".//a", "/./a", "/.", "a/.", "./.", "/..",
    "a/b/./", "a/b/.//./", "foo.tar.gz", ".bashrc", "dir/.bashrc", "foo.", "foo..", "..a", "a..",
    "...", ".a.b", "/tmp//x/foo.pdf", "///a///b///", "a/../b.pdf", "x/.hidden.pdf", "é/ü.pdf",
    "/home/user/My Docs/plan v2.final.pdf", "./../x.pdf", "/.hidden", "/a/.", "C:\\dir\\foo.pdf",
];

#[test]
fn naming_agrees_with_std_path() {
    for p in TRICKY {
        assert_eq!(output_path_for(p), std_output_path_for(p), "output_path_for({p:?})");
        assert_eq!(log_path_for(p), std_log_path_for(p), "log_path_for({p:?})");
        assert_eq!(rename_target(p, "_old"), std_rename_target(p, "_old"), "rename_target({p:?})");
        assert_eq!(rename_target(p, "/x"), std_rename_target(p, "/x"), "rename_target({p:?})");
        assert_eq!(temp_target(p), std_temp_target(p), "temp_target({p:?})");
        assert_eq!(basename_of(p), std_basename_of(p), "basename_of({p:?})");
    }
}


#[test]
fn native_style_matches_the_platform() {
    let expected = if std::path::MAIN_SEPARATOR == '\\' { PathStyle::Windows } else { PathStyle::Posix };
    assert_eq!(native_style(), expected);
}

#[test]
fn windows_names() {
    let w = PathStyle::Windows;
    assert_eq!(basename_in(r"C:\tmp\foo.pdf", w), "foo.pdf");
    assert_eq!(basename_in(r"D:\dir\subdir\file.pdf", w), "file.pdf");
    assert_eq!(rename_target_in(r"C:\dir\foo.pdf", "_old", w).unwrap(), r"C:\dir\foo_old.pdf");
    assert_eq!(temp_target_in(r"C:\docs\a.pdf", w).unwrap(), r"C:\docs\.a.pdf.converting");
    assert_eq!(output_path_in(r"C:\docs\a.pdf", w), r"C:\docs\a_rs.pdf");
    assert_eq!(log_path_in("C:/a/b.pdf", w), r"C:/a\b.txt");
    assert_eq!(output_path_in("C:a.pdf", w), "C:a_rs.pdf");
    assert_eq!(output_path_in(r"\\server\share\x.pdf", w), r"\\server\share\x_rs.pdf");
    assert_eq!(output_path_in(r"\\?\C:\docs\a.pdf", w), r"\\?\C:\docs\a_rs.pdf");
    assert_eq!(output_path_in(r"\\.\COM1", w), "output_rs.pdf");
    assert_eq!(basename_in(r"\\?\C:\docs\a/b.pdf", w), "a/b.pdf");
    assert_eq!(basename_in(r"C:\", w), r"C:\");
    assert_eq!(basename_in("C:", w), "C:");
    assert_eq!(basename_in(r"a\..", w), r"a\..");
    assert_eq!(rename_target_in(r"C:\", "_old", w), Err("invalid filename".to_string()));
    assert_eq!(temp_target_in(r"\\server\share", w), Err("invalid filename".to_string()));
}

#[test]
fn unix_names_keep_backslashes() {
    let u = PathStyle::Posix;
    assert_eq!(basename_in(r"C:\tmp\foo.pdf", u), r"C:\tmp\foo.pdf");
    assert_eq!(temp_target_in(r"C:\docs\a.pdf", u).unwrap(), r".C:\docs\a.pdf.converting");
}

#[test]
fn windows_verbatim_names_are_rebuilt_from_components() {
    let w = PathStyle::Windows;
    assert_eq!(output_path_in(r"\\?\C:\docs\\sub\a.pdf", w), r"\\?\C:\docs\sub\a_rs.pdf");
    assert_eq!(output_path_in(r"\\?\C:\docs\x/y.pdf", w), r"\\?\C:\docs\x\y_rs.pdf");
    assert_eq!(output_path_in(r"\\?\C:\docs\../b.pdf", w), r"\\?\C:\b_rs.pdf");
    assert_eq!(output_path_in(r"\\?\C:/a.pdf", w), r"\\?\C:\a_rs.pdf");
    assert_eq!(log_path_in(r"\\?\UNC\srv\share\d\a.pdf", w), r"\\?\UNC\srv\share\d\a.txt");
    assert_eq!(temp_target_in(r"\\?\C:\docs\.\a.pdf", w).unwrap(), r"\\?\C:\docs\.\.a.pdf.converting");
}

#[test]
fn windows_names_that_leave_the_directory() {
    let w = PathStyle::Windows;
    // A file name that reads as a drive-relative path replaces the directory.
    assert_eq!(output_path_in(r"a\C:x.pdf", w), "C:x_rs.pdf");
    // A doubled separator after a server name: the joined name forms a share.
    assert_eq!(output_path_in(r"\\server\\x.pdf", w), r"\\server\x_rs.pdf");
}

#[test]
fn basename_of_its_own_result_is_unchanged() {
    for p in TRICKY {
        let b = basename_of(p);
        assert_eq!(basename_of(&b), b, "basename_of({p:?})");
        let u = basename_in(p, PathStyle::Posix);
        assert_eq!(basename_in(&u, PathStyle::Posix), u, "basename_in({p:?})");
    }
    let w = PathStyle::Windows;
    for p in [r"C:\tmp\foo.pdf", r"\\server\share\x.pdf", r"\\?\C:\docs\a.pdf", "C:", r"C:\", r"a\.."] {
        let b = basename_in(p, w);
        assert_eq!(basename_in(&b, w), b, "basename_in({p:?})");
    }
    // Where it fails under Windows rules: a name read as a path of its own.
    assert_eq!(basename_in(r"\\?\C:\a/b", w), "a/b");
    assert_eq!(basename_in("a/b", w), "b");
    assert_eq!(basename_in(r"a\C:x.pdf", w), "C:x.pdf");
    assert_eq!(basename_in("C:x.pdf", w), "x.pdf");
}

#[test]
fn windows_verbatim_prefixes_with_forward_slashes() {
    let w = PathStyle::Windows;
    // A forward slash among the first four characters: not verbatim.
    assert_eq!(basename_in(r"\\?/C:\x\a.pdf", w), "a.pdf");
    // After `\\?\`, a drive or `UNC` may be followed by either separator.
    assert_eq!(output_path_in(r"\\?\C:/a.pdf", w), r"\\?\C:\a_rs.pdf");
    assert_eq!(basename_in(r"\\?\UNC/srv\share\a.pdf", w), "a.pdf");
    assert_eq!(output_path_in(r"\\?\UNC/srv\share\a.pdf", w), r"\\?\UNC/srv\share\a_rs.pdf");
}

fn dir_in(p: &str, style: PathStyle) -> String {
    let v: Vec<char> = p.chars().collect();
    match parent_len(&v, style) {
        Some(k) => v[..k].iter().collect(),
        None => String::new(),
    }
}

#[test]
fn windows_outputs_stay_beside_the_input() {
    let w = PathStyle::Windows;
    for p in [r"C:\docs\a.pdf", "C:a.pdf", r"\\server\share\d\x.pdf", r"\\.\COM1\x.pdf", r"a\b\c.pdf", "a.pdf", r"C:\a.pdf"] {
        let dir = dir_in(p, w);
        for out in [output_path_in(p, w), log_path_in(p, w), temp_target_in(p, w).unwrap(), rename_target_in(p, "_old", w).unwrap()] {
            assert_eq!(dir_in(&out, w), dir, "{out:?} beside {p:?}");
        }
    }
}
