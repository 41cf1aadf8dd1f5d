use code_upload::files::{classify, file_kind, split_file_name, target_dir_parts, FileKind};

fn split(name: &str) -> Option<(String, String)> {
    split_file_name(name)
}

fn parts(stem: &str, extension: &str) -> Option<(String, String)> {
    Some((stem.to_string(), extension.to_string()))
}

#[test]
fn target_directly_under_the_root() {
    assert_eq!(target_dir_parts("/project", None, "dist"), vec!["/project", "dist"]);
}

#[test]
fn target_under_the_build_subdirectory() {
    assert_eq!(
        target_dir_parts("/project", Some("target/out"), "dist"),
        vec!["/project", "target/out", "dist"]
    );
}

#[test]
fn target_parts_join_to_the_directory() {
    let root = std::path::Path::new("/project");
    let build = std::path::Path::new("build");
    let target = std::path::Path::new("pkg");
    let with: std::path::PathBuf = target_dir_parts(root, Some(build), target).into_iter().collect();
    assert_eq!(with, root.join(build).join(target));
    let without: std::path::PathBuf = target_dir_parts(root, None, target).into_iter().collect();
    assert_eq!(without, root.join(target));
    let absolute = std::path::Path::new("/elsewhere");
    let moved: std::path::PathBuf =
        target_dir_parts(root, Some(build), absolute).into_iter().collect();
    assert_eq!(moved, root.join(build).join(absolute));
}

#[test]
fn split_of_the_parent_directory_name() {
    assert_eq!(split(".."), None);
    assert_eq!(split("..."), parts("..", ""));
}

#[test]
fn split_plain_name() {
    assert_eq!(split("main.js"), parts("main", "js"));
    assert_eq!(split("compiled.wasm"), parts("compiled", "wasm"));
}

#[test]
fn split_takes_the_last_dot() {
    assert_eq!(split("a.b.js"), parts("a.b", "js"));
    assert_eq!(split("archive.tar.gz"), parts("archive.tar", "gz"));
}

#[test]
fn split_without_dot_has_no_extension() {
    assert_eq!(split("Makefile"), None);
    assert_eq!(split("wasm"), None);
    assert_eq!(split(""), None);
}

#[test]
fn split_with_only_a_leading_dot_has_no_extension() {
    assert_eq!(split(".js"), None);
    assert_eq!(split(".gitignore"), None);
    assert_eq!(split("."), None);
}

#[test]
fn split_with_trailing_dot_has_empty_extension() {
    assert_eq!(split("main."), parts("main", ""));
}

#[test]
fn split_with_leading_and_later_dot() {
    assert_eq!(split(".hidden.js"), parts(".hidden", "js"));
    assert_eq!(split("..js"), parts(".", "js"));
}

#[test]
fn split_counts_characters_not_bytes() {
    assert_eq!(split("h\u{e9}llo.js"), parts("h\u{e9}llo", "js"));
    assert_eq!(split("\u{1F600}.w\u{e4}sm"), parts("\u{1F600}", "w\u{e4}sm"));
}

#[test]
fn kind_of_the_two_extensions() {
    assert_eq!(file_kind("js"), Some(FileKind::Script));
    assert_eq!(file_kind("wasm"), Some(FileKind::Binary));
}

#[test]
fn kind_of_other_extensions() {
    assert_eq!(file_kind(""), None);
    assert_eq!(file_kind("JS"), None);
    assert_eq!(file_kind("Wasm"), None);
    assert_eq!(file_kind("jsx"), None);
    assert_eq!(file_kind("j"), None);
    assert_eq!(file_kind("wasm2"), None);
    assert_eq!(file_kind("map"), None);
    assert_eq!(file_kind("ts"), None);
}

#[test]
fn classify_accepts_scripts_and_binaries() {
    assert_eq!(classify("main.js"), Some(("main".to_string(), FileKind::Script)));
    assert_eq!(classify("main.wasm"), Some(("main".to_string(), FileKind::Binary)));
    assert_eq!(classify("a.b.wasm"), Some(("a.b".to_string(), FileKind::Binary)));
}

#[test]
fn classify_skips_everything_else() {
    assert_eq!(classify("README.md"), None);
    assert_eq!(classify("main.js.map"), None);
    assert_eq!(classify("main.JS"), None);
    assert_eq!(classify("js"), None);
    assert_eq!(classify(".js"), None);
    assert_eq!(classify(".wasm"), None);
    assert_eq!(classify("main."), None);
    assert_eq!(classify(""), None);
}
