use sugar_upload::paths::{extension, file_stem};

fn ext(path: &str) -> Option<String> {
    extension(path)
}

fn stem(path: &str) -> Option<String> {
    file_stem(path)
}

#[test]
fn plain_asset_paths() {
    assert_eq!(ext("assets/0.png"), Some("png".to_string()));
    assert_eq!(stem("assets/0.png"), Some("0".to_string()));
    assert_eq!(ext("12.json"), Some("json".to_string()));
    assert_eq!(stem("12.json"), Some("12".to_string()));
    assert_eq!(ext("/home/user/my.assets/7.mp4"), Some("mp4".to_string()));
    assert_eq!(stem("/home/user/my.assets/7.mp4"), Some("7".to_string()));
}

#[test]
fn only_the_last_dot_counts() {
    assert_eq!(ext("a/b.tar.gz"), Some("gz".to_string()));
    assert_eq!(stem("a/b.tar.gz"), Some("b.tar".to_string()));
    assert_eq!(ext("x..y"), Some("y".to_string()));
    assert_eq!(stem("x..y"), Some("x.".to_string()));
}

#[test]
fn names_without_an_extension() {
    assert_eq!(ext("assets/readme"), None);
    assert_eq!(stem("assets/readme"), Some("readme".to_string()));
    assert_eq!(ext("dir.d/readme"), None);
    assert_eq!(stem("dir.d/readme"), Some("readme".to_string()));
    assert_eq!(ext(".hidden"), None);
    assert_eq!(stem(".hidden"), Some(".hidden".to_string()));
    assert_eq!(ext("a/.hidden"), None);
}

#[test]
fn an_empty_extension() {
    assert_eq!(ext("name."), Some(String::new()));
    assert_eq!(stem("name."), Some("name".to_string()));
}

#[test]
fn hidden_files_with_an_extension() {
    assert_eq!(ext(".hidden.png"), Some("png".to_string()));
    assert_eq!(stem(".hidden.png"), Some(".hidden".to_string()));
}

#[test]
fn paths_without_a_file_name() {
    for path in ["", "assets/", "/", ".", "..", "a/.", "a/.."] {
        assert_eq!(ext(path), None, "{:?}", path);
        assert_eq!(stem(path), None, "{:?}", path);
    }
}

#[test]
fn characters_beyond_ascii() {
    assert_eq!(ext("bilder/grün.png"), Some("png".to_string()));
    assert_eq!(stem("bilder/grün.png"), Some("grün".to_string()));
    assert_eq!(ext("a/b.päng"), Some("päng".to_string()));
}

#[test]
fn the_rules_agree_with_the_standard_library_on_file_paths() {
    for path in [
        "assets/0.png",
        "0.json",
        "/abs/dir.with.dots/12.mp4",
        "a/b.tar.gz",
        "assets/readme",
        ".hidden",
        "a/.hidden",
        ".hidden.png",
        "name.",
        "x..y",
        "bilder/grün.png",
        "..",
        "a/..",
        "",
    ] {
        let std_path = std::path::Path::new(path);
        let std_ext = std_path.extension().and_then(|e| e.to_str()).map(String::from);
        let std_stem = std_path.file_stem().and_then(|s| s.to_str()).map(String::from);
        assert_eq!(extension(path), std_ext, "{:?}", path);
        assert_eq!(file_stem(path), std_stem, "{:?}", path);
    }
}
