use pinpoint::paths::{asset_candidate_name, editor_title, file_name, is_read_only_source, parent, starts_with};

#[test]
fn compose_title_uses_only_the_filename() {
    assert_eq!(editor_title("/run/user/1000/doc/opaque/deck/talk.pin"), "Compose Presentation — talk.pin");
}

/// The first free name, as the editor probes its asset folder.
fn available(existing: &[&str], filename: &str) -> String {
    if !existing.contains(&filename) {
        return filename.to_string();
    }
    let mut suffix = 2;
    loop {
        let candidate = asset_candidate_name(filename, suffix);
        if !existing.contains(&candidate.as_str()) {
            return candidate;
        }
        suffix += 1;
    }
}

#[test]
fn imported_assets_get_non_destructive_collision_names() {
    let existing = ["photo.png", "photo-2.png"];
    assert_eq!(available(&existing, "photo.png"), "photo-3.png");
}

#[test]
fn collision_names_follow_stem_and_extension() {
    assert_eq!(asset_candidate_name("archive.tar.gz", 2), "archive.tar-2.gz");
    assert_eq!(asset_candidate_name(".hidden", 4), ".hidden-4");
    assert_eq!(asset_candidate_name("noext", 2), "noext-2");
    assert_eq!(asset_candidate_name("trailing.", 2), "trailing-2.");
    assert_eq!(asset_candidate_name("..", 2), "asset-2");
}

#[test]
fn path_names_and_prefixes() {
    assert_eq!(file_name("/a/b/"), Some("b".to_string()));
    assert_eq!(file_name("/a/b/."), Some("b".to_string()));
    assert_eq!(file_name("/a/.."), None);
    assert_eq!(file_name("/"), None);
    assert_eq!(editor_title("/"), "Compose Presentation — Presentation");
    assert!(starts_with("/app//share/pinpoint/intro.pin", "/app/share/pinpoint"));
    assert!(!starts_with("/app/share/pinpointer", "/app/share/pinpoint"));
    assert!(!starts_with("app/share/pinpoint", "/app/share/pinpoint"));
    assert!(is_read_only_source("/app/share/pinpoint/introduction/introduction.pin"));
    assert!(!is_read_only_source("/home/me/talk.pin"));
}

#[test]
fn parents_follow_path_components() {
    assert_eq!(parent("/a//b/"), Some("/a".to_string()));
    assert_eq!(parent("a/b/c"), Some("a/b".to_string()));
    assert_eq!(parent("./a/b"), Some("./a".to_string()));
    assert_eq!(parent("."), Some(String::new()));
    assert_eq!(parent(""), None);
}
