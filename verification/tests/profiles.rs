use std::path::Path;
use steam_controller_x::profiles::{
    active_marker_file_name, active_profile_name, profile_file_name, profile_names,
};

#[test]
fn profile_file_names() {
    assert_eq!(profile_file_name("Default"), "Default.toml");
    assert_eq!(profile_file_name("a.b"), "a.b.toml");
    assert_eq!(active_marker_file_name(), ".active");
}

#[test]
fn listing_keeps_toml_stems_sorted() {
    let files: Vec<String> = ["zeta.toml", ".active", "Alpha.toml", "notes.txt", ".toml", "a.b.toml", "beta.toml", "toml"]
        .iter()
        .map(|s| s.to_string())
        .collect();
    assert_eq!(profile_names(&files), vec!["Alpha", "a.b", "beta", "zeta"]);
}

#[test]
fn saved_profile_is_listed() {
    for name in ["Default", "x", "..", "a.toml"] {
        let files = vec![profile_file_name(name)];
        assert_eq!(profile_names(&files), vec![name.to_string()]);
    }
    assert!(profile_names(&vec![profile_file_name("")]).is_empty());
}

#[test]
fn listing_agrees_with_path_rules() {

    let names = ["a.toml", ".toml", "..toml", "b.tom", "c.toml.toml", "é.toml", "d."];
    for n in names {
        let p = Path::new(n);
        let expected: Vec<String> = if p.extension().and_then(|e| e.to_str()) == Some("toml") {
            vec![p.file_stem().unwrap().to_str().unwrap().to_string()]
        } else {
            vec![]
        };
        assert_eq!(profile_names(&vec![n.to_string()]), expected, "file {n:?}");
    }
}

#[test]
fn active_marker_is_trimmed() {
    assert_eq!(active_profile_name("  Racing\n"), Some("Racing".to_string()));
    assert_eq!(active_profile_name(" \n\t"), None);
    assert_eq!(active_profile_name(""), None);
}

#[test]
fn duplicate_names_are_kept() {
    let files = vec!["b.toml".to_string(), "a.toml".to_string(), "b.toml".to_string()];
    assert_eq!(profile_names(&files), vec!["a", "b", "b"]);
}
