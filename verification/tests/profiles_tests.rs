use g13_nexus::profiles::{profile_file_name, profile_names, profile_of_file};

#[test]
fn file_name_of_profile() {
    assert_eq!(profile_file_name("gaming"), "gaming.json");
    assert_eq!(profile_file_name(""), ".json");
}

#[test]
fn json_files_are_profiles() {
    assert_eq!(profile_of_file("gaming.json"), Some("gaming".to_string()));
    assert_eq!(profile_of_file("a.json.json"), Some("a".to_string()));
    assert_eq!(profile_of_file("x.j.jsonson.json"), Some("x.json".to_string()));
}

#[test]
fn other_files_are_not_profiles() {
    assert_eq!(profile_of_file(".json"), None);
    assert_eq!(profile_of_file("notes.txt"), None);
    assert_eq!(profile_of_file("json"), None);
    assert_eq!(profile_of_file("gaming.JSON"), None);
    assert_eq!(profile_of_file("gaming.json.bak"), None);
}

#[test]
fn listing_keeps_directory_order() {
    let files = vec![
        "b.json".to_string(),
        "readme.md".to_string(),
        "a.json".to_string(),
        ".json".to_string(),
    ];
    assert_eq!(profile_names(&files), vec!["b".to_string(), "a".to_string()]);
}

#[test]
fn stored_profile_is_listed_under_its_name() {
    for name in ["default", "fps", "x.", "a.jso"] {
        let file = profile_file_name(name);
        assert_eq!(profile_names(&vec![file]), vec![name.to_string()]);
    }
}

#[test]
fn listing_can_repeat_a_name() {
    let files = vec!["a.json".to_string(), "a.json.json".to_string()];
    assert_eq!(profile_names(&files), vec!["a".to_string(), "a".to_string()]);
}
