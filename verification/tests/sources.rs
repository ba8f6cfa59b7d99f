use minit::{
    check_sources, definition_paths, manages_collection_missing, root_password, should_set_root_password,
    SourceError,
};

#[test]
fn nothing_given_is_refused() {
    assert_eq!(check_sources(false, false, false), Err(SourceError::NothingGiven));
}

#[test]
fn file_and_directory_together_are_refused() {
    assert_eq!(check_sources(true, true, false), Err(SourceError::FileAndDirectory));
    assert_eq!(check_sources(true, true, true), Err(SourceError::FileAndDirectory));
}

#[test]
fn any_single_source_is_accepted() {
    assert_eq!(check_sources(true, false, false), Ok(()));
    assert_eq!(check_sources(false, true, false), Ok(()));
    assert_eq!(check_sources(false, false, true), Ok(()));
    assert_eq!(check_sources(true, false, true), Ok(()));
    assert_eq!(check_sources(false, true, true), Ok(()));
}

#[test]
fn file_comes_before_directory_files() {
    let paths = definition_paths(
        Some("one.toml".to_string()),
        Some(vec!["a.toml".to_string(), "b.toml".to_string()]),
    );
    assert_eq!(paths, vec!["one.toml".to_string(), "a.toml".to_string(), "b.toml".to_string()]);
}

#[test]
fn no_source_gives_no_paths() {
    assert!(definition_paths(None, None).is_empty());
    assert_eq!(definition_paths(None, Some(vec!["x.toml".to_string()])), vec!["x.toml".to_string()]);
    assert_eq!(definition_paths(Some("f.toml".to_string()), None), vec!["f.toml".to_string()]);
}

#[test]
fn manages_collection_is_created_only_when_absent() {
    let existing = vec!["users".to_string(), "manages".to_string()];
    assert!(!manages_collection_missing(&existing, &"manages".to_string()));
    assert!(manages_collection_missing(&existing, &"groups".to_string()));
    assert!(manages_collection_missing(&Vec::new(), &"manages".to_string()));
}

#[test]
fn root_password_only_when_given_and_not_empty() {
    assert!(!should_set_root_password(&None));
    assert!(!should_set_root_password(&Some(String::new())));
    assert!(should_set_root_password(&Some("secret".to_string())));
}

#[test]
fn root_password_defaults_to_root() {
    assert_eq!(root_password(&None), "root".to_string());
    assert_eq!(root_password(&Some("s3cret".to_string())), "s3cret".to_string());
}
