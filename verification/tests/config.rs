use supermdx::config::{path_join, Config, ConfigError, ConfigValues};

// Mirrors how the server reads the configuration file: the `partials_dirs`
// key must hold an array of strings; anything else reads as no directory
// list.
fn parse_partials_dirs(content: &str) -> Option<Vec<String>> {
    let value: toml::Value = toml::from_str(content).ok()?;
    let dirs = value.get("partials_dirs")?.as_array()?;
    let mut out = Vec::new();
    for dir in dirs {
        out.push(dir.as_str()?.to_string());
    }
    Some(out)
}

fn path_string(path: &std::path::Path) -> String {
    path.to_str().unwrap().to_string()
}

#[test]
fn test_update_with_single_partials_dir() {
    let root_dir = tempfile::TempDir::new().unwrap();
    let root = path_string(root_dir.path());
    let dirs = parse_partials_dirs(
        r#"
partials_dirs = ["custom_partials"]
"#,
    );

    let mut config_values = ConfigValues::default();
    config_values.update(Some(root.clone()), dirs).unwrap();

    let expected_path = root_dir.path().join("custom_partials");
    assert_eq!(config_values.workspace_root, Some(root));
    assert_eq!(config_values.partials_dirs, vec![path_string(&expected_path)]);
}

#[test]
fn test_update_with_multiple_partials_dirs() {
    let root_dir = tempfile::TempDir::new().unwrap();
    let root = path_string(root_dir.path());
    let dirs = parse_partials_dirs(
        r#"
partials_dirs = ["components/partials", "layouts"]
"#,
    );

    let mut config_values = ConfigValues::default();
    config_values.update(Some(root), dirs).unwrap();

    let expected_paths = vec![
        path_string(&root_dir.path().join("components").join("partials")),
        path_string(&root_dir.path().join("layouts")),
    ];
    assert_eq!(config_values.partials_dirs, expected_paths);
}

#[test]
fn test_update_without_partials_dir() {
    let root_dir = tempfile::TempDir::new().unwrap();
    let root = path_string(root_dir.path());
    let dirs = parse_partials_dirs(
        r#"
# Empty config
"#,
    );

    let mut config_values = ConfigValues::default();
    let result = config_values.update(Some(root), dirs);

    assert!(result.is_err());
    assert!(config_values.partials_dirs.is_empty());
}

#[test]
fn test_update_with_invalid_config() {
    let root_dir = tempfile::TempDir::new().unwrap();
    let root = path_string(root_dir.path());
    let dirs = parse_partials_dirs(
        r#"
partials_dirs = 42  # Invalid type
"#,
    );

    let mut config_values = ConfigValues::default();
    let result = config_values.update(Some(root), dirs);

    assert!(result.is_err());
    assert!(config_values.partials_dirs.is_empty());
}

#[test]
fn test_update_with_nonexistent_file() {
    let root_dir = tempfile::TempDir::new().unwrap();
    let root = path_string(root_dir.path());
    // No configuration file exists in the workspace root, so there is no
    // directory list to read.
    let config_path = root_dir.path().join(".supermdx.toml");
    assert!(!config_path.exists());

    let mut config_values = ConfigValues::default();
    let result = config_values.update(Some(root), None);

    assert!(result.is_err());
    assert!(config_values.partials_dirs.is_empty());
}

#[test]
fn test_update_without_root_uri() {
    let mut config_values = ConfigValues::default();
    let result = config_values.update(None, None);

    assert!(result.is_err());
    assert!(config_values.workspace_root.is_none());
    assert!(config_values.partials_dirs.is_empty());
}

#[test]
fn test_update_with_invalid_root_uri() {
    let url = tower_lsp::lsp_types::Url::parse("invalid://url").unwrap();
    let root = url.to_file_path().ok().map(|p| path_string(&p));
    assert!(root.is_none());

    let mut config_values = ConfigValues::default();
    let result = config_values.update(root, None);

    assert!(result.is_err());
    assert!(config_values.workspace_root.is_none());
    assert!(config_values.partials_dirs.is_empty());
}

#[test]
fn update_error_variants() {
    let mut config_values = ConfigValues::default();
    assert_eq!(
        config_values.update(None, Some(vec!["a".to_string()])),
        Err(ConfigError::MissingRootUri)
    );
    assert_eq!(
        config_values.update(Some("/w".to_string()), None),
        Err(ConfigError::MissingConfig)
    );
    // The root is recorded even when the directory list is missing.
    assert_eq!(config_values.workspace_root, Some("/w".to_string()));
}

#[test]
fn update_joins_directories_onto_root() {
    let mut config_values = ConfigValues::default();
    let result = config_values.update(
        Some("/w".to_string()),
        Some(vec!["a".to_string(), "b/c".to_string(), "/abs".to_string()]),
    );
    assert_eq!(result, Ok(()));
    assert_eq!(
        config_values.partials_dirs,
        vec!["/w/a".to_string(), "/w/b/c".to_string(), "/abs".to_string()]
    );
}

#[test]
fn update_overwrites_previous_values() {
    let mut config_values = ConfigValues::default();
    config_values
        .update(Some("/one".to_string()), Some(vec!["a".to_string()]))
        .unwrap();
    config_values
        .update(Some("/two".to_string()), Some(vec!["b".to_string()]))
        .unwrap();
    assert_eq!(config_values.workspace_root, Some("/two".to_string()));
    assert_eq!(config_values.partials_dirs, vec!["/two/b".to_string()]);
}

#[test]
fn path_join_exact_values() {
    assert_eq!(path_join("a", "b"), "a/b".to_string());
    assert_eq!(path_join("a/", "b"), "a/b".to_string());
    assert_eq!(path_join("a", "/x"), "/x".to_string());
    assert_eq!(path_join("", "b"), "b".to_string());
    assert_eq!(path_join("/w/a", "x.mdx"), "/w/a/x.mdx".to_string());
}

#[test]
fn default_config_is_uninitialized() {
    let config = Config::default();
    assert!(config.0.workspace_root.is_none());
    assert!(config.0.partials_dirs.is_empty());
}
