use realtime_core::language::LanguageConfig;

#[test]
fn test_language_config_creation() {
    let config = LanguageConfig::new();
    assert_eq!(config.language, "rust");
    assert!(config.has_framework("web"));
    assert!(config.has_framework("async"));
}

#[test]
fn framework_catalogue_is_keyed_once_per_category() {
    let config = LanguageConfig::new();
    assert!(config.has_framework("cli"));
    assert!(config.has_framework("database"));
    assert!(config.has_framework("serialization"));
    assert!(!config.has_framework("gui"));
    let mut keys: Vec<&str> = config.frameworks.iter().map(|p| p.0.as_str()).collect();
    keys.sort();
    keys.dedup();
    assert_eq!(keys.len(), config.frameworks.len());
}

#[test]
fn build_tooling_defaults_to_cargo() {
    let config = LanguageConfig::default();
    assert_eq!(config.build_tools.package_manager, "Cargo");
    assert_eq!(config.build_tools.build_command, "cargo build");
    assert_eq!(config.dev_server.default_port, 8000);
    assert_eq!(config.extensions, vec![".rs".to_string(), ".toml".to_string()]);
}
