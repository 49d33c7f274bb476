use gitlogue::config::{
    default_background, default_ignore_patterns, default_loop, default_order, default_speed,
    default_theme, join_path, Config, ConfigError,
};

fn sample_config() -> Config {
    Config {
        theme: "nord".to_string(),
        speed: 12,
        background: false,
        order: "desc".to_string(),
        loop_playback: true,
        ignore_patterns: vec!["dist/**".to_string(), "*.png".to_string()],
        speed_rules: vec!["*.rs:10".to_string(), "*.md:40".to_string()],
    }
}

#[test]
fn defaults_match_documented_values() {
    let config = Config::default();
    assert_eq!(config.theme, "tokyo-night");
    assert_eq!(config.speed, 30);
    assert!(config.background);
    assert_eq!(config.order, "random");
    assert!(!config.loop_playback);
    assert!(config.ignore_patterns.is_empty());
    assert!(config.speed_rules.is_empty());
    assert_eq!(default_theme(), "tokyo-night");
    assert_eq!(default_speed(), 30);
    assert!(default_background());
    assert_eq!(default_order(), "random");
    assert!(!default_loop());
    assert!(default_ignore_patterns().is_empty());
}

#[test]
fn save_creates_commented_config_with_values() {
    let contents = sample_config().save_text(None, "/h/.config/gitlogue/config.toml").unwrap();
    assert!(contents.contains("# gitlogue configuration file"));
    assert!(contents.contains("theme = \"nord\""));
    assert!(contents.contains("speed = 12\n"));
    assert!(contents.contains("background = false\n"));
    assert!(contents.contains("order = \"desc\""));
    assert!(contents.contains("loop = true\n"));
    assert!(contents.contains("ignore_patterns = [\"dist/**\", \"*.png\"]"));
    assert!(contents.contains("speed_rules = [\"*.rs:10\", \"*.md:40\"]"));
    assert!(contents.ends_with("speed_rules = [\"*.rs:10\", \"*.md:40\"]\n"));
}

#[test]
fn save_writes_empty_arrays_for_default_collections() {
    let contents = Config::default().file_text();
    assert!(contents.contains("ignore_patterns = []"));
    assert!(contents.contains("speed_rules = []"));
    assert!(contents.starts_with(
        "# gitlogue configuration file\n# All settings are optional and will use defaults if not specified\n\n"
    ));
    assert!(contents.contains("\n\n# Typing speed in milliseconds per character\nspeed = 30\n"));
}

#[test]
fn save_updates_existing_config_without_dropping_comments() {
    let existing = "# top comment\n\
                    theme = \"tokyo-night\"\n\
                    # keep this comment\n\
                    speed = 30\n\
                    background = true\n\
                    order = \"random\"\n\
                    loop = false\n\
                    ignore_patterns = [\"*.tmp\"]\n\
                    speed_rules = [\"*.rs:30\"]\n";
    let contents = sample_config().save_text(Some(existing), "cfg").unwrap();
    assert!(contents.contains("# top comment"));
    assert!(contents.contains("# keep this comment"));
    assert!(contents.contains("theme = \"nord\""));
    assert!(contents.contains("speed = 12"));
    assert!(contents.contains("loop = true"));
    assert!(contents.contains("\"dist/**\""));
    assert!(contents.contains("\"*.md:40\""));
    assert!(!contents.contains("*.tmp"));

    let doc: toml_edit::DocumentMut = contents.parse().unwrap();
    assert_eq!(doc["theme"].as_str(), Some("nord"));
    assert_eq!(doc["speed"].as_integer(), Some(12));
    assert_eq!(doc["background"].as_bool(), Some(false));
    assert_eq!(doc["order"].as_str(), Some("desc"));
    assert_eq!(doc["loop"].as_bool(), Some(true));
    assert_eq!(doc["ignore_patterns"].as_array().map(|a| a.len()), Some(2));
}

#[test]
fn apply_to_document_adds_missing_keys_and_keeps_others() {
    let mut doc: toml_edit::DocumentMut = "extra = 1\n".parse().unwrap();
    Config::default().apply_to_document(&mut doc);
    assert_eq!(doc["extra"].as_integer(), Some(1));
    assert_eq!(doc["theme"].as_str(), Some("tokyo-night"));
    assert_eq!(doc["speed_rules"].as_array().map(|a| a.len()), Some(0));
}

#[test]
fn save_reports_parse_errors_for_existing_invalid_config() {
    let error = sample_config().save_text(Some("theme = [\n"), "/h/config.toml").unwrap_err();
    assert_eq!(error, ConfigError::Parse("/h/config.toml".to_string()));
    assert!(error.message().contains("Failed to parse config file"));
    assert!(error.message().contains("/h/config.toml"));
}

#[test]
fn error_messages_name_the_path() {
    assert_eq!(ConfigError::NoHome.message(), "Failed to determine home directory");
    assert_eq!(
        ConfigError::CreateConfigDir("/h/.config/gitlogue".to_string()).message(),
        "Failed to create config directory: /h/.config/gitlogue"
    );
    assert_eq!(
        ConfigError::CreateThemesDir("/t".to_string()).message(),
        "Failed to create themes directory: /t"
    );
    assert_eq!(ConfigError::Read("/r".to_string()).message(), "Failed to read config file: /r");
    assert_eq!(ConfigError::Write("/w".to_string()).message(), "Failed to write config file: /w");
}

#[test]
fn config_paths_live_under_the_home_directory() {
    assert_eq!(Config::config_dir("/home/me"), "/home/me/.config/gitlogue");
    assert_eq!(Config::config_path_in("/home/me"), "/home/me/.config/gitlogue/config.toml");
    assert_eq!(Config::themes_dir_in("/home/me/"), "/home/me/.config/gitlogue/themes");
    assert_eq!(join_path("", "x"), "x");
    assert_eq!(join_path("a", "b"), "a/b");
}
