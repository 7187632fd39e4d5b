//! Tests for configuration defaults and validation.

use ia_get::config::{Config, ConfigManager, FilterPreset};
use ia_get::error::{IaGetError, IaGetErrorCode};
use ia_get::command_handlers::{format_bool, format_option, parse_bool};

#[test]
fn test_default_config_creation() {
    let config = Config::default();

    assert_eq!(config.concurrent_downloads, 3);
    assert_eq!(config.max_retries, 3);
    assert!(!config.filter_presets.is_empty());

    assert!(config.concurrent_downloads > 0);
    assert!(config.concurrent_downloads <= 10);
    assert!(config.max_retries > 0);
    assert!(config.max_retries <= 20);
}

#[test]
fn test_default_config_validation() {
    let config = Config::default();
    let validation_result = ConfigManager::validate_config(&config);
    assert!(validation_result.is_ok());
}

#[test]
fn test_default_filter_presets() {
    let config = Config::default();
    assert!(!config.filter_presets.is_empty());
    for preset in &config.filter_presets {
        assert!(!preset.name.is_empty());
        assert!(preset.include_ext.is_some() || preset.exclude_ext.is_some());
    }
}

#[test]
fn test_validate_valid_configurations() {
    let valid_configs = vec![
        Config { concurrent_downloads: 1, max_retries: 1, filter_presets: vec![], ..Default::default() },
        Config {
            concurrent_downloads: 5,
            max_retries: 10,
            filter_presets: vec![
                FilterPreset {
                    name: "Test".to_string(),
                    description: "Test preset".to_string(),
                    include_ext: Some("pdf".to_string()),
                    exclude_ext: None,
                    max_file_size: None,
                },
            ],
            ..Default::default()
        },
        Config { concurrent_downloads: 10, max_retries: 20, filter_presets: vec![], ..Default::default() },
    ];
    for config in valid_configs {
        assert!(ConfigManager::validate_config(&config).is_ok());
    }
}

#[test]
fn test_validate_invalid_concurrent_downloads() {
    let mut config = Config::default();
    config.concurrent_downloads = 0;
    assert!(ConfigManager::validate_config(&config).is_err());

    config.concurrent_downloads = 25;
    assert!(ConfigManager::validate_config(&config).is_err());
}

#[test]
fn test_validate_invalid_max_retries() {
    let mut config = Config::default();
    config.concurrent_downloads = 3;
    config.max_retries = 0;
    assert!(ConfigManager::validate_config(&config).is_err());

    config.max_retries = 25;
    assert!(ConfigManager::validate_config(&config).is_err());
}

#[test]
fn test_validate_filter_presets() {
    let mut config = Config::default();

    config.filter_presets = vec![
        FilterPreset {
            name: "Documents".to_string(),
            description: "Document files".to_string(),
            include_ext: Some("pdf,txt".to_string()),
            exclude_ext: None,
            max_file_size: None,
        },
        FilterPreset {
            name: "Images".to_string(),
            description: "Image files".to_string(),
            include_ext: Some("jpg,png".to_string()),
            exclude_ext: None,
            max_file_size: None,
        },
    ];
    assert!(ConfigManager::validate_config(&config).is_ok());

    config.filter_presets = vec![
        FilterPreset {
            name: "".to_string(),
            description: "Empty name test".to_string(),
            include_ext: Some("pdf".to_string()),
            exclude_ext: None,
            max_file_size: None,
        },
    ];
    assert!(ConfigManager::validate_config(&config).is_err());

    config.filter_presets = vec![
        FilterPreset {
            name: "Test".to_string(),
            description: "No extensions test".to_string(),
            include_ext: None,
            exclude_ext: None,
            max_file_size: None,
        },
    ];
    assert!(ConfigManager::validate_config(&config).is_err());
}

#[test]
fn test_filter_preset_structure() {
    let preset = FilterPreset {
        name: "Test Preset".to_string(),
        description: "Test description".to_string(),
        include_ext: Some("pdf,txt,doc".to_string()),
        exclude_ext: None,
        max_file_size: None,
    };
    assert_eq!(preset.name, "Test Preset");
    assert_eq!(preset.include_ext, Some("pdf,txt,doc".to_string()));
}

#[test]
fn test_filter_preset_extensions() {
    let preset = FilterPreset {
        name: "Mixed Extensions".to_string(),
        description: "Mixed extensions test".to_string(),
        include_ext: Some("pdf,txt,tar.gz,docx,mp3".to_string()),
        exclude_ext: Some("xml,log".to_string()),
        max_file_size: Some("10MB".to_string()),
    };
    assert!(preset.include_ext.is_some());
    assert!(preset.exclude_ext.is_some());
    assert!(preset.max_file_size.is_some());
    let include_ext = preset.include_ext.unwrap();
    assert!(include_ext.contains("tar.gz"));
}

#[test]
fn test_config_manager_paths() {
    let manager = ConfigManager::new("/home/user/.config/ia-get".to_string());
    assert_eq!(manager.config_directory(), "/home/user/.config/ia-get");
    assert_eq!(manager.config_file_path(), "/home/user/.config/ia-get/ia-get.toml");
}

#[test]
fn test_parse_bool_words() {
    for word in ["true", "yes", "y", "1", "on", "enable", "enabled", "TRUE", "Yes"] {
        assert_eq!(parse_bool(word).unwrap(), true, "word {} should be true", word);
    }
    for word in ["false", "no", "n", "0", "off", "disable", "disabled", "FALSE", "No"] {
        assert_eq!(parse_bool(word).unwrap(), false, "word {} should be false", word);
    }
    match parse_bool("maybe") {
        Err(e) => assert_eq!(
            e.message(),
            "Invalid boolean value: 'maybe'. Use true/false, yes/no, or 1/0"
        ),
        Ok(_) => panic!("'maybe' must not parse"),
    }
    assert!(parse_bool("").is_err());
}

#[test]
fn test_format_helpers() {
    assert_eq!(format_bool(true), "Yes");
    assert_eq!(format_bool(false), "No");
    assert_eq!(format_option(&Some("value".to_string())), "value");
    assert_eq!(format_option(&None), "(not set)");
}

#[test]
fn test_error_types() {
    let network_error = IaGetError::Network("test".to_string());
    assert!(matches!(network_error, IaGetError::Network(_)));

    let parse_error = IaGetError::Parse("test".to_string());
    assert!(matches!(parse_error, IaGetError::Parse(_)));

    let io_error = IaGetError::Io(std::io::Error::new(std::io::ErrorKind::NotFound, "test"));
    assert!(matches!(io_error, IaGetError::Io(_)));

    assert_eq!(network_error.message(), "test");
}

#[test]
fn test_error_codes() {
    assert_eq!(IaGetErrorCode::Success.code(), 0);
    assert_eq!(IaGetErrorCode::InvalidInput.code(), 1);
    assert_eq!(IaGetErrorCode::NetworkError.code(), 2);
    assert_eq!(IaGetErrorCode::FileSystemError.code(), 3);
    assert_eq!(IaGetErrorCode::ParseError.code(), 4);
    assert_eq!(IaGetErrorCode::UnknownError.code(), 5);
}
