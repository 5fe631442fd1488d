use cache_manager::config_reader::{Config, ConfigError, ConfigReader};

#[test]
fn config_prefers_the_given_path() {
    let config = Config::new("settings.txt", true, true).unwrap();
    assert_eq!(config.get_config_path(), "settings.txt");
}

#[test]
fn config_falls_back_to_the_default_file() {
    let config = Config::new("settings.txt", false, true).unwrap();
    assert_eq!(config.get_config_path(), "./src/config.txt");
}

#[test]
fn config_without_any_file_is_an_io_error() {
    match Config::new("settings.txt", false, false) {
        Err(ConfigError::Io(error)) => {
            assert_eq!(error.kind(), std::io::ErrorKind::NotFound);
            assert_eq!(error.to_string(), "No config.txt file was found");
        }
        _ => panic!("expected an input/output error"),
    }
}

#[test]
fn reader_needs_a_configuration() {
    match ConfigReader::new(None) {
        Err(ConfigError::Io(error)) => assert_eq!(error.kind(), std::io::ErrorKind::NotFound),
        _ => panic!("expected an input/output error"),
    }
    let config = Config::new("a", true, false).unwrap();
    let reader = ConfigReader::new(Some(&config)).unwrap();
    assert_eq!(reader.get_setting("anything"), None);
}

#[test]
fn a_line_splits_at_its_only_equals_sign() {
    assert_eq!(ConfigReader::get_values("key=value").unwrap(), ("key", "value"));
    assert_eq!(ConfigReader::get_values("  key=value \n").unwrap(), ("key", "value"));
    assert_eq!(ConfigReader::get_values("key = value").unwrap(), ("key ", " value"));
    assert_eq!(ConfigReader::get_values("=").unwrap(), ("", ""));
    assert_eq!(ConfigReader::get_values("größe=später").unwrap(), ("größe", "später"));
}

#[test]
fn a_line_without_or_with_several_equals_signs_is_refused() {
    for line in ["", "key", "a=b=c", "==", "  no sign here "] {
        match ConfigReader::get_values(line) {
            Err(ConfigError::InvalidFormat(text)) => assert_eq!(text, line),
            _ => panic!("expected a format error for {line:?}"),
        }
    }
}

#[test]
fn lines_are_read_until_one_is_refused() {
    let config = Config::new("a", true, false).unwrap();
    let mut reader = ConfigReader::new(Some(&config)).unwrap();
    let lines = vec![
        "too_big=1".to_string(),
        "name = x".to_string(),
        "too_big=2".to_string(),
    ];
    assert_eq!(reader.load_config(&lines).unwrap().len(), 2);
    assert_eq!(reader.get_setting("too_big"), Some("2"));
    assert_eq!(reader.get_setting("name "), Some(" x"));
    let more = vec!["b=1".to_string(), "broken".to_string(), "c=1".to_string()];
    match reader.load_config(&more) {
        Err(ConfigError::InvalidFormat(text)) => assert_eq!(text, "broken"),
        _ => panic!("expected a format error"),
    }
    assert_eq!(reader.get_setting("b"), Some("1"));
    assert_eq!(reader.get_setting("c"), None);
}

#[test]
fn io_and_parse_errors_convert() {
    let io = std::io::Error::new(std::io::ErrorKind::InvalidData, "bad");
    assert!(matches!(ConfigError::from(io), ConfigError::Io(_)));
    let parse = "x".parse::<u32>().unwrap_err();
    assert!(matches!(
        ConfigError::from(parse),
        ConfigError::ParseIntError(_)
    ));
}
