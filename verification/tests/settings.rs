use las::config::{
    parse_max_depth, parse_skip_hidden, same_text, ConfigError, ScanConfig, DEFAULT_MAX_DEPTH,
    DEFAULT_SKIP_HIDDEN,
};

#[test]
fn defaults_are_one_level_and_skipping() {
    let config = ScanConfig::new(String::from("/tmp"));
    assert_eq!(config.root, "/tmp");
    assert_eq!(config.max_depth, 1);
    assert!(config.skip_hidden);
    assert_eq!(DEFAULT_MAX_DEPTH, 1);
    assert!(DEFAULT_SKIP_HIDDEN);
}

#[test]
fn builders_change_one_setting() {
    let config = ScanConfig::new(String::from("/var")).with_max_depth(4);
    assert_eq!(config.root, "/var");
    assert_eq!(config.max_depth, 4);
    assert!(config.skip_hidden);
    let config = config.with_skip_hidden(false);
    assert_eq!(config.root, "/var");
    assert_eq!(config.max_depth, 4);
    assert!(!config.skip_hidden);
}

#[test]
fn same_text_compares_whole_texts() {
    assert!(same_text("", ""));
    assert!(same_text("true", "true"));
    assert!(!same_text("true", "tru"));
    assert!(!same_text("tru", "true"));
    assert!(!same_text("true", "trie"));
    assert!(same_text("é1", "é1"));
    assert!(!same_text("é", "e"));
}

#[test]
fn skip_hidden_words() {
    assert_eq!(parse_skip_hidden("0"), Some(false));
    assert_eq!(parse_skip_hidden("f"), Some(false));
    assert_eq!(parse_skip_hidden("false"), Some(false));
    assert_eq!(parse_skip_hidden("1"), Some(true));
    assert_eq!(parse_skip_hidden("t"), Some(true));
    assert_eq!(parse_skip_hidden("true"), Some(true));
}

#[test]
fn other_words_say_nothing_on_hidden() {
    assert_eq!(parse_skip_hidden(""), None);
    assert_eq!(parse_skip_hidden("yes"), None);
    assert_eq!(parse_skip_hidden("True"), None);
    assert_eq!(parse_skip_hidden("false "), None);
    assert_eq!(parse_skip_hidden("2"), None);
    assert_eq!(parse_skip_hidden("tr"), None);
}

#[test]
fn depth_limits_are_decimal_numbers() {
    assert_eq!(parse_max_depth("0"), Some(0));
    assert_eq!(parse_max_depth("1"), Some(1));
    assert_eq!(parse_max_depth("42"), Some(42));
    assert_eq!(parse_max_depth("007"), Some(7));
    assert_eq!(parse_max_depth("+7"), Some(7));
    assert_eq!(parse_max_depth("1234567890"), Some(1_234_567_890));
}

#[test]
fn other_texts_are_no_depth_limit() {
    assert_eq!(parse_max_depth(""), None);
    assert_eq!(parse_max_depth("+"), None);
    assert_eq!(parse_max_depth("-"), None);
    assert_eq!(parse_max_depth("-1"), None);
    assert_eq!(parse_max_depth("++1"), None);
    assert_eq!(parse_max_depth("1a"), None);
    assert_eq!(parse_max_depth("a1"), None);
    assert_eq!(parse_max_depth(" 1"), None);
    assert_eq!(parse_max_depth("1 "), None);
    assert_eq!(parse_max_depth("1.5"), None);
    assert_eq!(parse_max_depth("١"), None);
}

#[test]
fn depth_limit_must_fit() {
    let largest = usize::MAX.to_string();
    assert_eq!(parse_max_depth(&largest), Some(usize::MAX));
    let mut beyond = largest.clone();
    beyond.push('0');
    assert_eq!(parse_max_depth(&beyond), None);
    let next = (usize::MAX as u128 + 1).to_string();
    assert_eq!(parse_max_depth(&next), None);
    let before = (usize::MAX - 1).to_string();
    assert_eq!(parse_max_depth(&before), Some(usize::MAX - 1));
}

#[test]
fn depth_limit_reads_as_the_standard_parser_does() {
    let texts = [
        "", "0", "00", "+0", "-0", "+", "9", "10", "99999", "+123", "12+", "0x10", "1_000", "１",
        "18446744073709551615", "18446744073709551616", "99999999999999999999999",
    ];
    for text in texts {
        assert_eq!(parse_max_depth(text), text.parse::<usize>().ok(), "{:?}", text);
    }
}

#[test]
fn settings_from_texts() {
    let config = ScanConfig::from_args("/home", Some("3"), Some("f")).unwrap();
    assert_eq!(config.root, "/home");
    assert_eq!(config.max_depth, 3);
    assert!(!config.skip_hidden);
}

#[test]
fn absent_texts_leave_defaults() {
    let config = ScanConfig::from_args("/home", None, None).unwrap();
    assert_eq!(config.root, "/home");
    assert_eq!(config.max_depth, 1);
    assert!(config.skip_hidden);
    let config = ScanConfig::from_args("x", Some("0"), None).unwrap();
    assert_eq!(config.max_depth, 0);
    assert!(config.skip_hidden);
    let config = ScanConfig::from_args("x", None, Some("0")).unwrap();
    assert_eq!(config.max_depth, 1);
    assert!(!config.skip_hidden);
}

#[test]
fn bad_depth_limit_is_reported() {
    let error = ScanConfig::from_args("/home", Some("deep"), Some("t")).unwrap_err();
    assert_eq!(error, ConfigError::InvalidMaxDepth);
}

#[test]
fn bad_choice_on_hidden_is_reported() {
    let error = ScanConfig::from_args("/home", Some("2"), Some("maybe")).unwrap_err();
    assert_eq!(error, ConfigError::InvalidSkipHidden);
}

#[test]
fn bad_depth_limit_is_reported_first() {
    let error = ScanConfig::from_args("/home", Some("-2"), Some("maybe")).unwrap_err();
    assert_eq!(error, ConfigError::InvalidMaxDepth);
}

#[test]
fn each_error_has_its_message() {
    assert_eq!(
        ConfigError::InvalidMaxDepth.message(),
        "can't parse max_depth into a valid unsigned int"
    );
    assert_eq!(
        ConfigError::InvalidSkipHidden.message(),
        "skip_hidden is none of 0, 1, f, t, false, true"
    );
}
