use udp_logger_rs::{level_from_name, resolve, sort_rules, Level, LevelFilter, UdpLogger};

fn rules(list: &[(&str, LevelFilter)]) -> Vec<(String, LevelFilter)> {
    list.iter().map(|(p, l)| (p.to_string(), *l)).collect()
}

#[test]
fn longest_prefix_wins_after_sorting() {
    let sorted = sort_rules(rules(&[
        ("a", LevelFilter::Warn),
        ("a::b::c", LevelFilter::Trace),
        ("a::b", LevelFilter::Debug),
    ]));
    assert_eq!(resolve(&sorted, LevelFilter::Error, "a::b::c::d"), LevelFilter::Trace);
    assert_eq!(resolve(&sorted, LevelFilter::Error, "a::b::x"), LevelFilter::Debug);
    assert_eq!(resolve(&sorted, LevelFilter::Error, "a::x"), LevelFilter::Warn);
    assert_eq!(resolve(&sorted, LevelFilter::Error, "zzz"), LevelFilter::Error);
}

#[test]
fn sort_orders_by_descending_length_stably() {
    let sorted = sort_rules(rules(&[
        ("ab", LevelFilter::Warn),
        ("abcd", LevelFilter::Info),
        ("xy", LevelFilter::Debug),
        ("q", LevelFilter::Off),
    ]));
    let names: Vec<&str> = sorted.iter().map(|r| r.0.as_str()).collect();
    assert_eq!(names, vec!["abcd", "ab", "xy", "q"]);
}

#[test]
fn equal_length_tie_goes_to_earliest_registered() {
    let sorted = sort_rules(rules(&[("ab", LevelFilter::Warn), ("ab", LevelFilter::Trace)]));
    assert_eq!(resolve(&sorted, LevelFilter::Off, "abc"), LevelFilter::Warn);
}

#[test]
fn empty_category_uses_default_unless_empty_prefix() {
    let sorted = sort_rules(rules(&[("app", LevelFilter::Warn)]));
    assert_eq!(resolve(&sorted, LevelFilter::Info, ""), LevelFilter::Info);
    let sorted = sort_rules(rules(&[("app", LevelFilter::Warn), ("", LevelFilter::Debug)]));
    assert_eq!(resolve(&sorted, LevelFilter::Info, ""), LevelFilter::Debug);
    assert_eq!(resolve(&sorted, LevelFilter::Info, "other"), LevelFilter::Debug);
}

#[test]
fn enabled_is_monotonic_in_severity() {
    let logger = UdpLogger::new().with_level(LevelFilter::Info).partial_init();
    assert!(logger.enabled("x", Level::Error));
    assert!(logger.enabled("x", Level::Warn));
    assert!(logger.enabled("x", Level::Info));
    assert!(!logger.enabled("x", Level::Debug));
    assert!(!logger.enabled("x", Level::Trace));
}

#[test]
fn module_rule_overrides_default() {
    let logger = UdpLogger::new()
        .with_level(LevelFilter::Off)
        .with_module_level("my_crate", LevelFilter::Info)
        .with_module_level("my_crate::noisy", LevelFilter::Error)
        .partial_init();
    assert!(logger.enabled("my_crate::db", Level::Info));
    assert!(!logger.enabled("my_crate::db", Level::Debug));
    assert!(!logger.enabled("my_crate::noisy::x", Level::Warn));
    assert!(logger.enabled("my_crate::noisy::x", Level::Error));
    assert!(!logger.enabled("other", Level::Error));
}

#[test]
fn off_admits_nothing() {
    let logger = UdpLogger::new().with_level(LevelFilter::Off);
    assert!(!logger.enabled("x", Level::Error));
}

#[test]
fn max_configured_level_takes_most_verbose() {
    let logger = UdpLogger::new()
        .with_level(LevelFilter::Warn)
        .with_module_level("a", LevelFilter::Debug)
        .with_module_level("b", LevelFilter::Error);
    assert_eq!(logger.max_configured_level(), LevelFilter::Debug);
    let logger = UdpLogger::new().with_level(LevelFilter::Info);
    assert_eq!(logger.max_configured_level(), LevelFilter::Info);
}

#[test]
fn partial_init_sets_process_ceiling() {
    let _logger = UdpLogger::new()
        .with_level(LevelFilter::Warn)
        .with_module_level("a", LevelFilter::Debug)
        .partial_init();
    assert_eq!(udp_logger_rs::max_level(), LevelFilter::Debug);
}

#[test]
fn level_names_parse() {
    assert_eq!(level_from_name("trace"), Some(LevelFilter::Trace));
    assert_eq!(level_from_name("debug"), Some(LevelFilter::Debug));
    assert_eq!(level_from_name("info"), Some(LevelFilter::Info));
    assert_eq!(level_from_name("warn"), Some(LevelFilter::Warn));
    assert_eq!(level_from_name("error"), Some(LevelFilter::Error));
    assert_eq!(level_from_name("off"), None);
    assert_eq!(level_from_name("INFO"), None);
}

#[test]
fn env_value_is_case_insensitive() {
    let logger = UdpLogger::new().with_level(LevelFilter::Error).with_env_value("InFo");
    assert_eq!(logger.default_level, LevelFilter::Info);
    let logger = UdpLogger::new().with_level(LevelFilter::Error).with_env_value("DEBUG");
    assert_eq!(logger.default_level, LevelFilter::Debug);
}

#[test]
fn env_value_unrecognised_leaves_default() {
    let logger = UdpLogger::new().with_level(LevelFilter::Warn).with_env_value("verbose");
    assert_eq!(logger.default_level, LevelFilter::Warn);
    let logger = UdpLogger::new().with_env_value("");
    assert_eq!(logger.default_level, LevelFilter::Trace);
}

#[test]
fn default_matches_new() {
    let logger = UdpLogger::default();
    assert_eq!(logger.default_level, LevelFilter::Trace);
    assert_eq!(logger.default_source, "127.0.0.1:4000");
    assert_eq!(logger.default_destination, "127.0.0.1:4010");
    assert!(logger.module_levels.is_empty());
    assert!(logger.sources.is_empty());
    assert!(logger.destinations.is_empty());
}
