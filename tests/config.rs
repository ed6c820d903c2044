use betterlink::config::{LinkCheckerConfig, ProcessorConfig, Severity};

#[test]
fn log_levels() {
    assert_eq!(LinkCheckerConfig::parse_log_level(1), Severity::Error);
    assert_eq!(LinkCheckerConfig::parse_log_level(2), Severity::Warn);
    assert_eq!(LinkCheckerConfig::parse_log_level(3), Severity::Info);
    assert_eq!(LinkCheckerConfig::parse_log_level(4), Severity::Debug);
    assert_eq!(LinkCheckerConfig::parse_log_level(5), Severity::Trace);
    assert_eq!(LinkCheckerConfig::parse_log_level(0), Severity::Error);
    assert_eq!(LinkCheckerConfig::parse_log_level(-7), Severity::Error);
}

#[test]
fn config_defaults() {
    let c = ProcessorConfig::parse(None, None, None, None);
    assert!(!c.add_link_for_chinese);
    assert!(c.display_processed_contexts);
    assert!(c.do_link_check);
    assert_eq!(c.link_checker_config.prompt_level, Severity::Error);
    let d = ProcessorConfig::default();
    assert!(!d.add_link_for_chinese && d.do_link_check);
    let l = LinkCheckerConfig::parse(Some(3), Some(vec!["x".to_string()]));
    assert_eq!(l.prompt_level, Severity::Info);
    assert_eq!(l.deny_list, vec!["x".to_string()]);
    let c = ProcessorConfig::parse(Some(true), Some(false), Some(false), Some(l));
    assert!(c.add_link_for_chinese && !c.display_processed_contexts && !c.do_link_check);
    assert_eq!(c.link_checker_config.prompt_level, Severity::Info);
}
