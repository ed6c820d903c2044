use betterlink::config::{LinkCheckerConfig, ProcessorConfig, Severity};
use betterlink::link_checker::{check_events, check_link, format_range, IssueCategory};
use betterlink::link_state::{LinkIssue, LinkState};
use betterlink::markdown::{LinkKind, MdEvent};
use betterlink::path_checker::{
    check_path, check_url, is_contained_target, is_valid_link_target, resolve_target, LinkTarget,
};

#[test]
fn range_formatting() {
    assert_eq!(format_range(&(3..3)), "3");
    assert_eq!(format_range(&(3..7)), "3..7");
    assert_eq!(format_range(&(10..2)), "10");
}

#[test]
fn fragment_targets_are_valid() {
    let conf = LinkCheckerConfig::new();
    assert!(check_path("#anything", "guide/page.md", "/nonexistent-root", &conf));
    assert!(check_path("#", "guide/page.md", "/nonexistent-root", &conf));
    assert!(check_path("?q=1", "guide/page.md", "/nonexistent-root", &conf));
    assert_eq!(is_valid_link_target("#x", "", "/r"), Some(true));
}

#[test]
fn urls_and_deny_list() {
    assert!(check_url("https://example.com/a"));
    assert!(!check_url("foo.md"));
    assert!(!check_url(""));
    let mut conf = LinkCheckerConfig::new();
    assert!(check_path("https://example.com", "page.md", "/r", &conf));
    conf.deny_list.push("https://example.com".to_string());
    assert!(!check_path("https://example.com", "page.md", "/r", &conf));
    assert!(check_path("https://example.org", "page.md", "/r", &conf));
}

#[test]
fn target_resolution() {
    match resolve_target("/a.md#x", "guide/page.md", "root") {
        LinkTarget::Candidate(p) => assert_eq!(p, "root/a.md"),
        _ => panic!("expected a candidate"),
    }
    match resolve_target("b.md?y", "guide/page.md", "root") {
        LinkTarget::Candidate(p) => assert_eq!(p, "root/guide/b.md"),
        _ => panic!("expected a candidate"),
    }
    assert!(matches!(resolve_target("b.md", "", "root"), LinkTarget::NoParent));
    assert!(matches!(resolve_target("#t", "", "root"), LinkTarget::Fragment));
    assert_eq!(is_valid_link_target("b.md", "", "root"), None);
    assert!(!check_path("b.md", "", "root", &LinkCheckerConfig::new()));
}

#[test]
fn escaping_paths_are_invalid() {
    assert!(!is_contained_target(true, "/etc/passwd", "/usr"));
    assert!(is_contained_target(true, "/usr/bin", "/usr"));
    assert!(!is_contained_target(false, "/usr/bin", "/usr"));
    assert!(!is_contained_target(true, "/usrx/bin", "/usr"));
    assert_eq!(is_valid_link_target("../../etc/passwd", "bin/page.md", "/usr"), Some(false));
    assert_eq!(is_valid_link_target("/bin", "page.md", "/usr"), Some(true));
}

#[test]
fn missing_relative_target_is_reported() {
    let content = "[x](../missing.md)";
    let path = Some("guide/page.md".to_string());
    let d = check_link(content, &path, "src", &LinkCheckerConfig::new());
    assert_eq!(d.len(), 1);
    assert_eq!(d[0].category, IssueCategory::Invalid);
    assert_eq!(d[0].range, "0..18");
    assert_eq!(d[0].file, "guide/page.md");
    assert_eq!(d[0].message, "[x](../missing.md) isn't a valid URL (or path).");
    assert_eq!(d[0].level, Severity::Error);
}

#[test]
fn undefined_reference_is_broken() {
    let content = "See [foo] here.";
    let path = Some("page.md".to_string());
    let mut conf = LinkCheckerConfig::new();
    conf.prompt_level = Severity::Warn;
    let d = check_link(content, &path, "/nonexistent-root", &conf);
    assert_eq!(d.len(), 1);
    assert_eq!(d[0].category, IssueCategory::Broken);
    assert_eq!(d[0].category.name(), "broken");
    assert_eq!(d[0].message, "[foo] is a broken URL (or path).");
    assert_eq!(d[0].range, "4..9");
    assert_eq!(d[0].level, Severity::Warn);
}

#[test]
fn defined_reference_and_fragment_are_not_reported() {
    let content = "[foo] and [bar](#sec) and <https://example.com>\n\n[foo]: https://example.com\n";
    let path = Some("page.md".to_string());
    let d = check_link(content, &path, "/nonexistent-root", &LinkCheckerConfig::new());
    assert_eq!(d.len(), 0);
    assert_eq!(check_link("[x](nope.md)", &None, "/r", &LinkCheckerConfig::new()).len(), 0);
}

#[test]
fn link_state_transitions() {
    let mut s = LinkState::new();
    assert!(!s.is_active());
    s.start_link("dest".to_string(), LinkKind::ShortcutUnknown);
    s.append_text("a");
    s.append_text("b");
    assert!(s.is_active() && s.is_broken() && s.should_check() && !s.is_simple());
    assert_eq!(s.url(), "dest");
    assert_eq!(s.classify_issue(true), LinkIssue::Broken);
    let d = s.diagnose("f.md", &(1..4), Severity::Info, true).unwrap();
    assert_eq!(d.message, "[ab] is a broken URL (or path).");
    s.start_link("x@y".to_string(), LinkKind::Email);
    assert!(s.is_simple() && s.should_check());
    assert_eq!(s.classify_issue(false), LinkIssue::InvalidSimple);
    s.start_link("r".to_string(), LinkKind::Reference);
    assert!(!s.should_check());
    s.reset();
    assert!(!s.is_active());
    assert_eq!(s.classify_issue(false), LinkIssue::Valid);
}

#[test]
fn token_stream_pass() {
    let events = vec![
        (MdEvent::LinkStart(LinkKind::ShortcutUnknown, "foo".to_string()), 0, 5),
        (MdEvent::Text("fo".to_string()), 1, 3),
        (MdEvent::Code("x".to_string()), 3, 4),
        (MdEvent::Text("o".to_string()), 3, 4),
        (MdEvent::LinkEnd, 0, 5),
        (MdEvent::Text("outside".to_string()), 5, 12),
        (MdEvent::LinkStart(LinkKind::Reference, "nope.md".to_string()), 12, 20),
        (MdEvent::LinkEnd, 12, 20),
        (MdEvent::LinkStart(LinkKind::Inline, "#top".to_string()), 20, 30),
        (MdEvent::LinkEnd, 20, 30),
        (MdEvent::LinkStart(LinkKind::Inline, "nope.md".to_string()), 30, 40),
        (MdEvent::Text("t".to_string()), 31, 32),
        (MdEvent::LinkEnd, 30, 40),
    ];
    let d = check_events(&events, "page.md", "/nonexistent-root", &LinkCheckerConfig::new());
    assert_eq!(d.len(), 2);
    assert_eq!(d[0].message, "[foo] is a broken URL (or path).");
    assert_eq!(d[0].range, "0..5");
    assert_eq!(d[1].category, IssueCategory::Invalid);
    assert_eq!(d[1].message, "[t](nope.md) isn't a valid URL (or path).");
    assert_eq!(d[1].range, "30..40");
}

#[test]
fn email_autolink_reported_as_simple() {
    let path = Some("page.md".to_string());
    let d = check_link("<someone@example.org>", &path, "/nonexistent-root", &LinkCheckerConfig::new());
    assert_eq!(d.len(), 1);
    assert_eq!(d[0].message, "<someone@example.org> isn't a valid URL.");
}

#[test]
fn check_and_prompt_resets() {
    let mut s = LinkState::default();
    s.start_link("https://example.com".to_string(), LinkKind::Autolink);
    s.append_text("https://example.com");
    let conf = LinkCheckerConfig::new();
    assert!(s.check_and_prompt("page.md", &(0..21), "/r", &conf).is_none());
    assert!(!s.is_active());
    s.start_link("gone.md".to_string(), LinkKind::Inline);
    let d = s.check_and_prompt("page.md", &(2..2), "/r", &conf).unwrap();
    assert_eq!(d.range, "2");
    assert_eq!(d.message, "[](gone.md) isn't a valid URL (or path).");
}

#[test]
fn chapter_anchors_then_links() {
    let mut content = "# Intro\n\n[x](../missing.md)\n".to_string();
    let path = Some("guide/page.md".to_string());
    let (rewritten, d) = betterlink::processor::chapter_handle(
        &mut content,
        &path,
        &ProcessorConfig::new(),
        "src",
    );
    assert!(rewritten);
    assert!(content.contains(r#"<a id="intro"></a>"#));
    assert_eq!(d.len(), 1);
    assert_eq!(d[0].category, IssueCategory::Invalid);
    let (_, none) = betterlink::processor::chapter_handle(
        &mut content,
        &None,
        &ProcessorConfig::new(),
        "src",
    );
    assert!(none.is_empty());
}
