use betterlink::markdown::MdEvent;
use betterlink::tag_adder::{
    add_heading_anchors, anchor_html, compute_anchors, contains_chinese, HeadingProcessor,
};

#[test]
fn test_contains_chinese() {
    assert!(contains_chinese("这是一个标题"));
    assert!(contains_chinese("Hello 世界"));
    assert!(!contains_chinese("Hello World"));
    assert!(contains_chinese("こんにちは你好"));
    assert!(contains_chinese("\u{4e00}")); // Minimum Chinese character
    assert!(contains_chinese("\u{9fff}")); // Maximum frequently used Chinese character
    assert!(contains_chinese("\u{3400}")); // Extended Area A Start
}

#[test]
fn test_add_heading_anchors() {
    let mut content = r#"
# Title1
## Subtitle1

# Title2
## Subtitle2

# SameTitle

# 中文标题

# SameTitle

# 带-标题

```md
# 代码框内标题
```

[Title1](#Title1)

[^note1]

[^脚标测试]

[^note1]: 1

[^脚标测试]: 2
"#
    .to_string();
    add_heading_anchors(&mut content, false);
    println!("{}", content);
    assert!(content.contains(r#"<a id="title1">"#)); // Note: the title is converted to lowercase by default
    assert!(content.contains(r#"<a id="title2">"#));
    assert!(content.contains(r#"<a id="subtitle1">"#));
    assert!(content.contains(r#"<a id="subtitle2">"#));
    assert!(content.contains(r#"<a id="中文标题">"#));
    assert!(content.contains(r#"<a id="带-标题">"#));
    assert!(content.contains(r#"<a id="sametitle">"#));
    assert!(content.contains(r#"<a id="sametitle-1">"#));
    assert!(!content.contains(r#"<a id="代码框内标题">"#));
}

#[test]
fn cjk_range_edges() {
    assert!(contains_chinese("\u{4dbf}"));
    assert!(!contains_chinese("\u{4dc0}"));
    assert!(!contains_chinese("\u{33ff}"));
    assert!(!contains_chinese("\u{a000}"));
    assert!(!contains_chinese(""));
}

#[test]
fn anchors_in_document_order() {
    let mut content = "# Title1\n\n## Subtitle1\n\n# SameTitle\n\n# SameTitle\n\n# 中文标题\n".to_string();
    assert!(add_heading_anchors(&mut content, false));
    let order = [
        r#"<a id="title1"></a>"#,
        r#"<a id="subtitle1"></a>"#,
        r#"<a id="sametitle"></a>"#,
        r#"<a id="sametitle-1"></a>"#,
        r#"<a id="中文标题"></a>"#,
    ];
    let mut from = 0;
    for a in order.iter() {
        let at = content[from..].find(a).expect("anchor missing or out of order");
        from += at + a.len();
    }
}

#[test]
fn only_cjk_headings_with_check_chinese() {
    let mut content = "# Title1\n\n## Subtitle1\n\n# SameTitle\n\n# SameTitle\n\n# 中文标题\n".to_string();
    assert!(add_heading_anchors(&mut content, true));
    assert!(content.contains(r#"<a id="中文标题"></a>"#));
    assert_eq!(content.matches("<a id=").count(), 1);
}

#[test]
fn code_block_heading_gets_no_anchor_either_way() {
    for check in [false, true] {
        let mut content = "```\n# 代码框内标题\n```\n".to_string();
        assert!(add_heading_anchors(&mut content, check));
        assert!(!content.contains("<a id="));
    }
}

#[test]
fn code_block_tokens_get_no_anchor() {
    let events = vec![
        MdEvent::CodeBlockStart,
        MdEvent::HeadingStart(None),
        MdEvent::Text("Inside".to_string()),
        MdEvent::HeadingEnd,
        MdEvent::CodeBlockEnd,
        MdEvent::HeadingStart(None),
        MdEvent::Text("Inside".to_string()),
        MdEvent::HeadingEnd,
    ];
    for check in [false, true] {
        let anchors = compute_anchors(&events, check);
        assert_eq!(anchors.len(), events.len());
        assert!(anchors[..7].iter().all(|a| a.is_none()));
        if check {
            assert_eq!(anchors[7], None);
        } else {
            assert_eq!(anchors[7], Some("inside".to_string()));
        }
    }
}

#[test]
fn explicit_id_and_heading_content() {
    let events = vec![
        MdEvent::HeadingStart(Some("custom".to_string())),
        MdEvent::Text("Ignored".to_string()),
        MdEvent::HeadingEnd,
        MdEvent::HeadingStart(None),
        MdEvent::Text("Use".to_string()),
        MdEvent::Code("fmt".to_string()),
        MdEvent::Html("<b>&amp;</b>".to_string()),
        MdEvent::HeadingEnd,
        MdEvent::HeadingStart(None),
        MdEvent::Text("!!!".to_string()),
        MdEvent::HeadingEnd,
    ];
    let anchors = compute_anchors(&events, false);
    assert_eq!(anchors[2], Some("custom".to_string()));
    assert_eq!(anchors[7], Some("usefmtbampb".to_string()));
    assert_eq!(anchors[10], Some("header-3".to_string()));
}

#[test]
fn anchor_markup() {
    assert_eq!(anchor_html(&"a-1".to_string()), r#"<a id="a-1"></a>"#);
}

#[test]
fn processor_one_token_at_a_time() {
    let mut p = HeadingProcessor::new();
    assert_eq!(p.process_heading_event(&MdEvent::HeadingStart(None), true), None);
    assert_eq!(p.process_heading_event(&MdEvent::Text("English".to_string()), true), None);
    assert_eq!(p.process_heading_event(&MdEvent::HeadingEnd, true), None);
    assert_eq!(p.process_heading_event(&MdEvent::HeadingStart(None), true), None);
    assert_eq!(p.process_heading_event(&MdEvent::Text("标题 Two".to_string()), true), None);
    assert_eq!(
        p.process_heading_event(&MdEvent::HeadingEnd, true),
        Some("标题two".to_string())
    );
    assert_eq!(p.process_heading_event(&MdEvent::HeadingEnd, false), None);
    assert_eq!(p.process_heading_event(&MdEvent::Text("stray".to_string()), false), None);
}
