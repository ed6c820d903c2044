use betterlink::slug::{normalize, SlugRegistry};

#[test]
fn repeated_headings_are_numbered() {
    let mut reg = SlugRegistry::new();
    assert_eq!(reg.generate(None, "Same Title", 1), "sametitle");
    assert_eq!(reg.generate(None, "Same Title", 2), "sametitle-1");
    assert_eq!(reg.generate(None, "Same Title", 3), "sametitle-2");
    assert_eq!(reg.generate(None, "Other", 4), "other");
    assert_eq!(reg.generate(None, "SAME title", 5), "sametitle-3");
}

#[test]
fn explicit_ids_take_part_in_numbering() {
    let mut reg = SlugRegistry::new();
    assert_eq!(reg.generate(Some("Intro".to_string()), "whatever", 1), "Intro");
    assert_eq!(reg.generate(Some("Intro".to_string()), "whatever", 2), "Intro-1");
    assert_eq!(reg.generate(None, "intro", 3), "intro");
}

#[test]
fn empty_slug_falls_back_to_position() {
    let mut reg = SlugRegistry::new();
    assert_eq!(reg.generate(None, "!!!", 5), "header-5");
    assert_eq!(reg.generate(None, "", 12), "header-12");
    assert_eq!(reg.generate(None, "x", 13), "x");
}

#[test]
fn normalization() {
    assert_eq!(normalize("Hello, World!"), "helloworld");
    assert_eq!(normalize("--a---b--"), "a-b");
    assert_eq!(normalize("Snake_Case-Name"), "snake_case-name");
    assert_eq!(normalize("带-标题"), "带-标题");
    assert_eq!(normalize("ÄÖÜ 123"), "äöü123");
    assert_eq!(normalize(""), "");
    assert_eq!(normalize("- -"), "");
}

#[test]
fn normalization_is_idempotent() {
    for t in ["Hello World", "--a---b--", "Title1", "中文 标题", "A_b-C"] {
        let once = normalize(t);
        assert_eq!(normalize(&once), once);
    }
}

#[test]
fn dotted_capital_i_lowercases_to_a_mark() {
    let once = normalize("\u{130}");
    assert_eq!(once, "i\u{307}");
    assert_ne!(normalize(&once), once);
}
