use nazmc::book::{
    handle_chapter, nazm_code_blocks, nazm_code_to_html, span, MdEventClass, NazmPreprocessor,
};

#[test]
fn preprocessor_name_and_renderer() {
    assert_eq!(NazmPreprocessor.name(), "nazm");
    assert!(NazmPreprocessor.supports_renderer("html"));
    assert!(!NazmPreprocessor.supports_renderer("markdown"));
}

#[test]
fn span_wraps_in_a_class() {
    assert_eq!(span("hljs-title", "س"), "<span class =\"hljs-title\">س</span>");
}

#[test]
fn code_is_highlighted_token_by_token() {
    let html = nazm_code_to_html("دالة س() { 12 } // ت\n".to_string());
    assert_eq!(
        html,
        "<span class =\"hljs-keyword\">دالة</span> <span class =\"hljs-title\">س</span>() { <span class =\"hljs-number\">12</span> } <span class =\"hljs-comment\">// ت</span>\n"
    );
    let html = nazm_code_to_html("\"نص\" 'ح' صحيح".to_string());
    assert!(html.starts_with("<span class =\"hljs-string\">\"نص\"</span> <span class =\"hljs-string\">'ح'</span> "));
}

#[test]
fn only_nazm_blocks_are_replaced() {
    let classes = vec![
        MdEventClass::Text("قبل".to_string()),
        MdEventClass::FencedCodeStart("نظم".to_string()),
        MdEventClass::Text("س".to_string()),
        MdEventClass::CodeBlockEnd,
        MdEventClass::FencedCodeStart("rust".to_string()),
        MdEventClass::Text("fn".to_string()),
        MdEventClass::CodeBlockEnd,
        MdEventClass::Other,
    ];
    let replaced = nazm_code_blocks(&classes);
    assert_eq!(replaced.len(), classes.len());
    assert_eq!(replaced[0], None);
    assert_eq!(
        replaced[1].as_deref(),
        Some("\n\n<pre class=\"language-nazm\" data-highlighted=\"yes\"><code>")
    );
    assert_eq!(replaced[2].as_deref(), Some("<span class =\"hljs-title\">س</span>"));
    assert_eq!(replaced[3].as_deref(), Some("</code></pre>\n\n"));
    assert_eq!(replaced[4], None);
    assert_eq!(replaced[5], None);
    assert_eq!(replaced[6], None);
    assert_eq!(replaced[7], None);
}

#[test]
fn chapter_nazm_block_is_highlighted() {
    let content = "# عنوان\n\n[رابط](https://a.b)\n\n```نظم\nاحجز س = 5؛\n```\n\n```rust\nfn f() {}\n```\n";
    let out = handle_chapter(content);
    assert!(out.contains("<pre class=\"language-nazm\" data-highlighted=\"yes\"><code>"));
    assert!(out.contains("<span class =\"hljs-keyword\">احجز</span>"));
    assert!(out.contains("<span class =\"hljs-number\">5</span>"));
    assert!(out.contains("</code></pre>"));
    assert!(out.contains("rust"));
    assert!(out.contains("fn f() {}"));
    assert!(out.contains("عنوان"));
    assert!(out.contains("https://a.b"));
}

#[test]
fn chapter_without_nazm_code_keeps_its_text() {
    let out = handle_chapter("نص فقط\n");
    assert!(out.contains("نص فقط"));
    assert!(!out.contains("language-nazm"));
}

#[test]
fn classes_of_links_images_and_headings_are_not_replaced() {
    let classes = vec![
        MdEventClass::HeadingStart,
        MdEventClass::Text("ع".to_string()),
        MdEventClass::HeadingEnd,
        MdEventClass::LinkStart,
        MdEventClass::LinkEnd,
        MdEventClass::ImageStart,
        MdEventClass::ImageEnd,
    ];
    let replaced = nazm_code_blocks(&classes);
    assert!(replaced.iter().all(|r| r.is_none()));
}
