use hypercool::preview::{extract_preview, PREVIEW_LIMIT};
use hypercool::snippet::{snippet_from_untagged, strip_html_tags};

#[test]
fn test_extract_preview() {
    let html = "<p>Hello <b>World</b></p><br>This is a test message.";
    let preview = extract_preview(html);
    assert!(preview.contains("Hello"));
    assert!(preview.contains("World"));
    assert!(!preview.contains("<p>"));
    assert!(!preview.contains("<b>"));
}

#[test]
fn preview_exact_text() {
    assert_eq!(
        extract_preview("<p>Hello <b>World</b></p><br>This is a test message."),
        "Hello World This is a test message."
    );
    assert_eq!(extract_preview("a<br>b<br/>c<br />d"), "a b c d");
    assert_eq!(extract_preview(""), "");
    assert_eq!(extract_preview("no markup"), "no markup");
}

#[test]
fn preview_drops_what_follows_an_open_tag() {
    assert_eq!(extract_preview("shown <span hidden"), "shown ");
    assert_eq!(extract_preview("x > y"), "x  y");
    assert_eq!(extract_preview("<<a>>b"), "b");
}

#[test]
fn preview_is_cut_after_the_limit() {
    assert_eq!(PREVIEW_LIMIT, 200);
    let exactly: String = "가".repeat(200);
    assert_eq!(extract_preview(&exactly), exactly);
    let longer: String = "가".repeat(201);
    let cut = extract_preview(&longer);
    assert_eq!(cut, "가".repeat(200));
    assert_eq!(cut.chars().count(), 200);
    assert_eq!(extract_preview(&"a".repeat(201)), "a".repeat(200));
    assert_eq!(extract_preview(&"a".repeat(5000)).chars().count(), 200);
}

#[test]
fn preview_counts_characters_after_markup_is_gone() {
    let text = format!("<b>{}</b>", "x".repeat(200));
    assert_eq!(extract_preview(&text), "x".repeat(200));
    let longer = format!("<b>{}</b>y<br>z", "x".repeat(199));
    assert_eq!(extract_preview(&longer), format!("{}y", "x".repeat(199)));
}

#[test]
fn snippet_of_marked_up_content() {
    let content = "<div style=\"color:red;\">Hello</div> World";
    assert_eq!(strip_html_tags(content), "Hello World");
}

#[test]
fn snippet_with_tag_cut_off_at_the_end() {
    let content = "<div style=\"color:red;\">Hello</div> World<div styl";
    assert_eq!(strip_html_tags(content), "Hello World");
}

#[test]
fn snippet_with_tag_cut_off_at_the_start() {
    let content = "lor:red;\">Hello</div> World";
    assert_eq!(strip_html_tags(content), "Hello World");
}

#[test]
fn snippet_with_tags_cut_off_at_both_ends() {
    let content = "rgb(0,0,0);\">Hello</div> World<span cla";
    assert_eq!(strip_html_tags(content), "Hello World");
}

#[test]
fn snippet_of_structured_content_is_empty() {
    assert_eq!(strip_html_tags("{\"cp\":1}"), "");
    assert_eq!(strip_html_tags("  [1, 2, 3]"), "");
    assert_eq!(strip_html_tags("tail of it\":[1,2]"), "");
    assert_eq!(strip_html_tags("he said \"so\": fine"), "");
    assert_eq!(strip_html_tags("he said \"so\" : fine"), "he said \"so\" : fine");
}

#[test]
fn snippet_decodes_entities_in_order() {
    assert_eq!(strip_html_tags("a&nbsp;b &amp; c"), "a b & c");
    assert_eq!(strip_html_tags("&lt;b&gt; &quot;q&quot;"), "<b> \"q\"");
    assert_eq!(strip_html_tags("&amp;lt;"), "<");
    assert_eq!(strip_html_tags("&nbsp; padded &nbsp;"), "padded");
}

#[test]
fn snippet_keeps_earlier_stray_brackets() {
    assert_eq!(strip_html_tags("a < b < c"), "a < b");
    assert_eq!(strip_html_tags("a > b > c"), "b > c");
}

#[test]
fn snippet_is_made_of_what_the_engine_left() {
    assert_eq!(snippet_from_untagged("<i>x</i>", "x"), "x");
    assert_eq!(snippet_from_untagged("plain", "  kept <cut"), "kept");
    assert_eq!(snippet_from_untagged("plain", "cut> kept"), "kept");
    assert_eq!(snippet_from_untagged("{\"a\":1}", "anything"), "");
    assert_eq!(snippet_from_untagged("plain", "a <b> c"), "a <b> c");
}
