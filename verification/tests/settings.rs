use hypercool::settings::{
    is_deep_link, message_viewer_label, message_viewer_page, message_viewer_title, parse_flag,
    setting_is_on, NotABool,
};

fn set(value: &str) -> Option<String> {
    Some(value.to_string())
}

#[test]
fn setting_is_on_only_when_it_says_true() {
    assert!(setting_is_on(&set("true")));
    assert!(!setting_is_on(&set("false")));
    assert!(!setting_is_on(&set("TRUE")));
    assert!(!setting_is_on(&set("1")));
    assert!(!setting_is_on(&set(" true")));
    assert!(!setting_is_on(&None));
}

#[test]
fn flag_is_read_or_defaulted() {
    assert_eq!(parse_flag(&set("true"), false), Ok(true));
    assert_eq!(parse_flag(&set("false"), true), Ok(false));
    assert_eq!(parse_flag(&None, true), Ok(true));
    assert_eq!(parse_flag(&None, false), Ok(false));
    assert_eq!(parse_flag(&set("yes"), true), Err(NotABool));
    assert_eq!(parse_flag(&set(""), true), Err(NotABool));
    assert_eq!(parse_flag(&set("True"), true), Err(NotABool));
    for text in ["true", "false", "yes", "", "TRUE", "0"] {
        assert_eq!(parse_flag(&set(text), false).ok(), text.parse::<bool>().ok());
    }
}

#[test]
fn deep_links_begin_with_the_scheme() {
    assert!(is_deep_link("hypercool://open?id=1"));
    assert!(is_deep_link("hypercool://"));
    assert!(!is_deep_link("hypercool:/"));
    assert!(!is_deep_link(" hypercool://x"));
    assert!(!is_deep_link("--flag"));
    assert!(!is_deep_link(""));
}

#[test]
fn viewer_window_is_named_after_the_message() {
    assert_eq!(message_viewer_label(42), "message-viewer-42");
    assert_eq!(message_viewer_label(0), "message-viewer-0");
    assert_eq!(message_viewer_label(-7), "message-viewer--7");
    assert_eq!(message_viewer_label(i64::MAX), format!("message-viewer-{}", i64::MAX));
    assert_eq!(message_viewer_label(i64::MIN), format!("message-viewer-{}", i64::MIN));
    assert_eq!(message_viewer_title(1200), "메시지 #1200");
}

#[test]
fn viewer_page_depends_on_the_build() {
    assert_eq!(message_viewer_page(5, false), "message-viewer.html?id=5");
    assert_eq!(message_viewer_page(5, true), "http://localhost:1420/message-viewer.html?id=5");
}
