//! Rules on the stored settings and on what the shell is asked to open.

use crate::text::{
    append, chars_of, occurs_at_chars, same_text, signed_decimal, signed_decimal_chars, string_of,
};
use vstd::prelude::*;

verus! {

/// What a setting holds when it is switched on.
pub const ON: &'static str = "true";

/// What a setting holds when it is switched off.
pub const OFF: &'static str = "false";

/// What the address of a deep link begins with.
pub const DEEP_LINK_SCHEME: &'static str = "hypercool://";

/// What the label of the window of a message begins with.
pub const VIEWER_LABEL_PREFIX: &'static str = "message-viewer-";

/// What the title of the window of a message begins with.
pub const VIEWER_TITLE_PREFIX: &'static str = "메시지 #";

/// The page of the window of a message, up to the id.
pub const VIEWER_PAGE: &'static str = "message-viewer.html?id=";

/// Where the pages are served from during development.
pub const DEV_SERVER: &'static str = "http://localhost:1420/";

/// The setting holds neither `true` nor `false`.
#[derive(Clone, Copy, Debug, PartialEq, Eq, Structural)]
pub struct NotABool;

/// Whether a setting is switched on: it is when it holds `true`.
pub fn setting_is_on(value: &Option<String>) -> (on: bool)
    ensures
        on == (*value matches Some(v) && v@ == ON@),
{
    match value {
        Some(v) => same_text(v.as_str(), ON),
        None => false,
    }
}

/// The truth value that a setting holds; `default` where it is not set.
pub fn parse_flag(value: &Option<String>, default: bool) -> (r: Result<bool, NotABool>)
    ensures
        r == match *value {
            Some(v) => if v@ == ON@ {
                Ok::<bool, NotABool>(true)
            } else if v@ == OFF@ {
                Ok::<bool, NotABool>(false)
            } else {
                Err::<bool, NotABool>(NotABool)
            },
            None => Ok::<bool, NotABool>(default),
        },
{
    match value {
        Some(v) => {
            if same_text(v.as_str(), ON) {
                Ok(true)
            } else if same_text(v.as_str(), OFF) {
                Ok(false)
            } else {
                Err(NotABool)
            }
        },
        None => Ok(default),
    }
}

/// Whether an argument of the command line is a deep link.
pub fn is_deep_link(arg: &str) -> (r: bool)
    ensures
        r == DEEP_LINK_SCHEME@.is_prefix_of(arg@),
{
    occurs_at_chars(&chars_of(arg), 0, &chars_of(DEEP_LINK_SCHEME))
}

/// `prefix` followed by the decimal numeral of `id`.
fn numbered(prefix: &str, id: i64) -> (text: String)
    ensures
        text@ == prefix@ + signed_decimal(id as int),
{
    let mut out = chars_of(prefix);
    append(&mut out, &signed_decimal_chars(id));
    string_of(&out)
}

/// The label of the window that shows the message with the id `id`.
pub fn message_viewer_label(id: i64) -> (label: String)
    ensures
        label@ == VIEWER_LABEL_PREFIX@ + signed_decimal(id as int),
{
    numbered(VIEWER_LABEL_PREFIX, id)
}

/// The title of the window that shows the message with the id `id`.
pub fn message_viewer_title(id: i64) -> (title: String)
    ensures
        title@ == VIEWER_TITLE_PREFIX@ + signed_decimal(id as int),
{
    numbered(VIEWER_TITLE_PREFIX, id)
}

/// The page of the window that shows the message with the id `id`: a path
/// inside the application, or during development an address of the
/// development server.
pub fn message_viewer_page(id: i64, development: bool) -> (page: String)
    ensures
        page@ == (if development {
            DEV_SERVER@ + VIEWER_PAGE@ + signed_decimal(id as int)
        } else {
            VIEWER_PAGE@ + signed_decimal(id as int)
        }),
{
    let mut out: Vec<char> = Vec::new();
    if development {
        append(&mut out, &chars_of(DEV_SERVER));
    }
    append(&mut out, &chars_of(VIEWER_PAGE));
    append(&mut out, &signed_decimal_chars(id));
    proof {
        assert(Seq::<char>::empty() + VIEWER_PAGE@ =~= VIEWER_PAGE@);
    }
    string_of(&out)
}

} // verus!
