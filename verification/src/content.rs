//! The content decoder: from the two stored columns of a message row to the
//! text that is shown.

use crate::codec::{
    brotli_text, comp_text, decode_comp_zlib_utf16le, decompress_brotli, DecodeError,
};
use crate::text::{chars_of, occurs_at_chars, string_of, subrange};
use vstd::prelude::*;

verus! {

/// What stands in place of content that could not be decoded.
pub const DECODE_FAILED: &'static str = "압축 해제 실패";

/// What a text body starts with when the rest is a base64-wrapped payload.
pub const COMP_MARKER: &'static str = "{COMP}";

/// The raw value of a content column of the foreign store.
#[derive(Clone, Debug)]
pub enum StoredValue {
    /// No text and no blob: NULL, or a number.
    Absent,
    /// Stored as text.
    Text(String),
    /// Stored as a compressed blob.
    Blob(Vec<u8>),
}

/// The decoded text, or the placeholder where decoding failed.
pub open spec fn text_or_placeholder(decoded: Result<Seq<char>, DecodeError>) -> Seq<char> {
    match decoded {
        Ok(t) => t,
        Err(_) => DECODE_FAILED@,
    }
}

/// Whether the body column overrides the text column: it does when it is a
/// blob, or text that carries a marked payload.
pub open spec fn body_is_preferred(body: StoredValue) -> bool {
    match body {
        StoredValue::Blob(_) => true,
        StoredValue::Text(t) => COMP_MARKER@.is_prefix_of(t@),
        StoredValue::Absent => false,
    }
}

/// What the body column decodes to. An absent body gives the empty text.
pub open spec fn body_text(body: StoredValue) -> Seq<char> {
    match body {
        StoredValue::Blob(b) => text_or_placeholder(brotli_text(b@)),
        StoredValue::Text(t) => if COMP_MARKER@.is_prefix_of(t@) {
            text_or_placeholder(comp_text(t@.skip(COMP_MARKER@.len() as int)))
        } else {
            t@
        },
        StoredValue::Absent => Seq::empty(),
    }
}

/// The content of a message, by priority:
/// a blob body, decompressed; a marked text body, decoded; a blob text
/// column, decompressed; a plain text column that is not empty; and at last
/// whatever the body gave. Where decoding fails the placeholder stands in.
pub open spec fn message_content(text: StoredValue, body: StoredValue) -> Seq<char> {
    if body_is_preferred(body) {
        body_text(body)
    } else {
        match text {
            StoredValue::Blob(b) => text_or_placeholder(brotli_text(b@)),
            StoredValue::Text(t) => if t@.len() > 0 {
                t@
            } else {
                body_text(body)
            },
            StoredValue::Absent => body_text(body),
        }
    }
}

/// The decoded text, or the placeholder where decoding failed.
pub fn unwrap_or_placeholder(decoded: Result<String, DecodeError>) -> (r: String)
    ensures
        r@ == match decoded {
            Ok(s) => s@,
            Err(_) => DECODE_FAILED@,
        },
{
    match decoded {
        Ok(s) => s,
        Err(_) => DECODE_FAILED.to_string(),
    }
}

/// Decodes the body column. The flag says whether the body overrides the
/// text column.
pub fn decode_body(body: &StoredValue) -> (r: (bool, String))
    ensures
        r.0 == body_is_preferred(*body),
        r.1@ == body_text(*body),
{
    match body {
        StoredValue::Blob(b) => (true, unwrap_or_placeholder(decompress_brotli(b.as_slice()))),
        StoredValue::Text(t) => {
            let chars = chars_of(t.as_str());
            let marker = chars_of(COMP_MARKER);
            if occurs_at_chars(&chars, 0, &marker) {
                let rest = string_of(&subrange(&chars, marker.len(), chars.len()));
                (true, unwrap_or_placeholder(decode_comp_zlib_utf16le(rest.as_str())))
            } else {
                (false, t.clone())
            }
        },
        StoredValue::Absent => (false, String::new()),
    }
}

/// Decodes the content of one message from its text and body columns. It
/// never fails: what cannot be decoded becomes the placeholder.
pub fn decode_content(text: &StoredValue, body: &StoredValue) -> (r: String)
    ensures
        r@ == message_content(*text, *body),
{
    let (preferred, body_value) = decode_body(body);
    if preferred {
        return body_value;
    }
    match text {
        StoredValue::Blob(b) => unwrap_or_placeholder(decompress_brotli(b.as_slice())),
        StoredValue::Text(t) => {
            if t.as_str().unicode_len() > 0 {
                t.clone()
            } else {
                body_value
            }
        },
        StoredValue::Absent => body_value,
    }
}

/// The priority of the two columns, case by case. A blob body and a marked
/// text body win over whatever the text column holds. Any other body yields
/// to a blob in the text column and to plain text there that is not empty;
/// only then does it count itself. In each case content that cannot be
/// decoded is the placeholder.
pub proof fn lemma_content_priority(text: StoredValue, body: StoredValue)
    ensures
        body matches StoredValue::Blob(b) ==> message_content(text, body) == text_or_placeholder(
            brotli_text(b@),
        ),
        body matches StoredValue::Text(t) ==> COMP_MARKER@.is_prefix_of(t@) ==> message_content(
            text,
            body,
        ) == text_or_placeholder(comp_text(t@.skip(COMP_MARKER@.len() as int))),
        !body_is_preferred(body) ==> (text matches StoredValue::Blob(b) ==> message_content(
            text,
            body,
        ) == text_or_placeholder(brotli_text(b@))),
        !body_is_preferred(body) ==> (text matches StoredValue::Text(t) ==> t@.len() > 0
            ==> message_content(text, body) == t@),
        !body_is_preferred(body) ==> (text matches StoredValue::Text(t) ==> t@.len() == 0
            ==> message_content(text, body) == body_text(body)),
        !body_is_preferred(body) ==> text is Absent ==> message_content(text, body) == body_text(
            body,
        ),
        body matches StoredValue::Text(t) ==> !COMP_MARKER@.is_prefix_of(t@) ==> body_text(body)
            == t@,
        body is Absent ==> body_text(body) == Seq::<char>::empty(),
{
}

} // verus!
