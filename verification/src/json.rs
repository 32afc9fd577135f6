//! Lists of strings as JSON text.

use crate::text::views;
use vstd::prelude::*;

verus! {

/// What `serde_json::to_string` makes of a list of strings: the JSON text,
/// or `None` where it reports an error.
pub uninterp spec fn json_array_text(items: Seq<Seq<char>>) -> Option<Seq<char>>;

/// What `serde_json::from_str` reads from `text` as a list of strings: the
/// list, or `None` where it reports an error.
pub uninterp spec fn json_strings(text: Seq<char>) -> Option<Seq<Seq<char>>>;

/// `serde_json::to_string` on a list of strings. The result depends on the
/// strings alone.
#[verifier::external_body]
pub(crate) fn strings_to_json(items: &Vec<String>) -> (r: Option<String>)
    ensures
        match r {
            Some(text) => json_array_text(views(items@)) == Some(text@),
            None => json_array_text(views(items@)) is None,
        },
{
    serde_json::to_string(items).ok()
}

/// `serde_json::from_str` for a list of strings. The result depends on the
/// text alone.
#[verifier::external_body]
pub(crate) fn strings_from_json(text: &str) -> (r: Option<Vec<String>>)
    ensures
        match r {
            Some(items) => json_strings(text@) == Some(views(items@)),
            None => json_strings(text@) is None,
        },
{
    serde_json::from_str::<Vec<String>>(text).ok()
}

/// The JSON text of a list of strings, as it is stored; empty where the
/// list cannot be written.
pub open spec fn stored_list(items: Seq<Seq<char>>) -> Seq<char> {
    match json_array_text(items) {
        Some(text) => text,
        None => Seq::empty(),
    }
}

/// The list of strings that a stored JSON text holds; empty where the text
/// is no such list.
pub open spec fn loaded_list(text: Seq<char>) -> Seq<Seq<char>> {
    match json_strings(text) {
        Some(items) => items,
        None => Seq::empty(),
    }
}

/// Writes a list of strings as JSON text for storage.
pub fn store_list(items: &Vec<String>) -> (text: String)
    ensures
        text@ == stored_list(views(items@)),
{
    match strings_to_json(items) {
        Some(text) => text,
        None => String::new(),
    }
}

/// Reads a list of strings from stored JSON text.
pub fn load_list(text: &str) -> (items: Vec<String>)
    ensures
        views(items@) == loaded_list(text@),
{
    match strings_from_json(text) {
        Some(items) => items,
        None => {
            let none: Vec<String> = Vec::new();
            proof {
                assert(views(none@) =~= Seq::<Seq<char>>::empty());
            }
            none
        },
    }
}

} // verus!
