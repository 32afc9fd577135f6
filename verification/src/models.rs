//! The records that the library hands to its callers, each with its
//! mathematical view.

use crate::text::views;
use vstd::prelude::*;

verus! {

/// The view of an optional string.
pub open spec fn option_view(s: Option<String>) -> Option<Seq<char>> {
    match s {
        Some(t) => Some(t@),
        None => None,
    }
}

/// One message of the foreign store, with its content decoded.
#[derive(Clone, Debug)]
pub struct Message {
    pub id: i64,
    pub sender: String,
    pub content: String,
    pub receive_date: Option<String>,
    pub file_paths: Vec<String>,
}

/// What a `Message` holds.
pub struct MessageView {
    pub id: int,
    pub sender: Seq<char>,
    pub content: Seq<char>,
    pub receive_date: Option<Seq<char>>,
    pub file_paths: Seq<Seq<char>>,
}

impl View for Message {
    type V = MessageView;

    open spec fn view(&self) -> MessageView {
        MessageView {
            id: self.id as int,
            sender: self.sender@,
            content: self.content@,
            receive_date: option_view(self.receive_date),
            file_paths: views(self.file_paths@),
        }
    }
}

/// One page of messages and the number of messages that the filter admits.
#[derive(Debug)]
pub struct PaginatedMessages {
    pub messages: Vec<Message>,
    pub total_count: i64,
}

/// One hit of a search: the message's id, its sender and a short excerpt.
#[derive(Clone, Debug)]
pub struct SearchResultItem {
    pub id: i64,
    pub sender: String,
    pub snippet: String,
}

/// What a `SearchResultItem` holds.
pub struct SearchResultView {
    pub id: int,
    pub sender: Seq<char>,
    pub snippet: Seq<char>,
}

impl View for SearchResultItem {
    type V = SearchResultView;

    open spec fn view(&self) -> SearchResultView {
        SearchResultView { id: self.id as int, sender: self.sender@, snippet: self.snippet@ }
    }
}

/// The views of a sequence of messages.
pub open spec fn message_views(v: Seq<Message>) -> Seq<MessageView> {
    v.map_values(|m: Message| m@)
}

/// The views of a sequence of search results.
pub open spec fn result_views(v: Seq<SearchResultItem>) -> Seq<SearchResultView> {
    v.map_values(|r: SearchResultItem| r@)
}

/// A copy of an optional string.
pub fn clone_option(s: &Option<String>) -> (r: Option<String>)
    ensures
        option_view(r) == option_view(*s),
{
    match s {
        Some(t) => Some(t.clone()),
        None => None,
    }
}

} // verus!
