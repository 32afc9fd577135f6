//! Full-text search over the cache: the match expressions that a query
//! turns into, the order in which they are tried, and the hits.

use crate::models::{result_views, SearchResultItem, SearchResultView};
use crate::snippet::{snippet_text, strip_html_tags, untagged};
use crate::text::{append, chars_of, replace, replace_text, string_of, trim, trim_chars};
use vstd::prelude::*;

verus! {

/// How many hits a search returns when the caller names no limit.
pub const DEFAULT_SEARCH_LIMIT: usize = 100;

/// The statement that runs one match expression: the first parameter is the
/// expression, the second the limit. Hits come newest first, each with the
/// first 150 characters of its content.
pub const FTS_SEARCH_SQL: &'static str =
    "SELECT m.id, m.sender, substr(m.content, 1, 150) AS snippet, m.receive_date \
FROM messages_fts JOIN messages m ON m.id = messages_fts.rowid \
WHERE messages_fts MATCH ?1 ORDER BY m.receive_date DESC LIMIT ?2";

/// One row that the search statement returns.
#[derive(Clone, Debug)]
pub struct SnippetRow {
    pub id: i64,
    pub sender: String,
    pub raw_snippet: String,
}

/// What the search does next.
#[derive(Debug)]
pub enum SearchAction {
    /// The search is over, with these hits.
    Finish(Vec<SearchResultItem>),
    /// Run the search statement with this match expression and limit, and
    /// hand the rows back.
    Run { expression: String, limit: i64 },
}

/// Whether a query holds nothing but whitespace.
pub open spec fn is_blank(query: Seq<char>) -> bool {
    trim(query).len() == 0
}

/// The query as it may stand inside a quoted match string: each quote is
/// doubled, and `*` and `:` are removed.
pub open spec fn fts_escaped(query: Seq<char>) -> Seq<char> {
    replace(replace(replace(query, "\""@, "\"\""@), "*"@, ""@), ":"@, ""@)
}

/// The expression that matches the query as a phrase whose last word may go
/// on.
pub open spec fn prefix_expression(query: Seq<char>) -> Seq<char> {
    "\""@ + fts_escaped(query) + "\"*"@
}

/// The expression that matches the query as an exact phrase.
pub open spec fn phrase_expression(query: Seq<char>) -> Seq<char> {
    "\""@ + fts_escaped(query) + "\""@
}

/// The limit as the statement takes it.
pub open spec fn limit_parameter(limit: usize) -> int {
    if limit <= i64::MAX {
        limit as int
    } else {
        i64::MAX as int
    }
}

/// The hit that a row stands for.
pub open spec fn hit_of(row: SnippetRow) -> SearchResultView {
    SearchResultView {
        id: row.id as int,
        sender: row.sender@,
        snippet: snippet_text(row.raw_snippet@, untagged(row.raw_snippet@)),
    }
}

/// The hits that rows stand for, in the same order.
pub open spec fn hits_of(rows: Seq<SnippetRow>) -> Seq<SearchResultView> {
    rows.map_values(|row: SnippetRow| hit_of(row))
}

/// Whether `action` asks to run `expression` with the limit `limit`.
pub open spec fn runs(action: SearchAction, expression: Seq<char>, limit: usize) -> bool {
    action matches SearchAction::Run { expression: e, limit: l } && e@ == expression && l
        == limit_parameter(limit)
}

/// Whether `action` ends the search with `hits`.
pub open spec fn finishes(action: SearchAction, hits: Seq<SearchResultView>) -> bool {
    action matches SearchAction::Finish(items) && result_views(items@) == hits
}

/// The escaped query between an opening quote and `closing`.
fn quoted(query: &str, closing: &str) -> (expression: String)
    ensures
        expression@ == "\""@ + fts_escaped(query@) + closing@,
{
    proof {
        reveal_strlit("\"");
        reveal_strlit("*");
        reveal_strlit(":");
    }
    let text = chars_of(query);
    let text = replace_text(&text, "\"", "\"\"");
    let text = replace_text(&text, "*", "");
    let text = replace_text(&text, ":", "");
    let mut out = chars_of("\"");
    append(&mut out, &text);
    let tail = chars_of(closing);
    append(&mut out, &tail);
    string_of(&out)
}

/// The limit as the statement takes it.
fn limit_of(limit: usize) -> (l: i64)
    ensures
        l == limit_parameter(limit),
{
    let wide: u64 = limit as u64;
    if wide <= 0x7fff_ffff_ffff_ffff {
        wide as i64
    } else {
        0x7fff_ffff_ffff_ffff
    }
}

/// The hit that a row stands for: its excerpt is made of the raw snippet.
pub fn search_hit(row: &SnippetRow) -> (item: SearchResultItem)
    ensures
        item@ == hit_of(*row),
{
    SearchResultItem {
        id: row.id,
        sender: row.sender.clone(),
        snippet: strip_html_tags(row.raw_snippet.as_str()),
    }
}

/// The hits that rows stand for, in the same order.
pub fn search_hits(rows: &Vec<SnippetRow>) -> (items: Vec<SearchResultItem>)
    ensures
        result_views(items@) == hits_of(rows@),
{
    let mut items: Vec<SearchResultItem> = Vec::new();
    let mut i: usize = 0;
    while i < rows.len()
        invariant
            i <= rows.len(),
            items.len() == i,
            forall|j: int| 0 <= j < i ==> (#[trigger] items@[j])@ == hit_of(rows@[j]),
        decreases rows.len() - i,
    {
        items.push(search_hit(&rows[i]));
        i = i + 1;
    }
    proof {
        assert(result_views(items@) =~= hits_of(rows@));
    }
    items
}

/// Starts a full-text search. A blank query ends at once with no hits; any
/// other query is first tried as a prefix match.
pub fn search_fts_internal(query: &str, limit: usize) -> (action: SearchAction)
    ensures
        is_blank(query@) ==> finishes(action, Seq::empty()),
        !is_blank(query@) ==> runs(action, prefix_expression(query@), limit),
{
    let trimmed = trim_chars(&chars_of(query));
    if trimmed.len() == 0 {
        let none: Vec<SearchResultItem> = Vec::new();
        proof {
            assert(result_views(none@) =~= Seq::empty());
        }
        return SearchAction::Finish(none);
    }
    SearchAction::Run { expression: quoted(query, "\"*"), limit: limit_of(limit) }
}

/// Starts a full-text search with the limit that the caller names, or with
/// `DEFAULT_SEARCH_LIMIT`.
pub fn search_messages_fts(query: &str, limit: Option<usize>) -> (action: SearchAction)
    ensures
        is_blank(query@) ==> finishes(action, Seq::empty()),
        !is_blank(query@) ==> runs(
            action,
            prefix_expression(query@),
            match limit {
                Some(l) => l,
                None => DEFAULT_SEARCH_LIMIT,
            },
        ),
{
    match limit {
        Some(l) => search_fts_internal(query, l),
        None => search_fts_internal(query, DEFAULT_SEARCH_LIMIT),
    }
}

/// Goes on after the prefix match came back with `rows`: hits end the
/// search, and no hit at all leads to one more try, as an exact phrase.
pub fn search_fts_after_prefix(query: &str, limit: usize, rows: &Vec<SnippetRow>) -> (action:
    SearchAction)
    ensures
        rows@.len() > 0 ==> finishes(action, hits_of(rows@)),
        rows@.len() == 0 ==> runs(action, phrase_expression(query@), limit),
{
    if rows.len() == 0 {
        SearchAction::Run { expression: quoted(query, "\""), limit: limit_of(limit) }
    } else {
        SearchAction::Finish(search_hits(rows))
    }
}

/// Ends the search after the phrase match came back with `rows`.
pub fn search_fts_after_phrase(rows: &Vec<SnippetRow>) -> (items: Vec<SearchResultItem>)
    ensures
        result_views(items@) == hits_of(rows@),
{
    search_hits(rows)
}

} // verus!
