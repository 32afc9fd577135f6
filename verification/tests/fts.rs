use hypercool::fts::{
    search_fts_after_phrase, search_fts_after_prefix, search_fts_internal, search_hit,
    search_messages_fts, SearchAction, SnippetRow, DEFAULT_SEARCH_LIMIT,
};

fn run_of(action: SearchAction) -> (String, i64) {
    match action {
        SearchAction::Run { expression, limit } => (expression, limit),
        SearchAction::Finish(items) => panic!("finished with {} items", items.len()),
    }
}

fn finished(action: SearchAction) -> Vec<(i64, String, String)> {
    match action {
        SearchAction::Finish(items) => items.into_iter().map(|i| (i.id, i.sender, i.snippet)).collect(),
        SearchAction::Run { expression, .. } => panic!("asked to run {}", expression),
    }
}

fn row(id: i64, raw: &str) -> SnippetRow {
    SnippetRow { id, sender: format!("s{}", id), raw_snippet: raw.to_string() }
}

#[test]
fn blank_query_finishes_without_hits() {
    assert!(finished(search_fts_internal("", 10)).is_empty());
    assert!(finished(search_fts_internal("  \t\n", 10)).is_empty());
    assert!(finished(search_messages_fts("\u{3000}", None)).is_empty());
}

#[test]
fn query_is_first_tried_as_a_prefix() {
    assert_eq!(run_of(search_fts_internal("학교", 100)), ("\"학교\"*".to_string(), 100));
    assert_eq!(run_of(search_fts_internal(" a b ", 7)), ("\" a b \"*".to_string(), 7));
}

#[test]
fn special_characters_are_escaped() {
    assert_eq!(run_of(search_fts_internal("say \"hi\"", 1)).0, "\"say \"\"hi\"\"\"*");
    assert_eq!(run_of(search_fts_internal("a*b", 1)).0, "\"ab\"*");
    assert_eq!(run_of(search_fts_internal("sender:kim", 1)).0, "\"senderkim\"*");
    assert_eq!(run_of(search_fts_internal("*:\"x", 1)).0, "\"\"\"x\"*");
}

#[test]
fn limit_defaults_to_one_hundred() {
    assert_eq!(DEFAULT_SEARCH_LIMIT, 100);
    assert_eq!(run_of(search_messages_fts("x", None)).1, 100);
    assert_eq!(run_of(search_messages_fts("x", Some(3))).1, 3);
    assert_eq!(run_of(search_messages_fts("x", Some(0))).1, 0);
    assert_eq!(run_of(search_fts_internal("x", usize::MAX)).1, i64::MAX);
}

#[test]
fn hits_of_the_prefix_match_end_the_search() {
    let rows = vec![row(2, "<b>second</b>"), row(1, "first")];
    assert_eq!(
        finished(search_fts_after_prefix("x", 10, &rows)),
        vec![(2, "s2".to_string(), "second".to_string()), (1, "s1".to_string(), "first".to_string())]
    );
}

#[test]
fn no_hit_of_the_prefix_match_leads_to_the_phrase() {
    assert_eq!(
        run_of(search_fts_after_prefix("say \"hi\"", 10, &Vec::new())),
        ("\"say \"\"hi\"\"\"".to_string(), 10)
    );
    assert_eq!(run_of(search_fts_after_prefix("a:b*", 5, &Vec::new())), ("\"ab\"".to_string(), 5));
}

#[test]
fn phrase_match_ends_the_search() {
    assert!(search_fts_after_phrase(&Vec::new()).is_empty());
    let items = search_fts_after_phrase(&vec![row(4, "x &amp; y")]);
    assert_eq!(items.len(), 1);
    assert_eq!((items[0].id, items[0].snippet.as_str()), (4, "x & y"));
}

#[test]
fn hit_carries_the_stripped_snippet() {
    let item = search_hit(&row(9, "<div style=\"color:red;\">Hello</div> World"));
    assert_eq!((item.id, item.sender.as_str(), item.snippet.as_str()), (9, "s9", "Hello World"));
}
