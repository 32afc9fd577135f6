use hypercool::models::SearchResultItem;
use hypercool::search_cache::{
    copy_results, remember_search, search_messages, SearchCache, SearchLookup,
    SEARCH_CACHE_CAPACITY,
};

fn hit(id: i64) -> Vec<SearchResultItem> {
    vec![SearchResultItem { id, sender: format!("sender {}", id), snippet: format!("snippet {}", id) }]
}

fn answer(lookup: SearchLookup) -> Option<Vec<i64>> {
    match lookup {
        SearchLookup::Answer(hits) => Some(hits.iter().map(|h| h.id).collect()),
        SearchLookup::Search { .. } => None,
    }
}

#[test]
fn empty_term_has_no_hits() {
    let mut cache = SearchCache::new();
    assert_eq!(answer(search_messages(&mut cache, "")), Some(Vec::new()));
}

#[test]
fn unknown_term_asks_for_a_search_with_its_pattern() {
    let mut cache = SearchCache::new();
    match search_messages(&mut cache, "급식") {
        SearchLookup::Search { pattern } => assert_eq!(pattern, "%급식%"),
        SearchLookup::Answer(_) => panic!("nothing was stored yet"),
    }
}

#[test]
fn stored_hits_are_answered_from_the_cache() {
    let mut cache = SearchCache::new();
    let handed_on = remember_search(&mut cache, "a", hit(1));
    assert_eq!(handed_on.len(), 1);
    assert_eq!(handed_on[0].snippet, "snippet 1");
    assert_eq!(answer(search_messages(&mut cache, "a")), Some(vec![1]));
    assert_eq!(answer(search_messages(&mut cache, "A")), None);
    match search_messages(&mut cache, "a") {
        SearchLookup::Answer(hits) => {
            assert_eq!(hits[0].sender, "sender 1");
            assert_eq!(hits[0].snippet, "snippet 1");
        }
        SearchLookup::Search { .. } => panic!("the term was stored"),
    }
}

#[test]
fn storing_again_replaces_the_hits() {
    let mut cache = SearchCache::new();
    remember_search(&mut cache, "a", hit(1));
    remember_search(&mut cache, "a", hit(2));
    assert_eq!(answer(search_messages(&mut cache, "a")), Some(vec![2]));
    remember_search(&mut cache, "a", Vec::new());
    assert_eq!(answer(search_messages(&mut cache, "a")), Some(Vec::new()));
}

#[test]
fn least_recently_used_term_leaves_a_full_cache() {
    assert_eq!(SEARCH_CACHE_CAPACITY, 50);
    let mut cache = SearchCache::new();
    for i in 0..50 {
        remember_search(&mut cache, &format!("term {}", i), hit(i));
    }
    for i in 0..50 {
        assert_eq!(answer(search_messages(&mut cache, &format!("term {}", i))), Some(vec![i]));
    }
    assert_eq!(answer(search_messages(&mut cache, "term 0")), Some(vec![0]));
    remember_search(&mut cache, "one more", hit(100));
    assert_eq!(answer(search_messages(&mut cache, "term 1")), None);
    assert_eq!(answer(search_messages(&mut cache, "term 0")), Some(vec![0]));
    assert_eq!(answer(search_messages(&mut cache, "term 2")), Some(vec![2]));
    assert_eq!(answer(search_messages(&mut cache, "one more")), Some(vec![100]));
}

#[test]
fn lookup_counts_as_use() {
    let mut cache = SearchCache::new();
    for i in 0..50 {
        remember_search(&mut cache, &format!("term {}", i), hit(i));
    }
    assert!(cache.get("term 0").is_some());
    cache.put("new 1".to_string(), hit(1));
    cache.put("new 2".to_string(), hit(2));
    assert!(cache.get("term 0").is_some());
    assert!(cache.get("term 1").is_none());
    assert!(cache.get("term 2").is_none());
    assert!(cache.get("term 3").is_some());
}

#[test]
fn copy_of_results_has_the_same_items() {
    let source = vec![
        SearchResultItem { id: 1, sender: "a".to_string(), snippet: "x".to_string() },
        SearchResultItem { id: 2, sender: "b".to_string(), snippet: "y".to_string() },
    ];
    let copy = copy_results(&source);
    assert_eq!(copy.len(), 2);
    assert_eq!((copy[1].id, copy[1].sender.as_str(), copy[1].snippet.as_str()), (2, "b", "y"));
    assert!(copy_results(&Vec::new()).is_empty());
}
