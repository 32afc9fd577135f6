//! The cache in front of the substring search of the foreign store: a
//! bounded map from search terms to their hits that forgets the entry that
//! was used least recently.

use crate::models::{result_views, SearchResultItem, SearchResultView};
use crate::reader::{like_pattern, like_pattern_of};
use lru::LruCache;
use vstd::prelude::*;

verus! {

/// How many search terms the cache remembers.
pub const SEARCH_CACHE_CAPACITY: usize = 50;

/// Runs the substring search: the parameter is the pattern. At most a
/// hundred hits come back, newest first.
pub const LIKE_SEARCH_SQL: &'static str =
    "SELECT MessageKey, Sender, substr(MessageText, 1, 100) FROM tbl_recv \
WHERE Sender LIKE ?1 OR MessageText LIKE ?1 ORDER BY ReceiveDate DESC, MessageKey DESC LIMIT 100";

#[verifier::external_type_specification]
#[verifier::external_body]
#[verifier::reject_recursive_types(K)]
#[verifier::reject_recursive_types(V)]
#[verifier::reject_recursive_types(S)]
pub struct ExLruCache<K, V, S>(LruCache<K, V, S>);

#[verifier::external_type_specification]
#[verifier::external_body]
pub struct ExDefaultHasher(lru::DefaultHasher);

/// One entry of the cache: a search term and its hits.
pub type Entry = (Seq<char>, Seq<SearchResultView>);

/// What an `lru::LruCache` of search results holds, the entry used most
/// recently first.
pub uninterp spec fn cache_entries(cache: LruCache<String, Vec<SearchResultItem>>) -> Seq<Entry>;

/// How many entries an `lru::LruCache` of search results was made to hold.
pub uninterp spec fn cache_limit(cache: LruCache<String, Vec<SearchResultItem>>) -> nat;

/// Index of the first entry with the key `key`, or `entries.len()` if there
/// is none.
pub open spec fn position_of(entries: Seq<Entry>, key: Seq<char>) -> int
    decreases entries.len(),
{
    if entries.len() == 0 || entries[0].0 == key {
        0
    } else {
        1 + position_of(entries.drop_first(), key)
    }
}

/// `entries` with the entry at `index` moved to the front.
pub open spec fn touched(entries: Seq<Entry>, index: int) -> Seq<Entry> {
    seq![entries[index]] + entries.remove(index)
}

/// `entries` after `key` is put with `hits`, in a cache that holds at most
/// `limit` entries: the new entry stands first; it takes the place of the
/// entry with the same key if there is one, else that of the last entry if
/// the cache is full.
pub open spec fn with_entry(entries: Seq<Entry>, limit: nat, key: Seq<char>, hits: Seq<SearchResultView>) -> Seq<Entry> {
    let at = position_of(entries, key);
    if at < entries.len() {
        seq![(key, hits)] + entries.remove(at)
    } else if entries.len() == limit {
        seq![(key, hits)] + entries.drop_last()
    } else {
        seq![(key, hits)] + entries
    }
}

/// `lru::LruCache::new` with the capacity `capacity`: an empty cache that
/// holds at most `capacity` entries. The cache sets its table up for that
/// many entries at once, so a capacity of zero and one beyond what a table
/// can be set up for are left out.
#[verifier::external_body]
fn lru_new(capacity: usize) -> (cache: LruCache<String, Vec<SearchResultItem>>)
    requires
        0 < capacity <= 0xffff,
    ensures
        cache_entries(cache) == Seq::<Entry>::empty(),
        cache_limit(cache) == capacity,
{
    LruCache::new(std::num::NonZeroUsize::new(capacity).unwrap())
}

/// `lru::LruCache::get`: the hits stored for `key`, if any. An entry that is
/// found becomes the most recently used; nothing else changes.
#[verifier::external_body]
fn lru_get<'a>(cache: &'a mut LruCache<String, Vec<SearchResultItem>>, key: &str) -> (found: Option<
    &'a Vec<SearchResultItem>,
>)
    ensures
        cache_limit(*final(cache)) == cache_limit(*old(cache)),
        match found {
            Some(hits) => {
                let at = position_of(cache_entries(*old(cache)), key@);
                &&& at < cache_entries(*old(cache)).len()
                &&& result_views(hits@) == cache_entries(*old(cache))[at].1
                &&& cache_entries(*final(cache)) == touched(cache_entries(*old(cache)), at)
            },
            None => {
                &&& position_of(cache_entries(*old(cache)), key@) == cache_entries(
                    *old(cache),
                ).len()
                &&& cache_entries(*final(cache)) == cache_entries(*old(cache))
            },
        },
{
    cache.get(key)
}

/// `lru::LruCache::put`: stores `hits` for `key` as the most recently used
/// entry. An entry with the same key is replaced; else, where the cache
/// holds as many entries as it was made for, the least recently used entry
/// leaves.
#[verifier::external_body]
fn lru_put(cache: &mut LruCache<String, Vec<SearchResultItem>>, key: String, hits: Vec<SearchResultItem>)
    requires
        cache_entries(*old(cache)).len() <= cache_limit(*old(cache)),
    ensures
        cache_limit(*final(cache)) == cache_limit(*old(cache)),
        cache_entries(*final(cache)) == with_entry(
            cache_entries(*old(cache)),
            cache_limit(*old(cache)),
            key@,
            result_views(hits@),
        ),
{
    cache.put(key, hits);
}

/// The cache of search results.
pub struct SearchCache {
    inner: LruCache<String, Vec<SearchResultItem>>,
}

/// What a lookup in the cache leads to.
#[derive(Debug)]
pub enum SearchLookup {
    /// The answer is known: these are the hits.
    Answer(Vec<SearchResultItem>),
    /// The store has to be searched with this pattern; the hits are then to
    /// be stored in the cache.
    Search { pattern: String },
}

/// Whether no two entries have the same key.
pub open spec fn distinct_keys(entries: Seq<Entry>) -> bool {
    forall|i: int, j: int|
        0 <= i < j < entries.len() ==> (#[trigger] entries[i]).0 != (#[trigger] entries[j]).0
}

/// `position_of` is within bounds, points at an entry with the key when it
/// is inside, and no earlier entry has the key.
pub proof fn lemma_position_of(entries: Seq<Entry>, key: Seq<char>)
    ensures
        0 <= position_of(entries, key) <= entries.len(),
        position_of(entries, key) < entries.len() ==> entries[position_of(entries, key)].0 == key,
        forall|j: int| 0 <= j < position_of(entries, key) ==> (#[trigger] entries[j]).0 != key,
    decreases entries.len(),
{
    if entries.len() == 0 || entries[0].0 == key {
    } else {
        let rest = entries.drop_first();
        lemma_position_of(rest, key);
        assert forall|j: int| 0 <= j < position_of(entries, key) implies (#[trigger] entries[j]).0
            != key by {
            if j > 0 {
                assert(entries[j] == rest[j - 1]);
            }
        }
    }
}

impl SearchCache {
    /// The entries of the cache, the one used most recently first.
    pub closed spec fn entries(&self) -> Seq<Entry> {
        cache_entries(self.inner)
    }

    /// How many entries the cache holds at most.
    pub closed spec fn limit(&self) -> nat {
        cache_limit(self.inner)
    }

    /// The cache holds no more entries than it was made for, and no term
    /// twice.
    pub open spec fn wf(&self) -> bool {
        &&& 0 < self.limit()
        &&& self.entries().len() <= self.limit()
        &&& distinct_keys(self.entries())
    }

    /// The hits that the cache holds for `term`, if any.
    pub open spec fn cached(&self, term: Seq<char>) -> Option<Seq<SearchResultView>> {
        let at = position_of(self.entries(), term);
        if at < self.entries().len() {
            Some(self.entries()[at].1)
        } else {
            None
        }
    }

    /// An empty cache for `SEARCH_CACHE_CAPACITY` search terms.
    pub fn new() -> (cache: SearchCache)
        ensures
            cache.wf(),
            cache.entries() == Seq::<Entry>::empty(),
            cache.limit() == SEARCH_CACHE_CAPACITY,
    {
        SearchCache { inner: lru_new(SEARCH_CACHE_CAPACITY) }
    }

    /// Looks a term up. What is found becomes the most recently used entry.
    pub fn get(&mut self, term: &str) -> (found: Option<Vec<SearchResultItem>>)
        requires
            old(self).wf(),
        ensures
            final(self).wf(),
            final(self).limit() == old(self).limit(),
            match found {
                Some(hits) => old(self).cached(term@) == Some(result_views(hits@)),
                None => old(self).cached(term@) is None,
            },
            final(self).entries() == (if old(self).cached(term@) is Some {
                touched(old(self).entries(), position_of(old(self).entries(), term@))
            } else {
                old(self).entries()
            }),
            forall|other: Seq<char>| final(self).cached(other) == old(self).cached(other),
    {
        let ghost before = self.entries();
        let found = match lru_get(&mut self.inner, term) {
            Some(hits) => Some(copy_results(hits)),
            None => None,
        };
        proof {
            lemma_position_of(before, term@);
            if found is Some {
                let at = position_of(before, term@);
                lemma_touched_keeps_keys_distinct(before, at);
                assert forall|other: Seq<char>| self.cached(other) == old(self).cached(other) by {
                    lemma_touched_keeps_entry(before, at, other);
                }
            }
        }
        found
    }

    /// Stores the hits of a term as the most recently used entry. Where the
    /// cache is full and the term is new, the least recently used entry
    /// leaves.
    pub fn put(&mut self, term: String, hits: Vec<SearchResultItem>)
        requires
            old(self).wf(),
        ensures
            final(self).wf(),
            final(self).limit() == old(self).limit(),
            final(self).entries() == with_entry(
                old(self).entries(),
                old(self).limit(),
                term@,
                result_views(hits@),
            ),
            final(self).cached(term@) == Some(result_views(hits@)),
    {
        let ghost before = self.entries();
        proof {
            lemma_with_entry_keeps_order(before, self.limit(), term@, result_views(hits@));
        }
        lru_put(&mut self.inner, term, hits);
    }
}

/// Moving an entry to the front keeps the keys distinct.
pub proof fn lemma_touched_keeps_keys_distinct(entries: Seq<Entry>, at: int)
    requires
        0 <= at < entries.len(),
        distinct_keys(entries),
    ensures
        distinct_keys(touched(entries, at)),
        touched(entries, at).len() == entries.len(),
{
    let moved = touched(entries, at);
    let rest = entries.remove(at);
    assert forall|i: int| 0 <= i < moved.len() implies #[trigger] moved[i] == (if i == 0 {
        entries[at]
    } else if i <= at {
        entries[i - 1]
    } else {
        entries[i]
    }) by {
        if i > 0 {
            assert(moved[i] == rest[i - 1]);
        }
    }
}

/// Moving an entry to the front changes nothing about what is found for a
/// key.
pub proof fn lemma_touched_keeps_entry(entries: Seq<Entry>, at: int, key: Seq<char>)
    requires
        0 <= at < entries.len(),
        distinct_keys(entries),
    ensures
        (position_of(entries, key) < entries.len()) == (position_of(touched(entries, at), key)
            < entries.len()),
        position_of(entries, key) < entries.len() ==> touched(entries, at)[position_of(
            touched(entries, at),
            key,
        )] == entries[position_of(entries, key)],
{
    let moved = touched(entries, at);
    let rest = entries.remove(at);
    assert forall|i: int| 0 <= i < moved.len() implies #[trigger] moved[i] == (if i == 0 {
        entries[at]
    } else if i <= at {
        entries[i - 1]
    } else {
        entries[i]
    }) by {
        if i > 0 {
            assert(moved[i] == rest[i - 1]);
        }
    }
    lemma_touched_keeps_keys_distinct(entries, at);
    lemma_position_of(entries, key);
    lemma_position_of(moved, key);
    let before = position_of(entries, key);
    let after = position_of(moved, key);
    if before < entries.len() {
        let target = if before == at {
            0
        } else if before < at {
            before + 1
        } else {
            before
        };
        assert(moved[target] == entries[before]);
        if after >= moved.len() {
            assert(moved[target].0 != key);
        } else if after != target {
            if after < target {
                assert(moved[after].0 != moved[target].0);
            } else {
                assert(moved[target].0 != moved[after].0);
            }
        }
    }
    if after < moved.len() {
        let source = if after == 0 {
            at
        } else if after <= at {
            after - 1
        } else {
            after
        };
        assert(entries[source] == moved[after]);
        if before >= entries.len() {
            assert(entries[source].0 != key);
        }
    }
}

/// Putting an entry keeps the cache within its limit and the keys distinct,
/// and the entry is then the one found for its key.
pub proof fn lemma_with_entry_keeps_order(
    entries: Seq<Entry>,
    limit: nat,
    key: Seq<char>,
    hits: Seq<SearchResultView>,
)
    requires
        0 < limit,
        entries.len() <= limit,
        distinct_keys(entries),
    ensures
        with_entry(entries, limit, key, hits).len() <= limit,
        distinct_keys(with_entry(entries, limit, key, hits)),
        position_of(with_entry(entries, limit, key, hits), key) == 0,
        with_entry(entries, limit, key, hits)[0] == (key, hits),
{
    lemma_position_of(entries, key);
    let at = position_of(entries, key);
    let after = with_entry(entries, limit, key, hits);
    let rest = if at < entries.len() {
        entries.remove(at)
    } else if entries.len() == limit {
        entries.drop_last()
    } else {
        entries
    };
    assert(after == seq![(key, hits)] + rest);
    // Each entry of the rest is an entry of the cache, in the same order.
    assert forall|i: int| 0 <= i < rest.len() implies #[trigger] rest[i] == entries[if at <= i {
        i + 1
    } else {
        i
    }] by {}
    assert forall|i: int, j: int| 0 <= i < j < after.len() implies (#[trigger] after[i]).0 != (
    #[trigger] after[j]).0 by {
        assert(after[j] == rest[j - 1]);
        if i > 0 {
            assert(after[i] == rest[i - 1]);
        }
    }
}

/// Starts a substring search for `search_term`. An empty term has no hits
/// and leaves the cache as it is; a term that the cache knows is answered
/// from it; any other term has to be looked for in the store, with the
/// pattern that matches every text that holds the term.
pub fn search_messages(cache: &mut SearchCache, search_term: &str) -> (lookup: SearchLookup)
    requires
        old(cache).wf(),
    ensures
        final(cache).wf(),
        final(cache).limit() == old(cache).limit(),
        forall|other: Seq<char>| final(cache).cached(other) == old(cache).cached(other),
        search_term@.len() == 0 ==> {
            &&& lookup matches SearchLookup::Answer(hits)
            &&& hits@.len() == 0
            &&& final(cache).entries() == old(cache).entries()
        },
        search_term@.len() > 0 ==> match old(cache).cached(search_term@) {
            Some(known) => {
                &&& lookup matches SearchLookup::Answer(hits) && result_views(hits@) == known
                &&& final(cache).entries() == touched(
                    old(cache).entries(),
                    position_of(old(cache).entries(), search_term@),
                )
            },
            None => {
                &&& lookup matches SearchLookup::Search { pattern } && pattern@ == like_pattern(
                    search_term@,
                )
                &&& final(cache).entries() == old(cache).entries()
            },
        },
{
    if search_term.unicode_len() == 0 {
        return SearchLookup::Answer(Vec::new());
    }
    match cache.get(search_term) {
        Some(hits) => SearchLookup::Answer(hits),
        None => SearchLookup::Search { pattern: like_pattern_of(search_term) },
    }
}

/// Stores the hits that the store gave for `search_term`, and hands them
/// on.
pub fn remember_search(cache: &mut SearchCache, search_term: &str, hits: Vec<SearchResultItem>) -> (
    answer: Vec<SearchResultItem>)
    requires
        old(cache).wf(),
    ensures
        final(cache).wf(),
        final(cache).limit() == old(cache).limit(),
        result_views(answer@) == result_views(hits@),
        final(cache).cached(search_term@) == Some(result_views(hits@)),
        final(cache).entries() == with_entry(
            old(cache).entries(),
            old(cache).limit(),
            search_term@,
            result_views(hits@),
        ),
{
    let stored = copy_results(&hits);
    cache.put(search_term.to_string(), stored);
    hits
}

/// A copy of a list of hits.
pub fn copy_results(hits: &Vec<SearchResultItem>) -> (copy: Vec<SearchResultItem>)
    ensures
        result_views(copy@) == result_views(hits@),
{
    let mut copy: Vec<SearchResultItem> = Vec::new();
    let mut i: usize = 0;
    while i < hits.len()
        invariant
            i <= hits.len(),
            copy.len() == i,
            forall|j: int| 0 <= j < i ==> (#[trigger] copy@[j])@ == hits@[j]@,
        decreases hits.len() - i,
    {
        let item = &hits[i];
        copy.push(
            SearchResultItem {
                id: item.id,
                sender: item.sender.clone(),
                snippet: item.snippet.clone(),
            },
        );
        i = i + 1;
    }
    proof {
        assert(result_views(copy@) =~= result_views(hits@));
    }
    copy
}

} // verus!
