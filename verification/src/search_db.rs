//! The search cache: a local copy of the messages with a full-text index
//! beside it. This module holds its schema, what a synchronisation writes,
//! and what its reads hand out.

use crate::content::{decode_content, message_content};
use crate::file_paths::{file_names, parse_file_paths};
use crate::json::{load_list, loaded_list, store_list, stored_list};
use crate::models::{clone_option, option_view};
use crate::preview::{extract_preview, preview_text};
use crate::reader::{text_or_empty, ForeignRow};
use vstd::prelude::*;

verus! {

/// After how many seconds without a synchronisation the cache is stale.
pub const SYNC_INTERVAL_SECS: i64 = 300;

/// How many messages a page of the cache holds when the caller names no
/// limit.
pub const DEFAULT_CACHE_PAGE_LIMIT: i64 = 100;

/// Lets readers go on while a synchronisation writes.
pub const JOURNAL_MODE_SQL: &'static str = "PRAGMA journal_mode=WAL;";

/// The base table: one row per message id.
pub const CREATE_MESSAGES_SQL: &'static str = "CREATE TABLE IF NOT EXISTS messages (
    id INTEGER PRIMARY KEY,
    sender TEXT NOT NULL,
    content TEXT NOT NULL,
    content_preview TEXT,
    receive_date TEXT,
    file_paths TEXT,
    created_at INTEGER NOT NULL,
    updated_at INTEGER NOT NULL
)";

/// Asks whether the full-text index exists.
pub const FTS_EXISTS_SQL: &'static str =
    "SELECT COUNT(*) > 0 FROM sqlite_master WHERE type='table' AND name='messages_fts'";

/// The full-text index over sender and content, keyed by the message id.
/// Diacritics are kept.
pub const CREATE_FTS_SQL: &'static str = "CREATE VIRTUAL TABLE messages_fts USING fts5(
    sender,
    content,
    content='messages',
    content_rowid='id',
    tokenize='unicode61 remove_diacritics 0'
)";

/// The triggers that carry every change of the base table over to the
/// full-text index; an update removes the old entry and adds the new one.
pub const CREATE_FTS_TRIGGERS_SQL: &'static str =
    "CREATE TRIGGER IF NOT EXISTS messages_ai AFTER INSERT ON messages BEGIN
    INSERT INTO messages_fts(rowid, sender, content)
    VALUES (new.id, new.sender, new.content);
END;
CREATE TRIGGER IF NOT EXISTS messages_ad AFTER DELETE ON messages BEGIN
    INSERT INTO messages_fts(messages_fts, rowid, sender, content)
    VALUES ('delete', old.id, old.sender, old.content);
END;
CREATE TRIGGER IF NOT EXISTS messages_au AFTER UPDATE ON messages BEGIN
    INSERT INTO messages_fts(messages_fts, rowid, sender, content)
    VALUES ('delete', old.id, old.sender, old.content);
    INSERT INTO messages_fts(rowid, sender, content)
    VALUES (new.id, new.sender, new.content);
END;";

/// The table of the one row that says how far the cache has come.
pub const CREATE_SYNC_METADATA_SQL: &'static str = "CREATE TABLE IF NOT EXISTS sync_metadata (
    id INTEGER PRIMARY KEY CHECK (id = 1),
    last_sync_time INTEGER NOT NULL,
    last_message_id INTEGER NOT NULL,
    total_messages INTEGER NOT NULL
)";

/// The indexes for the common orders.
pub const CREATE_INDEXES_SQL: &'static str =
    "CREATE INDEX IF NOT EXISTS idx_messages_receive_date ON messages(receive_date);
CREATE INDEX IF NOT EXISTS idx_messages_sender ON messages(sender);";

/// Reads the row that says how far the cache has come.
pub const SYNC_METADATA_SQL: &'static str =
    "SELECT last_sync_time, last_message_id, total_messages FROM sync_metadata WHERE id = 1";

/// Writes the row that says how far the cache has come.
pub const UPDATE_SYNC_METADATA_SQL: &'static str =
    "INSERT OR REPLACE INTO sync_metadata (id, last_sync_time, last_message_id, total_messages)
VALUES (1, ?1, ?2, ?3)";

/// Writes one message. Where a row with the same id exists it is updated in
/// place, so that the full-text index lets go of what the row held before.
pub const UPSERT_MESSAGE_SQL: &'static str =
    "INSERT INTO messages (id, sender, content, content_preview, receive_date, file_paths, created_at, updated_at)
VALUES (?1, ?2, ?3, ?4, ?5, ?6, ?7, ?8)
ON CONFLICT(id) DO UPDATE SET
    sender = excluded.sender,
    content = excluded.content,
    content_preview = excluded.content_preview,
    receive_date = excluded.receive_date,
    file_paths = excluded.file_paths,
    created_at = excluded.created_at,
    updated_at = excluded.updated_at";

/// Counts the messages of the cache.
pub const COUNT_MESSAGES_SQL: &'static str = "SELECT COUNT(*) FROM messages";

/// Reads the cached message whose id is the first parameter.
pub const CACHED_MESSAGE_SQL: &'static str =
    "SELECT id, sender, content, content_preview, receive_date, file_paths FROM messages WHERE id = ?1";

/// Reads one page of the cache, newest first; the parameters are limit and
/// offset.
pub const CACHED_PAGE_SQL: &'static str =
    "SELECT id, sender, content, content_preview, receive_date, file_paths FROM messages \
ORDER BY receive_date DESC, id DESC LIMIT ?1 OFFSET ?2";

/// How far the cache has come: when it was last synchronised, the largest
/// message id that it took in, and how many messages it then held.
#[derive(Clone, Copy, Debug, PartialEq, Eq, Structural)]
pub struct SyncMetadata {
    pub last_sync_time: i64,
    pub last_message_id: i64,
    pub total_messages: i64,
}

/// What one synchronisation did.
#[derive(Clone, Copy, Debug, PartialEq, Eq, Structural)]
pub struct SyncStats {
    pub new_messages: usize,
    pub updated_messages: usize,
    pub total_messages: usize,
    pub duration_ms: u64,
}

/// The state of the cache.
#[derive(Clone, Copy, Debug, PartialEq, Eq, Structural)]
pub struct SearchDbStats {
    pub total_messages: i64,
    pub last_sync_time: i64,
    pub last_message_id: i64,
    pub db_size_bytes: u64,
}

/// One row as a synchronisation writes it into the base table.
#[derive(Clone, Debug)]
pub struct CacheRecord {
    pub id: i64,
    pub sender: String,
    pub content: String,
    pub content_preview: String,
    pub receive_date: Option<String>,
    pub file_paths_json: String,
    pub created_at: i64,
    pub updated_at: i64,
}

/// What a `CacheRecord` holds.
pub struct CacheRecordView {
    pub id: int,
    pub sender: Seq<char>,
    pub content: Seq<char>,
    pub content_preview: Seq<char>,
    pub receive_date: Option<Seq<char>>,
    pub file_paths_json: Seq<char>,
    pub created_at: int,
    pub updated_at: int,
}

impl View for CacheRecord {
    type V = CacheRecordView;

    open spec fn view(&self) -> CacheRecordView {
        CacheRecordView {
            id: self.id as int,
            sender: self.sender@,
            content: self.content@,
            content_preview: self.content_preview@,
            receive_date: option_view(self.receive_date),
            file_paths_json: self.file_paths_json@,
            created_at: self.created_at as int,
            updated_at: self.updated_at as int,
        }
    }
}

/// The views of a sequence of records.
pub open spec fn record_views(v: Seq<CacheRecord>) -> Seq<CacheRecordView> {
    v.map_values(|r: CacheRecord| r@)
}

/// What a synchronisation is to write, and what it found.
#[derive(Debug)]
pub struct SyncPlan {
    /// The rows to write, in the order of the rows read.
    pub records: Vec<CacheRecord>,
    /// How many rows were read.
    pub new_count: usize,
    /// The largest id among the rows read and the id that the cache had come
    /// to before.
    pub max_id: i64,
    /// The id that the cache had come to before.
    pub last_synced_id: i64,
}

/// One row of the base table, as read back.
#[derive(Clone, Debug)]
pub struct CachedRow {
    pub id: i64,
    pub sender: String,
    pub content: String,
    pub content_preview: String,
    pub receive_date: Option<String>,
    pub file_paths_json: String,
}

/// One message of the cache.
#[derive(Clone, Debug)]
pub struct CachedMessage {
    pub id: i64,
    pub sender: String,
    pub content: String,
    pub content_preview: String,
    pub receive_date: Option<String>,
    pub file_paths: Vec<String>,
}

/// What a `CachedMessage` holds.
pub struct CachedMessageView {
    pub id: int,
    pub sender: Seq<char>,
    pub content: Seq<char>,
    pub content_preview: Seq<char>,
    pub receive_date: Option<Seq<char>>,
    pub file_paths: Seq<Seq<char>>,
}

impl View for CachedMessage {
    type V = CachedMessageView;

    open spec fn view(&self) -> CachedMessageView {
        CachedMessageView {
            id: self.id as int,
            sender: self.sender@,
            content: self.content@,
            content_preview: self.content_preview@,
            receive_date: option_view(self.receive_date),
            file_paths: crate::text::views(self.file_paths@),
        }
    }
}

/// The views of a sequence of cached messages.
pub open spec fn cached_views(v: Seq<CachedMessage>) -> Seq<CachedMessageView> {
    v.map_values(|m: CachedMessage| m@)
}

/// One page of the cache and the number of messages that the cache holds.
#[derive(Debug)]
pub struct PaginatedCachedMessages {
    pub messages: Vec<CachedMessage>,
    pub total_count: i64,
}

/// The statements that set the cache up, in order. The full-text index and
/// its triggers are created only where the index does not exist yet; the
/// rest creates what is missing and leaves what is there.
pub open spec fn schema_statements(fts_exists: bool) -> Seq<Seq<char>> {
    let head = seq![JOURNAL_MODE_SQL@, CREATE_MESSAGES_SQL@];
    let index = if fts_exists {
        Seq::empty()
    } else {
        seq![CREATE_FTS_SQL@, CREATE_FTS_TRIGGERS_SQL@]
    };
    head + index + seq![CREATE_SYNC_METADATA_SQL@, CREATE_INDEXES_SQL@]
}

/// The id that the cache has come to: that of its metadata, or 0 where it
/// was never synchronised.
pub open spec fn last_synced_id(meta: Option<SyncMetadata>) -> int {
    match meta {
        Some(m) => m.last_message_id as int,
        None => 0,
    }
}

/// The larger of `start` and the ids of `rows`.
pub open spec fn high_water_mark(start: int, rows: Seq<ForeignRow>) -> int
    decreases rows.len(),
{
    if rows.len() == 0 {
        start
    } else {
        let before = high_water_mark(start, rows.drop_last());
        if rows.last().id > before {
            rows.last().id as int
        } else {
            before
        }
    }
}

/// The row that a synchronisation at time `now` writes for `row`: content
/// and attachment names are decoded as for reading, the preview is made of
/// the content, and the names are stored as JSON text.
pub open spec fn record_of(row: ForeignRow, now: i64) -> CacheRecordView {
    let content = message_content(row.text, row.body);
    CacheRecordView {
        id: row.id as int,
        sender: text_or_empty(row.sender),
        content,
        content_preview: preview_text(content),
        receive_date: option_view(row.receive_date),
        file_paths_json: stored_list(file_names(text_or_empty(row.file_path))),
        created_at: now as int,
        updated_at: now as int,
    }
}

/// The rows that a synchronisation at time `now` writes for `rows`.
pub open spec fn records_of(rows: Seq<ForeignRow>, now: i64) -> Seq<CacheRecordView> {
    rows.map_values(|row: ForeignRow| record_of(row, now))
}

/// Whether the record at `index` was written. A record of which nothing is
/// said was not.
pub open spec fn was_written(written: Seq<bool>, index: int) -> bool {
    0 <= index < written.len() && written[index]
}

/// The records that were written, in their order.
pub open spec fn written_records(records: Seq<CacheRecordView>, written: Seq<bool>) -> Seq<
    CacheRecordView,
>
    decreases records.len(),
{
    if records.len() == 0 {
        Seq::empty()
    } else {
        let before = written_records(records.drop_last(), written);
        if was_written(written, records.len() - 1) {
            before.push(records.last())
        } else {
            before
        }
    }
}

/// The larger of `start` and the ids of `records`.
pub open spec fn mark_of(start: int, records: Seq<CacheRecordView>) -> int
    decreases records.len(),
{
    if records.len() == 0 {
        start
    } else {
        let before = mark_of(start, records.drop_last());
        if records.last().id > before {
            records.last().id
        } else {
            before
        }
    }
}

/// The metadata that a synchronisation leaves behind.
pub open spec fn metadata_after(max_id: i64, total_messages: i64, now: i64) -> SyncMetadata {
    SyncMetadata { last_sync_time: now, last_message_id: max_id, total_messages }
}

/// A count of the store as a `usize`: 0 for a negative count, and the
/// largest `usize` for one above it.
pub open spec fn count_of(n: i64) -> usize {
    if n < 0 {
        0
    } else if n > usize::MAX {
        usize::MAX
    } else {
        n as usize
    }
}

/// The message that a row of the base table stands for.
pub open spec fn cached_message_of(row: CachedRow) -> CachedMessageView {
    CachedMessageView {
        id: row.id as int,
        sender: row.sender@,
        content: row.content@,
        content_preview: row.content_preview@,
        receive_date: option_view(row.receive_date),
        file_paths: loaded_list(row.file_paths_json@),
    }
}

/// The messages that rows of the base table stand for, in the same order.
pub open spec fn cached_messages_of(rows: Seq<CachedRow>) -> Seq<CachedMessageView> {
    rows.map_values(|row: CachedRow| cached_message_of(row))
}

/// The statements that set the cache up, in order.
pub fn init_search_db(fts_exists: bool) -> (statements: Vec<&'static str>)
    ensures
        statements@.map_values(|s: &'static str| s@) == schema_statements(fts_exists),
{
    let mut statements: Vec<&'static str> = Vec::new();
    statements.push(JOURNAL_MODE_SQL);
    statements.push(CREATE_MESSAGES_SQL);
    if !fts_exists {
        statements.push(CREATE_FTS_SQL);
        statements.push(CREATE_FTS_TRIGGERS_SQL);
    }
    statements.push(CREATE_SYNC_METADATA_SQL);
    statements.push(CREATE_INDEXES_SQL);
    proof {
        assert(statements@.map_values(|s: &'static str| s@) =~= schema_statements(fts_exists));
    }
    statements
}

/// Whether the cache is due for a synchronisation at time `now`: it is when
/// it was never synchronised, or more than `SYNC_INTERVAL_SECS` seconds
/// have passed since.
pub fn should_sync(last_sync_time: Option<i64>, now: i64) -> (due: bool)
    ensures
        due == match last_sync_time {
            Some(time) => now - time > SYNC_INTERVAL_SECS,
            None => true,
        },
{
    match last_sync_time {
        Some(time) => {
            let elapsed: i128 = now as i128 - time as i128;
            elapsed > SYNC_INTERVAL_SECS as i128
        },
        None => true,
    }
}

/// The row that a synchronisation at time `now_ts` writes for `row`.
pub fn cache_record(row: &ForeignRow, now_ts: i64) -> (record: CacheRecord)
    ensures
        record@ == record_of(*row, now_ts),
{
    let sender = match &row.sender {
        Some(s) => s.clone(),
        None => String::new(),
    };
    let file_paths = match &row.file_path {
        Some(p) => parse_file_paths(p.as_str()),
        None => {
            proof {
                reveal_strlit("");
                assert(""@ =~= Seq::<char>::empty());
            }
            parse_file_paths("")
        },
    };
    let content = decode_content(&row.text, &row.body);
    let content_preview = extract_preview(content.as_str());
    CacheRecord {
        id: row.id,
        sender,
        content,
        content_preview,
        receive_date: clone_option(&row.receive_date),
        file_paths_json: store_list(&file_paths),
        created_at: now_ts,
        updated_at: now_ts,
    }
}

/// Plans one synchronisation at time `now_ts`. `meta` is the metadata of the
/// cache, if it has any, and `rows` are the rows of the foreign store whose
/// id is above the id that the cache has come to, oldest first. Every row is
/// to be written; the new high-water mark is the largest id seen and never
/// below the old one. Where a row cannot be written, `skip_failed` takes it
/// out of the plan again.
pub fn sync_from_udb(meta: &Option<SyncMetadata>, rows: &Vec<ForeignRow>, now_ts: i64) -> (plan:
    SyncPlan)
    ensures
        record_views(plan.records@) == records_of(rows@, now_ts),
        plan.new_count == rows@.len(),
        plan.max_id == high_water_mark(last_synced_id(*meta), rows@),
        plan.max_id >= last_synced_id(*meta),
        plan.last_synced_id == last_synced_id(*meta),
{
    let last: i64 = match meta {
        Some(m) => m.last_message_id,
        None => 0,
    };
    let mut max_id: i64 = last;
    let mut records: Vec<CacheRecord> = Vec::new();
    let mut i: usize = 0;
    proof {
        assert(rows@.take(0) =~= Seq::<ForeignRow>::empty());
    }
    while i < rows.len()
        invariant
            i <= rows.len(),
            records.len() == i,
            forall|j: int| 0 <= j < i ==> (#[trigger] records@[j])@ == record_of(rows@[j], now_ts),
            max_id == high_water_mark(last_synced_id(*meta), rows@.take(i as int)),
            max_id >= last_synced_id(*meta),
        decreases rows.len() - i,
    {
        proof {
            assert(rows@.take(i + 1).drop_last() =~= rows@.take(i as int));
        }
        records.push(cache_record(&rows[i], now_ts));
        if rows[i].id > max_id {
            max_id = rows[i].id;
        }
        i = i + 1;
    }
    proof {
        assert(rows@.take(rows.len() as int) =~= rows@);
        assert(record_views(records@) =~= records_of(rows@, now_ts));
    }
    SyncPlan { records, new_count: rows.len(), max_id, last_synced_id: last }
}

/// Takes out of a plan the records that could not be written. `written`
/// says of each record of the plan, in order, whether it was written. What
/// is left counts as new, and the high-water mark is the largest id among
/// what is left and the id that the cache had come to before: a row that
/// failed neither counts nor moves the mark.
pub fn skip_failed(plan: SyncPlan, written: &Vec<bool>) -> (kept: SyncPlan)
    ensures
        record_views(kept.records@) == written_records(record_views(plan.records@), written@),
        kept.new_count == kept.records@.len(),
        kept.max_id == mark_of(plan.last_synced_id as int, record_views(kept.records@)),
        kept.max_id >= plan.last_synced_id,
        kept.last_synced_id == plan.last_synced_id,
{
    let ghost olds = record_views(plan.records@);
    let last = plan.last_synced_id;
    let mut records = plan.records;
    let n = records.len();
    let mut max_id = last;
    let mut i: usize = 0;
    let mut k: usize = 0;
    proof {
        assert(olds.take(0) =~= Seq::<CacheRecordView>::empty());
        assert(record_views(records@).take(0) =~= Seq::<CacheRecordView>::empty());
    }
    while k < n
        invariant
            i <= k <= n == olds.len(),
            records@.len() == i + (n - k),
            forall|j: int| 0 <= j < n - k ==> (#[trigger] records@[i + j])@ == olds[k + j],
            record_views(records@).take(i as int) == written_records(olds.take(k as int), written@),
            max_id == mark_of(last as int, record_views(records@).take(i as int)),
            max_id >= last,
        decreases n - k,
    {
        let ghost before = record_views(records@);
        proof {
            assert(olds.take(k + 1).drop_last() =~= olds.take(k as int));
            assert(olds.take(k + 1).last() == olds[k as int]);
            assert(records@[i + 0]@ == olds[k + 0]);
        }
        if k < written.len() && written[k] {
            if records[i].id > max_id {
                max_id = records[i].id;
            }
            proof {
                assert(before.take(i + 1).drop_last() =~= before.take(i as int));
                assert(before.take(i + 1) =~= before.take(i as int).push(olds[k as int]));
                assert forall|j: int| 0 <= j < n - (k + 1) implies (#[trigger] records@[i + 1
                    + j])@ == olds[k + 1 + j] by {
                    assert(records@[i + (j + 1)]@ == olds[k + (j + 1)]);
                }
            }
            i = i + 1;
        } else {
            let ghost full = records@;
            records.remove(i);
            proof {
                assert(record_views(records@).take(i as int) =~= before.take(i as int));
                assert forall|j: int| 0 <= j < n - (k + 1) implies (#[trigger] records@[i + j])@
                    == olds[k + 1 + j] by {
                    assert(records@[i + j] == full[i + (j + 1)]);
                    assert(full[i + (j + 1)]@ == olds[k + (j + 1)]);
                }
            }
        }
        k = k + 1;
    }
    proof {
        assert(olds.take(n as int) =~= olds);
        assert(record_views(records@).take(i as int) =~= record_views(records@));
    }
    SyncPlan { new_count: records.len(), records, max_id, last_synced_id: last }
}

/// The metadata to write at the end of a synchronisation at time `now_ts`,
/// after which the cache holds `total_messages` messages.
pub fn update_sync_metadata(plan: &SyncPlan, total_messages: i64, now_ts: i64) -> (meta:
    SyncMetadata)
    ensures
        meta == metadata_after(plan.max_id, total_messages, now_ts),
{
    SyncMetadata { last_sync_time: now_ts, last_message_id: plan.max_id, total_messages }
}

/// A count of the store as a `usize`.
pub fn count_as_usize(n: i64) -> (r: usize)
    ensures
        r == count_of(n),
{
    if n < 0 {
        0
    } else if n as u64 > usize::MAX as u64 {
        usize::MAX
    } else {
        n as usize
    }
}

/// What a synchronisation reports: the rows read count as new, none as
/// updated.
pub fn sync_stats(plan: &SyncPlan, total_messages: i64, duration_ms: u64) -> (stats: SyncStats)
    ensures
        stats == (SyncStats {
            new_messages: plan.new_count,
            updated_messages: 0,
            total_messages: count_of(total_messages),
            duration_ms,
        }),
{
    SyncStats {
        new_messages: plan.new_count,
        updated_messages: 0,
        total_messages: count_as_usize(total_messages),
        duration_ms,
    }
}

/// The state of the cache: what its metadata says, or zeros where it was
/// never synchronised, and the size of its file.
pub fn get_search_db_stats(meta: &Option<SyncMetadata>, db_size_bytes: u64) -> (stats:
    SearchDbStats)
    ensures
        stats == match *meta {
            Some(m) => SearchDbStats {
                total_messages: m.total_messages,
                last_sync_time: m.last_sync_time,
                last_message_id: m.last_message_id,
                db_size_bytes,
            },
            None => SearchDbStats {
                total_messages: 0,
                last_sync_time: 0,
                last_message_id: 0,
                db_size_bytes,
            },
        },
{
    match meta {
        Some(m) => SearchDbStats {
            total_messages: m.total_messages,
            last_sync_time: m.last_sync_time,
            last_message_id: m.last_message_id,
            db_size_bytes,
        },
        None => SearchDbStats {
            total_messages: 0,
            last_sync_time: 0,
            last_message_id: 0,
            db_size_bytes,
        },
    }
}

/// The message that a row of the base table stands for.
pub fn cached_message(row: &CachedRow) -> (message: CachedMessage)
    ensures
        message@ == cached_message_of(*row),
{
    CachedMessage {
        id: row.id,
        sender: row.sender.clone(),
        content: row.content.clone(),
        content_preview: row.content_preview.clone(),
        receive_date: clone_option(&row.receive_date),
        file_paths: load_list(row.file_paths_json.as_str()),
    }
}

/// The cached message of a lookup by id, if the lookup gave a row.
pub fn get_cached_message(row: &Option<CachedRow>) -> (message: Option<CachedMessage>)
    ensures
        match *row {
            Some(found) => message matches Some(m) && m@ == cached_message_of(found),
            None => message is None,
        },
{
    match row {
        Some(found) => Some(cached_message(found)),
        None => None,
    }
}

/// Limit and offset of a page of the cache: what the caller names, or
/// `DEFAULT_CACHE_PAGE_LIMIT` and 0.
pub fn cached_page_bounds(limit: Option<i64>, offset: Option<i64>) -> (bounds: (i64, i64))
    ensures
        bounds.0 == match limit {
            Some(l) => l,
            None => DEFAULT_CACHE_PAGE_LIMIT,
        },
        bounds.1 == match offset {
            Some(o) => o,
            None => 0,
        },
{
    let l = match limit {
        Some(l) => l,
        None => DEFAULT_CACHE_PAGE_LIMIT,
    };
    let o = match offset {
        Some(o) => o,
        None => 0,
    };
    (l, o)
}

/// One page of the cache: the messages that the fetched rows stand for, and
/// the number of messages that the cache holds.
pub fn read_cached_messages(rows: &Vec<CachedRow>, total_count: i64) -> (page:
    PaginatedCachedMessages)
    ensures
        cached_views(page.messages@) == cached_messages_of(rows@),
        page.total_count == total_count,
{
    let mut messages: Vec<CachedMessage> = Vec::new();
    let mut i: usize = 0;
    while i < rows.len()
        invariant
            i <= rows.len(),
            messages.len() == i,
            forall|j: int| 0 <= j < i ==> (#[trigger] messages@[j])@ == cached_message_of(rows@[j]),
        decreases rows.len() - i,
    {
        messages.push(cached_message(&rows[i]));
        i = i + 1;
    }
    proof {
        assert(cached_views(messages@) =~= cached_messages_of(rows@));
    }
    PaginatedCachedMessages { messages, total_count }
}

/// Whether the cache holds any message.
pub fn is_cache_ready(count: i64) -> (ready: bool)
    ensures
        ready == (count > 0),
{
    count > 0
}

/// Whether `pulled` holds the rows of `store` whose id is above `last`, and
/// no others.
pub open spec fn pulled_from(pulled: Seq<ForeignRow>, store: Seq<ForeignRow>, last: int) -> bool {
    &&& forall|i: int|
        0 <= i < pulled.len() ==> (#[trigger] pulled[i]).id > last && store.contains(pulled[i])
    &&& forall|i: int|
        0 <= i < store.len() && (#[trigger] store[i]).id > last ==> pulled.contains(store[i])
}

/// The high-water mark after a run of synchronisations that start at
/// `start` and read `batches`, one after the other.
pub open spec fn mark_after(start: int, batches: Seq<Seq<ForeignRow>>) -> int
    decreases batches.len(),
{
    if batches.len() == 0 {
        start
    } else {
        high_water_mark(mark_after(start, batches.drop_last()), batches.last())
    }
}

/// The high-water mark is not below where it started nor below the id of a
/// row read, and it is the start or the id of a row read.
pub proof fn lemma_high_water_mark(start: int, rows: Seq<ForeignRow>)
    ensures
        high_water_mark(start, rows) >= start,
        forall|i: int| 0 <= i < rows.len() ==> (#[trigger] rows[i]).id <= high_water_mark(start, rows),
        high_water_mark(start, rows) == start || exists|i: int|
            0 <= i < rows.len() && (#[trigger] rows[i]).id == high_water_mark(start, rows),
    decreases rows.len(),
{
    if rows.len() > 0 {
        let earlier = rows.drop_last();
        lemma_high_water_mark(start, earlier);
        let mark = high_water_mark(start, rows);
        assert forall|i: int| 0 <= i < rows.len() implies (#[trigger] rows[i]).id <= mark by {
            if i < rows.len() - 1 {
                assert(rows[i] == earlier[i]);
            }
        }
        if mark != start {
            if rows.last().id == mark {
                assert(rows[rows.len() - 1].id == mark);
            } else {
                let i = choose|i: int|
                    0 <= i < earlier.len() && (#[trigger] earlier[i]).id == high_water_mark(
                        start,
                        earlier,
                    );
                assert(rows[i] == earlier[i]);
            }
        }
    }
}

/// The high-water mark never decreases: over any run of synchronisations, it
/// is after `later` of them at least what it was after `earlier` of them.
pub proof fn lemma_mark_never_decreases(
    start: int,
    batches: Seq<Seq<ForeignRow>>,
    earlier: int,
    later: int,
)
    requires
        0 <= earlier <= later <= batches.len(),
    ensures
        mark_after(start, batches.take(earlier)) <= mark_after(start, batches.take(later)),
    decreases later - earlier,
{
    if earlier < later {
        lemma_mark_never_decreases(start, batches, earlier, later - 1);
        assert(batches.take(later).drop_last() =~= batches.take(later - 1));
        lemma_high_water_mark(mark_after(start, batches.take(later - 1)), batches.take(later).last());
    }
}

/// After a synchronisation the high-water mark is the largest id of the
/// foreign store, provided that the store holds a row whose id is not below
/// the mark that the synchronisation started from.
pub proof fn lemma_mark_is_largest_id(
    last: int,
    store: Seq<ForeignRow>,
    pulled: Seq<ForeignRow>,
)
    requires
        pulled_from(pulled, store, last),
        exists|i: int| 0 <= i < store.len() && (#[trigger] store[i]).id >= last,
    ensures
        forall|i: int| 0 <= i < store.len() ==> (#[trigger] store[i]).id <= high_water_mark(last, pulled),
        exists|i: int|
            0 <= i < store.len() && (#[trigger] store[i]).id == high_water_mark(last, pulled),
{
    lemma_high_water_mark(last, pulled);
    let mark = high_water_mark(last, pulled);
    assert forall|i: int| 0 <= i < store.len() implies (#[trigger] store[i]).id <= mark by {
        if store[i].id > last {
            assert(pulled.contains(store[i]));
            let j = choose|j: int| 0 <= j < pulled.len() && pulled[j] == store[i];
            assert(pulled[j].id <= mark);
        }
    }
    if mark == last {
        let i = choose|i: int| 0 <= i < store.len() && (#[trigger] store[i]).id >= last;
        assert(store[i].id <= mark);
        assert(store[i].id == mark);
    } else {
        let j = choose|j: int| 0 <= j < pulled.len() && (#[trigger] pulled[j]).id == mark;
        assert(store.contains(pulled[j]));
        let i = choose|i: int| 0 <= i < store.len() && store[i] == pulled[j];
        assert(store[i].id == mark);
    }
}

/// A second synchronisation of a store that has not changed finds no row to
/// read. It thus writes no row, leaves the high-water mark where it is, and
/// writes the metadata that the first one wrote but for the time; where the
/// clock has not moved, the very same.
pub proof fn lemma_second_sync_writes_nothing(
    before: Option<SyncMetadata>,
    store: Seq<ForeignRow>,
    first: Seq<ForeignRow>,
    second: Seq<ForeignRow>,
    mark: i64,
    total_messages: i64,
    first_time: i64,
    second_time: i64,
)
    requires
        pulled_from(first, store, last_synced_id(before)),
        mark == high_water_mark(last_synced_id(before), first),
        pulled_from(second, store, last_synced_id(Some(metadata_after(mark, total_messages, first_time)))),
    ensures
        second.len() == 0,
        records_of(second, second_time).len() == 0,
        high_water_mark(mark as int, second) == mark,
        metadata_after(mark, total_messages, second_time) == (SyncMetadata {
            last_sync_time: second_time,
            ..metadata_after(mark, total_messages, first_time)
        }),
        second_time == first_time ==> metadata_after(mark, total_messages, second_time)
            == metadata_after(mark, total_messages, first_time),
{
    lemma_high_water_mark(last_synced_id(before), first);
    if second.len() > 0 {
        let row = second[0];
        assert(row.id > mark);
        assert(store.contains(row));
        let i = choose|i: int| 0 <= i < store.len() && store[i] == row;
        assert(store[i].id > last_synced_id(before));
        assert(first.contains(store[i]));
        let j = choose|j: int| 0 <= j < first.len() && first[j] == store[i];
        assert(first[j].id <= mark);
    }
}

/// The mark over the records of rows is the high-water mark of the rows.
pub proof fn lemma_mark_of_records(start: int, rows: Seq<ForeignRow>, now: i64)
    ensures
        mark_of(start, records_of(rows, now)) == high_water_mark(start, rows),
    decreases rows.len(),
{
    if rows.len() > 0 {
        lemma_mark_of_records(start, rows.drop_last(), now);
        assert(records_of(rows, now).drop_last() =~= records_of(rows.drop_last(), now));
    }
}

/// Where every record was written, nothing is taken out of the plan.
pub proof fn lemma_all_written_keeps_all(records: Seq<CacheRecordView>, written: Seq<bool>)
    requires
        forall|i: int| 0 <= i < records.len() ==> was_written(written, i),
    ensures
        written_records(records, written) == records,
    decreases records.len(),
{
    if records.len() > 0 {
        lemma_all_written_keeps_all(records.drop_last(), written);
        assert(records.drop_last().push(records.last()) =~= records);
    }
}

/// Where no record was written, the plan is left without records, and the
/// mark stays where it was.
pub proof fn lemma_none_written_keeps_none(
    start: int,
    records: Seq<CacheRecordView>,
    written: Seq<bool>,
)
    requires
        forall|i: int| 0 <= i < records.len() ==> !was_written(written, i),
    ensures
        written_records(records, written).len() == 0,
        mark_of(start, written_records(records, written)) == start,
    decreases records.len(),
{
    if records.len() > 0 {
        lemma_none_written_keeps_none(start, records.drop_last(), written);
    }
}

} // verus!
