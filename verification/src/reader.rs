//! Reading the foreign message store: the statements to run, their
//! parameters, and the messages that the rows stand for.

use crate::content::{decode_content, message_content, StoredValue};
use crate::file_paths::{file_names, parse_file_paths};
use crate::models::{
    clone_option, message_views, option_view, Message, MessageView, PaginatedMessages,
};
use crate::text::{append, chars_of, fields_view, join_texts, joined, string_of};
use vstd::prelude::*;

verus! {

/// The table of received messages in the foreign store.
pub const RECV_TABLE: &'static str = "tbl_recv";

/// How many messages a page holds when the caller names no limit.
pub const DEFAULT_PAGE_LIMIT: i64 = 50;

/// Asks whether the table named by the first parameter exists.
pub const TABLE_EXISTS_SQL: &'static str =
    "SELECT 1 FROM sqlite_master WHERE type='table' AND name=?1 LIMIT 1";

/// Asks for the largest message id alone.
pub const LATEST_ID_SQL: &'static str = "SELECT MAX(MessageKey) FROM tbl_recv";

/// Asks for the message whose id is the first parameter.
pub const MESSAGE_BY_ID_SQL: &'static str =
    "SELECT MessageKey, Sender, MessageText, MessageBody, ReceiveDate, FilePath \
FROM tbl_recv WHERE MessageKey = ?1";

/// Asks for every message, oldest id first.
pub const ALL_MESSAGES_SQL: &'static str =
    "SELECT MessageKey as id, Sender, MessageText, MessageBody, ReceiveDate, FilePath \
FROM tbl_recv ORDER BY MessageKey ASC";

/// Asks for the messages whose id is above the first parameter, oldest id
/// first.
pub const NEW_MESSAGES_SQL: &'static str =
    "SELECT MessageKey, Sender, MessageText, MessageBody, ReceiveDate, FilePath \
FROM tbl_recv WHERE MessageKey > ?1 ORDER BY MessageKey ASC";

/// Why a read of the foreign store failed as a whole.
#[derive(Clone, Copy, Debug, PartialEq, Eq, Structural)]
pub enum StoreError {
    /// The database file does not exist.
    DatabaseMissing,
    /// The database holds no table of received messages.
    TableMissing,
    /// No message has the id that was asked for.
    MessageNotFound,
    /// The database could not be opened, or a statement could not be
    /// prepared or run.
    Connection,
}

impl StoreError {
    /// What is said of the failure. `detail` names the file, the id or the
    /// cause; a missing table needs no detail.
    pub open spec fn description(self, detail: Seq<char>) -> Seq<char> {
        match self {
            StoreError::DatabaseMissing => "데이터베이스 파일을 찾을 수 없습니다: "@ + detail,
            StoreError::TableMissing => "tbl_recv 테이블을 찾을 수 없습니다"@,
            StoreError::MessageNotFound => "ID로 메시지 조회 실패: "@ + detail,
            StoreError::Connection => "데이터베이스 연결 실패: "@ + detail,
        }
    }

    /// What is said of the failure, for display.
    pub fn message(&self, detail: &str) -> (r: String)
        ensures
            r@ == self.description(detail@),
    {
        let mut out = match self {
            StoreError::DatabaseMissing => chars_of("데이터베이스 파일을 찾을 수 없습니다: "),
            StoreError::TableMissing => {
                return "tbl_recv 테이블을 찾을 수 없습니다".to_string();
            },
            StoreError::MessageNotFound => chars_of("ID로 메시지 조회 실패: "),
            StoreError::Connection => chars_of("데이터베이스 연결 실패: "),
        };
        append(&mut out, &chars_of(detail));
        string_of(&out)
    }
}

/// A value bound to a parameter of a statement.
#[derive(Clone, Debug)]
pub enum SqlValue {
    Integer(i64),
    Text(String),
}

/// What a `SqlValue` holds.
pub enum SqlValueView {
    Integer(int),
    Text(Seq<char>),
}

impl View for SqlValue {
    type V = SqlValueView;

    open spec fn view(&self) -> SqlValueView {
        match self {
            SqlValue::Integer(n) => SqlValueView::Integer(*n as int),
            SqlValue::Text(t) => SqlValueView::Text(t@),
        }
    }
}

/// The views of a sequence of bound values.
pub open spec fn value_views(v: Seq<SqlValue>) -> Seq<SqlValueView> {
    v.map_values(|p: SqlValue| p@)
}

/// The two statements of a paginated read, each with its own parameters.
#[derive(Debug)]
pub struct MessageQuery {
    /// Counts the messages that the filter admits.
    pub count_sql: String,
    pub count_params: Vec<SqlValue>,
    /// Fetches one page of them, newest first.
    pub page_sql: String,
    pub page_params: Vec<SqlValue>,
}

/// One row of the table of received messages, as stored.
#[derive(Clone, Debug)]
pub struct ForeignRow {
    pub id: i64,
    pub sender: Option<String>,
    pub text: StoredValue,
    pub body: StoredValue,
    pub receive_date: Option<String>,
    pub file_path: Option<String>,
}

/// Whether a search term is given and not empty.
pub open spec fn has_term(term: Option<Seq<char>>) -> bool {
    term matches Some(t) && t.len() > 0
}

/// The pattern that matches every text that holds `term`.
pub open spec fn like_pattern(term: Seq<char>) -> Seq<char> {
    "%"@ + term + "%"@
}

/// The conditions of the filter: one on the id where a least id is given, one
/// on sender and text where a search term is given.
pub open spec fn filter_fragments(min_id: Option<i64>, term: Option<Seq<char>>) -> Seq<Seq<char>> {
    let by_id = if min_id is Some {
        seq!["MessageKey > ?"@]
    } else {
        Seq::empty()
    };
    let by_term = if has_term(term) {
        seq!["(Sender LIKE ? OR MessageText LIKE ?)"@]
    } else {
        Seq::empty()
    };
    by_id + by_term
}

/// The values that the conditions of the filter bind, in the order of their
/// placeholders.
pub open spec fn filter_values(min_id: Option<i64>, term: Option<Seq<char>>) -> Seq<SqlValueView> {
    let by_id = match min_id {
        Some(m) => seq![SqlValueView::Integer(m as int)],
        None => Seq::empty(),
    };
    let by_term = match term {
        Some(t) => if t.len() > 0 {
            seq![SqlValueView::Text(like_pattern(t)), SqlValueView::Text(like_pattern(t))]
        } else {
            Seq::empty()
        },
        None => Seq::empty(),
    };
    by_id + by_term
}

/// The `WHERE` clause of the conditions; empty where there is none.
pub open spec fn where_clause(fragments: Seq<Seq<char>>) -> Seq<char> {
    if fragments.len() == 0 {
        Seq::empty()
    } else {
        "WHERE "@ + joined(fragments, " AND "@)
    }
}

/// The statement that counts the messages that meet the conditions.
pub open spec fn count_statement(fragments: Seq<Seq<char>>) -> Seq<char> {
    if fragments.len() == 0 {
        "SELECT COUNT(*) FROM tbl_recv"@
    } else {
        "SELECT COUNT(*) FROM tbl_recv "@ + where_clause(fragments)
    }
}

/// The statement that fetches one page of the messages that meet the
/// conditions, newest first; its last two parameters are limit and offset.
pub open spec fn page_statement(fragments: Seq<Seq<char>>) -> Seq<char> {
    "SELECT MessageKey as id, Sender, MessageText, MessageBody, ReceiveDate, FilePath FROM tbl_recv "@
        + where_clause(fragments)
        + " ORDER BY ReceiveDate DESC, MessageKey DESC LIMIT ? OFFSET ?"@
}

/// The text of an optional string, empty where there is none.
pub open spec fn text_or_empty(s: Option<String>) -> Seq<char> {
    match s {
        Some(t) => t@,
        None => Seq::empty(),
    }
}

/// The message that a row stands for: an absent sender is empty, the content
/// is decoded from the two content columns, and the attachment names are
/// taken from the path list.
pub open spec fn message_of(row: ForeignRow) -> MessageView {
    MessageView {
        id: row.id as int,
        sender: text_or_empty(row.sender),
        content: message_content(row.text, row.body),
        receive_date: option_view(row.receive_date),
        file_paths: file_names(text_or_empty(row.file_path)),
    }
}

/// The messages that rows stand for, in the same order.
pub open spec fn messages_of(rows: Seq<ForeignRow>) -> Seq<MessageView> {
    rows.map_values(|row: ForeignRow| message_of(row))
}

/// The pattern that matches every text that holds `term`.
pub fn like_pattern_of(term: &str) -> (pattern: String)
    ensures
        pattern@ == like_pattern(term@),
{
    let mut out = chars_of("%");
    let t = chars_of(term);
    append(&mut out, &t);
    let tail = chars_of("%");
    append(&mut out, &tail);
    string_of(&out)
}

/// Builds the statements and parameters of a paginated read. The filter
/// admits the ids above `min_id`, where one is given, and the messages whose
/// sender or text holds `search_term`, where one is given and not empty.
/// Without a limit a page holds `DEFAULT_PAGE_LIMIT` messages; without an
/// offset it starts at the first.
pub fn read_messages_query(
    limit: Option<i64>,
    offset: Option<i64>,
    search_term: Option<String>,
    min_id: Option<i64>,
) -> (query: MessageQuery)
    ensures
        query.count_sql@ == count_statement(filter_fragments(min_id, option_view(search_term))),
        value_views(query.count_params@) == filter_values(min_id, option_view(search_term)),
        query.page_sql@ == page_statement(filter_fragments(min_id, option_view(search_term))),
        value_views(query.page_params@) == filter_values(min_id, option_view(search_term)) + seq![
            SqlValueView::Integer(
                match limit {
                    Some(l) => l as int,
                    None => DEFAULT_PAGE_LIMIT as int,
                },
            ),
            SqlValueView::Integer(
                match offset {
                    Some(o) => o as int,
                    None => 0,
                },
            ),
        ],
{
    let ghost term = option_view(search_term);
    let mut fragments: Vec<Vec<char>> = Vec::new();
    let mut count_params: Vec<SqlValue> = Vec::new();
    let mut page_params: Vec<SqlValue> = Vec::new();
    if let Some(m) = min_id {
        fragments.push(chars_of("MessageKey > ?"));
        count_params.push(SqlValue::Integer(m));
        page_params.push(SqlValue::Integer(m));
    }
    if let Some(t) = &search_term {
        if t.as_str().unicode_len() > 0 {
            fragments.push(chars_of("(Sender LIKE ? OR MessageText LIKE ?)"));
            let pattern = like_pattern_of(t.as_str());
            count_params.push(SqlValue::Text(pattern.clone()));
            count_params.push(SqlValue::Text(pattern.clone()));
            page_params.push(SqlValue::Text(pattern.clone()));
            page_params.push(SqlValue::Text(pattern));
        }
    }
    proof {
        assert(fields_view(fragments@) =~= filter_fragments(min_id, term));
        assert(value_views(count_params@) =~= filter_values(min_id, term));
        assert(value_views(page_params@) =~= filter_values(min_id, term));
    }
    let ghost filter = value_views(page_params@);
    let where_part = if fragments.len() == 0 {
        Vec::new()
    } else {
        let mut w = chars_of("WHERE ");
        let conditions = join_texts(&fragments, &chars_of(" AND "));
        append(&mut w, &conditions);
        w
    };
    let count_sql = if fragments.len() == 0 {
        chars_of("SELECT COUNT(*) FROM tbl_recv")
    } else {
        let mut c = chars_of("SELECT COUNT(*) FROM tbl_recv ");
        append(&mut c, &where_part);
        c
    };
    let mut page_sql = chars_of(
        "SELECT MessageKey as id, Sender, MessageText, MessageBody, ReceiveDate, FilePath FROM tbl_recv ",
    );
    append(&mut page_sql, &where_part);
    append(&mut page_sql, &chars_of(" ORDER BY ReceiveDate DESC, MessageKey DESC LIMIT ? OFFSET ?"));
    let limit_value = match limit {
        Some(l) => l,
        None => DEFAULT_PAGE_LIMIT,
    };
    let offset_value = match offset {
        Some(o) => o,
        None => 0,
    };
    page_params.push(SqlValue::Integer(limit_value));
    page_params.push(SqlValue::Integer(offset_value));
    proof {
        assert(value_views(page_params@) =~= filter + seq![
            SqlValueView::Integer(limit_value as int),
            SqlValueView::Integer(offset_value as int),
        ]);
    }
    MessageQuery {
        count_sql: string_of(&count_sql),
        count_params,
        page_sql: string_of(&page_sql),
        page_params,
    }
}

/// The message that a row stands for.
pub fn message_from_row(row: &ForeignRow) -> (message: Message)
    ensures
        message@ == message_of(*row),
{
    let sender = match &row.sender {
        Some(s) => s.clone(),
        None => String::new(),
    };
    let file_paths = match &row.file_path {
        Some(p) => parse_file_paths(p.as_str()),
        None => {
            proof {
                reveal_strlit("");
                assert(""@ =~= Seq::<char>::empty());
            }
            parse_file_paths("")
        },
    };
    Message {
        id: row.id,
        sender,
        content: decode_content(&row.text, &row.body),
        receive_date: clone_option(&row.receive_date),
        file_paths,
    }
}

/// The messages that rows stand for, in the same order.
pub fn messages_from_rows(rows: &Vec<ForeignRow>) -> (messages: Vec<Message>)
    ensures
        message_views(messages@) == messages_of(rows@),
{
    let mut messages: Vec<Message> = Vec::new();
    let mut i: usize = 0;
    while i < rows.len()
        invariant
            i <= rows.len(),
            messages.len() == i,
            forall|j: int| 0 <= j < i ==> (#[trigger] messages@[j])@ == message_of(rows@[j]),
        decreases rows.len() - i,
    {
        messages.push(message_from_row(&rows[i]));
        i = i + 1;
    }
    proof {
        assert(message_views(messages@) =~= messages_of(rows@));
    }
    messages
}

/// One page of a read: the messages that the fetched rows stand for, and the
/// number of messages that the filter admits.
pub fn page_of_rows(rows: &Vec<ForeignRow>, total_count: i64) -> (page: PaginatedMessages)
    ensures
        message_views(page.messages@) == messages_of(rows@),
        page.total_count == total_count,
{
    PaginatedMessages { messages: messages_from_rows(rows), total_count }
}

/// The message of a lookup by id: the message that the row stands for, or
/// `MessageNotFound` where the lookup gave no row.
pub fn get_message_by_id(row: &Option<ForeignRow>) -> (r: Result<Message, StoreError>)
    ensures
        match *row {
            Some(found) => r matches Ok(m) && m@ == message_of(found),
            None => r == Err::<Message, StoreError>(StoreError::MessageNotFound),
        },
{
    match row {
        Some(found) => Ok(message_from_row(found)),
        None => Err(StoreError::MessageNotFound),
    }
}

} // verus!
