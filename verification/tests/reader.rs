use hypercool::content::{StoredValue, DECODE_FAILED};
use hypercool::text::join_texts;
use hypercool::reader::{
    get_message_by_id, like_pattern_of, message_from_row, messages_from_rows,
    page_of_rows, read_messages_query, ForeignRow, SqlValue, StoreError, DEFAULT_PAGE_LIMIT,
};

fn row(id: i64, sender: Option<&str>, text: StoredValue, body: StoredValue) -> ForeignRow {
    ForeignRow {
        id,
        sender: sender.map(|s| s.to_string()),
        text,
        body,
        receive_date: Some("2024-03-01 09:00:00".to_string()),
        file_path: Some("0|1|2|3|a.hwp|5|6|b.pdf".to_string()),
    }
}

fn shown(values: &[SqlValue]) -> Vec<String> {
    values
        .iter()
        .map(|v| match v {
            SqlValue::Integer(n) => format!("int {}", n),
            SqlValue::Text(t) => format!("text {}", t),
        })
        .collect()
}

const SELECT: &str =
    "SELECT MessageKey as id, Sender, MessageText, MessageBody, ReceiveDate, FilePath FROM tbl_recv ";
const ORDER: &str = " ORDER BY ReceiveDate DESC, MessageKey DESC LIMIT ? OFFSET ?";

#[test]
fn query_without_filter() {
    let q = read_messages_query(None, None, None, None);
    assert_eq!(q.count_sql, "SELECT COUNT(*) FROM tbl_recv");
    assert!(q.count_params.is_empty());
    assert_eq!(q.page_sql, format!("{}{}", SELECT, ORDER));
    assert_eq!(shown(&q.page_params), vec!["int 50", "int 0"]);
    assert_eq!(DEFAULT_PAGE_LIMIT, 50);
}

#[test]
fn query_with_least_id() {
    let q = read_messages_query(Some(10), Some(20), None, Some(7));
    assert_eq!(q.count_sql, "SELECT COUNT(*) FROM tbl_recv WHERE MessageKey > ?");
    assert_eq!(shown(&q.count_params), vec!["int 7"]);
    assert_eq!(q.page_sql, format!("{}WHERE MessageKey > ?{}", SELECT, ORDER));
    assert_eq!(shown(&q.page_params), vec!["int 7", "int 10", "int 20"]);
}

#[test]
fn query_with_search_term() {
    let q = read_messages_query(None, Some(5), Some("공지".to_string()), None);
    assert_eq!(
        q.count_sql,
        "SELECT COUNT(*) FROM tbl_recv WHERE (Sender LIKE ? OR MessageText LIKE ?)"
    );
    assert_eq!(shown(&q.count_params), vec!["text %공지%", "text %공지%"]);
    assert_eq!(
        q.page_sql,
        format!("{}WHERE (Sender LIKE ? OR MessageText LIKE ?){}", SELECT, ORDER)
    );
    assert_eq!(shown(&q.page_params), vec!["text %공지%", "text %공지%", "int 50", "int 5"]);
}

#[test]
fn query_with_both_conditions() {
    let q = read_messages_query(Some(1), None, Some("a".to_string()), Some(-3));
    assert_eq!(
        q.count_sql,
        "SELECT COUNT(*) FROM tbl_recv WHERE MessageKey > ? AND (Sender LIKE ? OR MessageText LIKE ?)"
    );
    assert_eq!(shown(&q.count_params), vec!["int -3", "text %a%", "text %a%"]);
    assert_eq!(shown(&q.page_params), vec!["int -3", "text %a%", "text %a%", "int 1", "int 0"]);
}

#[test]
fn empty_search_term_is_no_condition() {
    let q = read_messages_query(None, None, Some(String::new()), None);
    assert_eq!(q.count_sql, "SELECT COUNT(*) FROM tbl_recv");
    assert!(q.count_params.is_empty());
    assert_eq!(shown(&q.page_params), vec!["int 50", "int 0"]);
}

#[test]
fn like_pattern_wraps_the_term() {
    assert_eq!(like_pattern_of("abc"), "%abc%");
    assert_eq!(like_pattern_of(""), "%%");
    assert_eq!(like_pattern_of("50%"), "%50%%");
}

#[test]
fn texts_are_joined_with_the_separator_between() {
    let parts: Vec<Vec<char>> = vec!["a".chars().collect(), "".chars().collect(), "bc".chars().collect()];
    let sep: Vec<char> = ", ".chars().collect();
    assert_eq!(join_texts(&parts, &sep).iter().collect::<String>(), "a, , bc");
    assert_eq!(join_texts(&parts[..1].to_vec(), &sep).iter().collect::<String>(), "a");
    assert_eq!(join_texts(&Vec::new(), &sep).iter().collect::<String>(), "");
}

#[test]
fn message_of_a_row() {
    let m = message_from_row(&row(
        42,
        Some("홍길동"),
        StoredValue::Text("본문".to_string()),
        StoredValue::Absent,
    ));
    assert_eq!(m.id, 42);
    assert_eq!(m.sender, "홍길동");
    assert_eq!(m.content, "본문");
    assert_eq!(m.receive_date.as_deref(), Some("2024-03-01 09:00:00"));
    assert_eq!(m.file_paths, vec!["a.hwp", "b.pdf"]);
}

#[test]
fn message_of_a_row_with_absent_columns() {
    let m = message_from_row(&ForeignRow {
        id: 1,
        sender: None,
        text: StoredValue::Absent,
        body: StoredValue::Absent,
        receive_date: None,
        file_path: None,
    });
    assert_eq!(m.sender, "");
    assert_eq!(m.content, "");
    assert_eq!(m.receive_date, None);
    assert!(m.file_paths.is_empty());
}

#[test]
fn a_row_that_cannot_be_decoded_does_not_break_the_page() {
    let rows = vec![
        row(3, Some("a"), StoredValue::Text("fine".to_string()), StoredValue::Absent),
        row(2, Some("b"), StoredValue::Absent, StoredValue::Blob(vec![1, 2, 3])),
        row(1, Some("c"), StoredValue::Text("also fine".to_string()), StoredValue::Absent),
    ];
    let page = page_of_rows(&rows, 17);
    assert_eq!(page.total_count, 17);
    assert_eq!(page.messages.len(), 3);
    assert_eq!(page.messages[0].content, "fine");
    assert_eq!(page.messages[1].content, DECODE_FAILED);
    assert_eq!(page.messages[2].content, "also fine");
    assert_eq!(messages_from_rows(&rows).iter().map(|m| m.id).collect::<Vec<_>>(), vec![3, 2, 1]);
    assert!(messages_from_rows(&Vec::new()).is_empty());
}

#[test]
fn lookup_by_id_without_a_row_is_not_found() {
    assert_eq!(get_message_by_id(&None).err(), Some(StoreError::MessageNotFound));
    let found = get_message_by_id(&Some(row(
        9,
        None,
        StoredValue::Text("x".to_string()),
        StoredValue::Absent,
    )));
    assert_eq!(found.unwrap().id, 9);
}

#[test]
fn failures_of_the_store_say_what_failed() {
    assert_eq!(
        StoreError::DatabaseMissing.message("C:\\msg.udb"),
        "데이터베이스 파일을 찾을 수 없습니다: C:\\msg.udb"
    );
    assert_eq!(StoreError::TableMissing.message("ignored"), "tbl_recv 테이블을 찾을 수 없습니다");
    assert_eq!(StoreError::MessageNotFound.message("42"), "ID로 메시지 조회 실패: 42");
    assert_eq!(StoreError::Connection.message("locked"), "데이터베이스 연결 실패: locked");
}
