use hypercool::school_data::{
    fetch_attendance_data, fetch_meal_data, fetch_points_data, meal_service_url, menu_of,
    parse_amount, MealRow, PointCell, NO_DINNER, NO_LUNCH,
};

fn meal(dishes: Option<&str>, name: Option<&str>) -> MealRow {
    MealRow { dishes: dishes.map(|s| s.to_string()), meal_name: name.map(|s| s.to_string()) }
}

fn row(cells: &[&str]) -> Vec<String> {
    cells.iter().map(|c| c.to_string()).collect()
}

fn shown(tables: &[Vec<Vec<String>>]) -> Vec<(String, String, String)> {
    fetch_attendance_data(&tables.to_vec())
        .into_iter()
        .map(|l| (l.student_info, l.arrival_time, l.attendance_status))
        .collect()
}

fn late(info: &str, time: &str, status: &str) -> (String, String, String) {
    (info.to_string(), time.to_string(), status.to_string())
}

#[test]
fn meal_service_address_ends_with_the_date() {
    assert_eq!(
        meal_service_url("20240305"),
        "https://open.neis.go.kr/hub/mealServiceDietInfo?Type=json&ATPT_OFCDC_SC_CODE=C10&SD_SCHUL_CODE=7150451&MLSV_YMD=20240305"
    );
}

#[test]
fn menu_loses_allergy_notes_and_gains_line_breaks() {
    assert_eq!(menu_of("쌀밥 (1.2)<br/>김치찌개(5.6.10)<br/>우유"), "쌀밥\n김치찌개\n우유");
    assert_eq!(menu_of("a  (b) c()d"), "a cd");
    assert_eq!(menu_of("open (paren"), "open (paren");
    assert_eq!(menu_of(""), "");
}

#[test]
fn meals_without_rows_are_none() {
    let meals = fetch_meal_data(&Vec::new());
    assert_eq!(meals.lunch, NO_LUNCH);
    assert_eq!(meals.dinner, NO_DINNER);
    assert_eq!(NO_LUNCH, "금일 중식 없습니다.");
    assert_eq!(NO_DINNER, "금일 석식 없습니다.");
}

#[test]
fn meals_are_told_apart_by_their_names() {
    let rows = vec![
        meal(Some("밥(1)<br/>국"), Some("중식")),
        meal(Some("빵 (2)"), Some("석식")),
        meal(Some("야식"), Some("간식")),
        meal(None, Some("중식")),
        meal(Some("버려짐"), None),
    ];
    let meals = fetch_meal_data(&rows);
    assert_eq!(meals.lunch, "밥\n국");
    assert_eq!(meals.dinner, "빵");
}

#[test]
fn later_rows_of_the_same_meal_win() {
    let rows = vec![meal(Some("first"), Some("중식")), meal(Some("second"), Some("오늘의 중식"))];
    let meals = fetch_meal_data(&rows);
    assert_eq!(meals.lunch, "second");
    assert_eq!(meals.dinner, NO_DINNER);
    let both = fetch_meal_data(&vec![meal(Some("x"), Some("중식 석식"))]);
    assert_eq!(both.lunch, "x");
    assert_eq!(both.dinner, NO_DINNER);
}

#[test]
fn latecomers_of_a_table_with_a_header() {
    let table = vec![
        row(&["번호", " 등교시간 ", "학생정보", "출결사항"]),
        row(&["1", "08:45", " 1학년 2반 3번 홍길동 ", "지각"]),
        row(&[]),
        row(&["2", "09:10", "1학년 2반 7번 김철수", "지각", "extra"]),
        row(&["3", "", "학생정보 1학년 2반", ""]),
        row(&["4", "09:30"]),
    ];
    assert_eq!(
        shown(&[table]),
        vec![
            late("1학년 2반 3번 홍길동", "08:45", "지각"),
            late("1학년 2반 7번 김철수", "09:10", "지각"),
        ]
    );
}

#[test]
fn latecomers_without_a_header_use_the_first_three_columns() {
    let table = vec![
        row(&["1학년 1반 홍길동", "08:40", "지각"]),
        row(&["1학년 1반 김철수", "08:50", "지각"]),
        row(&["2학년 김영희", "08:55", "지각"]),
        row(&["1학년 1반 번호", "08:55", "지각"]),
    ];
    assert_eq!(shown(&[table]), vec![late("1학년 1반 김철수", "08:50", "지각")]);
}

#[test]
fn first_table_with_latecomers_ends_the_search() {
    let layout = vec![vec![row(&["menu", "login", "logout"])], vec![row(&["x"])]];
    let first = vec![row(&["학생 이름", "등교시간", "출석종류"]), row(&["3학년 1반 가", "08:41", "지각"])];
    let second = vec![row(&["a", "b", "c"]), row(&["3학년 1반 나", "08:42", "지각"])];
    let mut tables = layout.clone();
    tables.push(first);
    tables.push(second.clone());
    assert_eq!(shown(&tables), vec![late("3학년 1반 가", "08:41", "지각")]);
    assert_eq!(shown(&[second]), vec![late("3학년 1반 나", "08:42", "지각")]);
    assert!(shown(&layout).is_empty());
    assert!(shown(&[]).is_empty());
}

#[test]
fn header_of_an_earlier_table_still_counts() {
    let header_only = vec![row(&["출결사항", "학생정보", "등교시간"])];
    let data = vec![row(&["지각", "1학년 3반 다", "08:43"])];
    assert_eq!(shown(&[header_only, data.clone()]), vec![late("1학년 3반 다", "08:43", "지각")]);
    assert!(shown(&[data]).is_empty());
}

#[test]
fn header_can_name_a_column_that_a_row_lacks() {
    let table = vec![
        row(&["학생정보", "a", "b", "c", "등교시간"]),
        row(&["1학년 3반 라", "x", "y"]),
    ];
    assert_eq!(shown(&[table]), vec![late("1학년 3반 라", "", "y")]);
}

fn cells(texts: &[(&str, Option<&str>)]) -> Vec<PointCell> {
    texts
        .iter()
        .map(|(text, paragraph)| PointCell {
            text: text.to_string(),
            paragraph: paragraph.map(|p| p.to_string()),
        })
        .collect()
}

#[test]
fn amounts_are_made_of_the_digits() {
    let amount = |s: &str| parse_amount(&s.chars().collect());
    assert_eq!(amount("12"), 12);
    assert_eq!(amount(" +1,234점 "), 1234);
    assert_eq!(amount("-5"), 5);
    assert_eq!(amount(""), 0);
    assert_eq!(amount("없음"), 0);
    assert_eq!(amount("007"), 7);
    assert_eq!(amount("2147483647"), 2147483647);
    assert_eq!(amount("2147483648"), 0);
    assert_eq!(amount("99999999999999999999999999"), 0);
    assert_eq!(amount("٣"), 0);
}

#[test]
fn points_of_the_rows_of_the_table() {
    let header = cells(&[("학생정보", None), ("", None), ("상점", None), ("벌점", None), ("상쇄", None), ("", None)]);
    let kim = cells(&[
        (" 1학년 2반 3번 김철수 ", None),
        ("", None),
        ("상점 10", Some(" 12 ")),
        ("-3", None),
        (" 1 ", Some("")),
        ("", None),
    ]);
    let short = cells(&[("1학년 2반 이영희", None), ("", None), ("1", None), ("1", None), ("1", None)]);
    let total = cells(&[("합계 번호", None), ("", None), ("1", None), ("1", None), ("1", None), ("", None)]);
    let rows = vec![header, kim.clone(), short, total];
    let points = fetch_points_data(&rows);
    assert_eq!(points.len(), 1);
    assert_eq!(points[0].student_info, "1학년 2반 3번 김철수");
    assert_eq!(
        (points[0].reward, points[0].penalty, points[0].offset, points[0].total),
        (12, -3, 0, 9)
    );
    assert!(fetch_points_data(&vec![kim]).is_empty());
    assert!(fetch_points_data(&Vec::new()).is_empty());
}

#[test]
fn total_of_points_wraps_at_the_ends_of_its_range() {
    let header = cells(&[("h", None)]);
    let big = cells(&[
        ("1학년 1반 가", None),
        ("", None),
        ("2147483647", None),
        ("0", None),
        ("2147483647", None),
        ("", None),
    ]);
    let points = fetch_points_data(&vec![header, big]);
    assert_eq!(points[0].total, -2);
    assert_eq!(points[0].reward, i32::MAX);
    assert_eq!(points[0].offset, i32::MAX);
}
