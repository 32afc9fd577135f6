//! What the school portal and the meal service return, once it is plain
//! text: the meals of a day, the latecomers of a class and its merit points.

use crate::snippet::{regex_replace_all, regex_replaced};
use crate::text::{
    append, chars_of, contains, contains_chars, digit_of, digit_value, replace, replace_text,
    string_of, trim, trim_chars,
};
use vstd::prelude::*;

verus! {

/// What stands for lunch where the service names none.
pub const NO_LUNCH: &'static str = "금일 중식 없습니다.";

/// What stands for dinner where the service names none.
pub const NO_DINNER: &'static str = "금일 석식 없습니다.";

/// What the name of a meal holds when the meal is lunch.
pub const LUNCH: &'static str = "중식";

/// What the name of a meal holds when the meal is dinner.
pub const DINNER: &'static str = "석식";

/// The pattern of an allergy note: a parenthesis, with the whitespace before
/// it.
pub const ALLERGY_NOTE_PATTERN: &'static str = "\\s*\\([^)]*\\)";

/// The address of the meal service up to the date.
pub const MEAL_SERVICE_URL: &'static str =
    "https://open.neis.go.kr/hub/mealServiceDietInfo?Type=json&ATPT_OFCDC_SC_CODE=C10&SD_SCHUL_CODE=7150451&MLSV_YMD=";

/// The meals of one day.
#[derive(Clone, Debug)]
pub struct MealData {
    pub lunch: String,
    pub dinner: String,
}

/// What a `MealData` holds.
pub struct MealView {
    pub lunch: Seq<char>,
    pub dinner: Seq<char>,
}

impl View for MealData {
    type V = MealView;

    open spec fn view(&self) -> MealView {
        MealView { lunch: self.lunch@, dinner: self.dinner@ }
    }
}

/// One row of the answer of the meal service: the dishes and the name of the
/// meal, each where it is given as text.
#[derive(Clone, Debug)]
pub struct MealRow {
    pub dishes: Option<String>,
    pub meal_name: Option<String>,
}

/// One pupil who came late.
#[derive(Clone, Debug)]
pub struct LatecomerData {
    pub student_info: String,
    pub arrival_time: String,
    pub attendance_status: String,
}

/// What a `LatecomerData` holds.
pub struct LatecomerView {
    pub student_info: Seq<char>,
    pub arrival_time: Seq<char>,
    pub attendance_status: Seq<char>,
}

impl View for LatecomerData {
    type V = LatecomerView;

    open spec fn view(&self) -> LatecomerView {
        LatecomerView {
            student_info: self.student_info@,
            arrival_time: self.arrival_time@,
            attendance_status: self.attendance_status@,
        }
    }
}

/// The views of a sequence of latecomers.
pub open spec fn latecomer_views(v: Seq<LatecomerData>) -> Seq<LatecomerView> {
    v.map_values(|l: LatecomerData| l@)
}

/// The merit points of one pupil. The penalty is never positive, and the
/// total is the sum of the three.
#[derive(Clone, Debug)]
pub struct PointsData {
    pub student_info: String,
    pub reward: i32,
    pub penalty: i32,
    pub offset: i32,
    pub total: i32,
}

/// What a `PointsData` holds.
pub struct PointsView {
    pub student_info: Seq<char>,
    pub reward: int,
    pub penalty: int,
    pub offset: int,
    pub total: int,
}

impl View for PointsData {
    type V = PointsView;

    open spec fn view(&self) -> PointsView {
        PointsView {
            student_info: self.student_info@,
            reward: self.reward as int,
            penalty: self.penalty as int,
            offset: self.offset as int,
            total: self.total as int,
        }
    }
}

/// The views of a sequence of merit points.
pub open spec fn points_views(v: Seq<PointsData>) -> Seq<PointsView> {
    v.map_values(|p: PointsData| p@)
}

/// One cell of the table of merit points: all its text, and the text of its
/// first paragraph where it has one.
#[derive(Clone, Debug)]
pub struct PointCell {
    pub text: String,
    pub paragraph: Option<String>,
}

/// Which columns of the attendance table hold what, and whether a header
/// has said so.
pub struct Columns {
    pub header_found: bool,
    pub student: int,
    pub arrival: int,
    pub status: int,
}

/// The address that names the meals of `date`.
pub fn meal_service_url(date: &str) -> (url: String)
    ensures
        url@ == MEAL_SERVICE_URL@ + date@,
{
    let mut out = chars_of(MEAL_SERVICE_URL);
    append(&mut out, &chars_of(date));
    string_of(&out)
}

/// The dishes as they are shown: each line-break tag becomes a line break,
/// and the regular expression engine takes the allergy notes out. Where the
/// engine rejects the pattern the notes stay.
pub open spec fn menu_text(dishes: Seq<char>) -> Seq<char> {
    let lines = replace(dishes, "<br/>"@, "\n"@);
    match regex_replaced(ALLERGY_NOTE_PATTERN@, lines, Seq::empty()) {
        Some(menu) => menu,
        None => lines,
    }
}

/// The meals after one more row: a row that names dishes and a meal sets
/// lunch where the name of the meal holds the word for lunch, else dinner
/// where it holds the word for dinner.
pub open spec fn meals_with(meals: MealView, row: MealRow) -> MealView {
    match (row.dishes, row.meal_name) {
        (Some(dishes), Some(name)) => if contains(name@, LUNCH@) {
            MealView { lunch: menu_text(dishes@), ..meals }
        } else if contains(name@, DINNER@) {
            MealView { dinner: menu_text(dishes@), ..meals }
        } else {
            meals
        },
        _ => meals,
    }
}

/// The meals that the rows name. A meal that no row names is said to be
/// none.
pub open spec fn meals_of(rows: Seq<MealRow>) -> MealView
    decreases rows.len(),
{
    if rows.len() == 0 {
        MealView { lunch: NO_LUNCH@, dinner: NO_DINNER@ }
    } else {
        meals_with(meals_of(rows.drop_last()), rows.last())
    }
}

/// The dishes as they are shown.
pub fn menu_of(dishes: &str) -> (menu: String)
    ensures
        menu@ == menu_text(dishes@),
{
    proof {
        reveal_strlit("<br/>");
        reveal_strlit("");
        assert(""@ =~= Seq::<char>::empty());
    }
    let lines = string_of(&replace_text(&chars_of(dishes), "<br/>", "\n"));
    match regex_replace_all(ALLERGY_NOTE_PATTERN, lines.as_str(), "") {
        Some(menu) => menu,
        None => lines,
    }
}

/// The meals of a day, from the rows that the meal service answered with.
pub fn fetch_meal_data(rows: &Vec<MealRow>) -> (meals: MealData)
    ensures
        meals@ == meals_of(rows@),
{
    let mut lunch = NO_LUNCH.to_string();
    let mut dinner = NO_DINNER.to_string();
    let mut i: usize = 0;
    proof {
        assert(rows@.take(0) =~= Seq::<MealRow>::empty());
    }
    while i < rows.len()
        invariant
            i <= rows.len(),
            (MealView { lunch: lunch@, dinner: dinner@ }) == meals_of(rows@.take(i as int)),
        decreases rows.len() - i,
    {
        proof {
            assert(rows@.take(i + 1).drop_last() =~= rows@.take(i as int));
        }
        let row = &rows[i];
        match (&row.dishes, &row.meal_name) {
            (Some(dishes), Some(name)) => {
                let name_chars = chars_of(name.as_str());
                if contains_chars(&name_chars, &chars_of(LUNCH)) {
                    lunch = menu_of(dishes.as_str());
                } else if contains_chars(&name_chars, &chars_of(DINNER)) {
                    dinner = menu_of(dishes.as_str());
                }
            },
            _ => {},
        }
        i = i + 1;
    }
    proof {
        assert(rows@.take(rows.len() as int) =~= rows@);
    }
    MealData { lunch, dinner }
}

/// Whether the text names a pupil: it holds the words for grade and class,
/// and none of the words of a header.
pub open spec fn names_student(info: Seq<char>) -> bool {
    &&& contains(info, "학년"@)
    &&& contains(info, "반"@)
    &&& !contains(info, "학생정보"@)
    &&& !contains(info, "번호"@)
}

/// Whether the text names a pupil in the attendance table, whose headers
/// have some words more.
pub open spec fn names_latecomer(info: Seq<char>) -> bool {
    &&& names_student(info)
    &&& !contains(info, "학생 이름"@)
    &&& !contains(info, "출석종류"@)
    &&& !contains(info, "등교종류"@)
}

/// Whether `pat` occurs in the text `v`.
fn holds(v: &Vec<char>, pat: &str) -> (r: bool)
    ensures
        r == contains(v@, pat@),
{
    contains_chars(v, &chars_of(pat))
}

/// Whether the text names a pupil.
fn is_student(info: &Vec<char>) -> (r: bool)
    ensures
        r == names_student(info@),
{
    holds(info, "학년") && holds(info, "반") && !holds(info, "학생정보") && !holds(info, "번호")
}

/// Whether the text names a pupil in the attendance table.
fn is_latecomer(info: &Vec<char>) -> (r: bool)
    ensures
        r == names_latecomer(info@),
{
    is_student(info) && !holds(info, "학생 이름") && !holds(info, "출석종류") && !holds(
        info,
        "등교종류",
    )
}

/// The text of the cell at `index`, trimmed; empty where the row has no
/// such cell.
pub open spec fn cell_text(row: Seq<Seq<char>>, index: int) -> Seq<char> {
    if 0 <= index < row.len() {
        trim(row[index])
    } else {
        Seq::empty()
    }
}

/// Whether a cell of the row, trimmed, holds one of the two words that mark
/// the header of the attendance table.
pub open spec fn is_attendance_header(row: Seq<Seq<char>>) -> bool {
    exists|i: int|
        0 <= i < row.len() && (contains(trim(#[trigger] row[i]), "출결사항"@) || contains(
            trim(row[i]),
            "등교시간"@,
        ))
}

/// The columns after a header cell at `index` with the text `text`.
pub open spec fn columns_with(columns: Columns, index: int, text: Seq<char>) -> Columns {
    if contains(text, "학생정보"@) || contains(text, "학생 이름"@) {
        Columns { student: index, ..columns }
    } else if contains(text, "등교시간"@) {
        Columns { arrival: index, ..columns }
    } else if contains(text, "출결사항"@) || contains(text, "출석종류"@) {
        Columns { status: index, ..columns }
    } else {
        columns
    }
}

/// The columns after the cells of a header, taken from the left.
pub open spec fn columns_after(columns: Columns, header: Seq<Seq<char>>) -> Columns
    decreases header.len(),
{
    if header.len() == 0 {
        columns
    } else {
        columns_with(
            columns_after(columns, header.drop_last()),
            header.len() - 1,
            trim(header.last()),
        )
    }
}

/// Columns and latecomers after the row with the number `number` in its
/// table. A row without cells counts for nothing. The first row of a table,
/// if it is a header, says which columns hold what. Any other row with three
/// cells or more, in a table after a header or below the first row, names a
/// latecomer if its cell for the pupil names one.
pub open spec fn attendance_after_row(
    state: (Columns, Seq<LatecomerView>),
    number: int,
    row: Seq<Seq<char>>,
) -> (Columns, Seq<LatecomerView>) {
    let (columns, found) = state;
    if row.len() == 0 {
        state
    } else if number == 0 && is_attendance_header(row) {
        (columns_after(Columns { header_found: true, ..columns }, row), found)
    } else if row.len() >= 3 && (columns.header_found || number > 0) && names_latecomer(
        cell_text(row, columns.student),
    ) {
        (
            columns,
            found.push(
                LatecomerView {
                    student_info: cell_text(row, columns.student),
                    arrival_time: cell_text(row, columns.arrival),
                    attendance_status: cell_text(row, columns.status),
                },
            ),
        )
    } else {
        state
    }
}

/// Columns and latecomers after the rows of a table.
pub open spec fn attendance_after_rows(
    state: (Columns, Seq<LatecomerView>),
    rows: Seq<Seq<Seq<char>>>,
) -> (Columns, Seq<LatecomerView>)
    decreases rows.len(),
{
    if rows.len() == 0 {
        state
    } else {
        attendance_after_row(
            attendance_after_rows(state, rows.drop_last()),
            rows.len() - 1,
            rows.last(),
        )
    }
}

/// Columns and latecomers after the tables of a page. Until a header says
/// otherwise, the pupil stands in the first column, the time of arrival in
/// the second and the status in the third. The first table that names a
/// latecomer is the last one read.
pub open spec fn attendance_after_tables(tables: Seq<Seq<Seq<Seq<char>>>>) -> (
    Columns,
    Seq<LatecomerView>,
)
    decreases tables.len(),
{
    if tables.len() == 0 {
        (Columns { header_found: false, student: 0, arrival: 1, status: 2 }, Seq::empty())
    } else {
        let before = attendance_after_tables(tables.drop_last());
        if before.1.len() > 0 {
            before
        } else {
            attendance_after_rows(before, tables.last())
        }
    }
}

/// The latecomers that the tables of a page name.
pub open spec fn latecomers_of(tables: Seq<Seq<Seq<Seq<char>>>>) -> Seq<LatecomerView> {
    attendance_after_tables(tables).1
}

/// The text of the cell at `index`, trimmed.
fn cell_at(row: &Vec<String>, index: usize) -> (text: Vec<char>)
    ensures
        text@ == cell_text(row.deep_view(), index as int),
{
    if index < row.len() {
        trim_chars(&chars_of(row[index].as_str()))
    } else {
        Vec::new()
    }
}

/// Whether the row is the header of the attendance table.
fn attendance_header(row: &Vec<String>) -> (r: bool)
    ensures
        r == is_attendance_header(row.deep_view()),
{
    let mut i: usize = 0;
    while i < row.len()
        invariant
            i <= row.len(),
            forall|j: int|
                0 <= j < i ==> !(contains(trim(#[trigger] row.deep_view()[j]), "출결사항"@)
                    || contains(trim(row.deep_view()[j]), "등교시간"@)),
        decreases row.len() - i,
    {
        let text = cell_at(row, i);
        if holds(&text, "출결사항") || holds(&text, "등교시간") {
            return true;
        }
        i = i + 1;
    }
    false
}

/// The latecomers that the tables of a page name. Each table is a list of
/// rows, each row the list of the texts of its cells.
pub fn fetch_attendance_data(tables: &Vec<Vec<Vec<String>>>) -> (latecomers: Vec<LatecomerData>)
    ensures
        latecomer_views(latecomers@) == latecomers_of(tables.deep_view()),
{
    let ghost all = tables.deep_view();
    let mut latecomers: Vec<LatecomerData> = Vec::new();
    let mut header_found = false;
    let mut student: usize = 0;
    let mut arrival: usize = 1;
    let mut status: usize = 2;
    let mut t: usize = 0;
    proof {
        assert(all.take(0) =~= Seq::<Seq<Seq<Seq<char>>>>::empty());
        assert(all.take(tables.len() as int) =~= all);
        assert(latecomer_views(latecomers@) =~= Seq::<LatecomerView>::empty());
    }
    while t < tables.len()
        invariant_except_break
            latecomers@.len() == 0,
        invariant
            all == tables.deep_view(),
            all.take(tables.len() as int) == all,
            t <= tables.len(),
            ({
                let state = attendance_after_tables(all.take(t as int));
                &&& state.0 == (Columns {
                    header_found,
                    student: student as int,
                    arrival: arrival as int,
                    status: status as int,
                })
                &&& state.1 == latecomer_views(latecomers@)
            }),
        ensures
            ({
                let state = attendance_after_tables(all);
                state.1 == latecomer_views(latecomers@)
            }),
        decreases tables.len() - t,
    {
        let table = &tables[t];
        let ghost rows = table.deep_view();
        let ghost start = attendance_after_tables(all.take(t as int));
        proof {
            assert(all.take(t + 1).drop_last() =~= all.take(t as int));
            assert(all.take(t + 1).last() == rows);
            assert(rows.take(0) =~= Seq::<Seq<Seq<char>>>::empty());
        }
        let mut r: usize = 0;
        while r < table.len()
            invariant
                r <= table.len(),
                rows == table.deep_view(),
                ({
                    let state = attendance_after_rows(start, rows.take(r as int));
                    &&& state.0 == (Columns {
                        header_found,
                        student: student as int,
                        arrival: arrival as int,
                        status: status as int,
                    })
                    &&& state.1 == latecomer_views(latecomers@)
                }),
            decreases table.len() - r,
        {
            let row = &table[r];
            let ghost cells = row.deep_view();
            let ghost before = attendance_after_rows(start, rows.take(r as int));
            proof {
                assert(rows.take(r + 1).drop_last() =~= rows.take(r as int));
                assert(rows.take(r + 1).last() == cells);
            }
            if row.len() == 0 {
            } else if r == 0 && attendance_header(row) {
                header_found = true;
                let mut i: usize = 0;
                proof {
                    assert(cells.take(0) =~= Seq::<Seq<char>>::empty());
                }
                while i < row.len()
                    invariant
                        i <= row.len(),
                        cells == row.deep_view(),
                        header_found,
                        columns_after(Columns { header_found: true, ..before.0 }, cells.take(i as int))
                            == (Columns {
                            header_found,
                            student: student as int,
                            arrival: arrival as int,
                            status: status as int,
                        }),
                    decreases row.len() - i,
                {
                    proof {
                        assert(cells.take(i + 1).drop_last() =~= cells.take(i as int));
                        assert(cells.take(i + 1).last() == cells[i as int]);
                    }
                    let text = cell_at(row, i);
                    if holds(&text, "학생정보") || holds(&text, "학생 이름") {
                        student = i;
                    } else if holds(&text, "등교시간") {
                        arrival = i;
                    } else if holds(&text, "출결사항") || holds(&text, "출석종류") {
                        status = i;
                    }
                    i = i + 1;
                }
                proof {
                    assert(cells.take(row.len() as int) =~= cells);
                }
            } else if row.len() >= 3 && (header_found || r > 0) {
                let info = cell_at(row, student);
                if is_latecomer(&info) {
                    let entry = LatecomerData {
                        student_info: string_of(&info),
                        arrival_time: string_of(&cell_at(row, arrival)),
                        attendance_status: string_of(&cell_at(row, status)),
                    };
                    let ghost listed = latecomers@;
                    latecomers.push(entry);
                    proof {
                        assert(latecomer_views(listed.push(entry)) =~= latecomer_views(listed).push(
                            entry@,
                        ));
                    }
                }
            }
            r = r + 1;
        }
        proof {
            assert(rows.take(table.len() as int) =~= rows);
        }
        t = t + 1;
        if latecomers.len() > 0 {
            proof {
                lemma_found_latecomers_stay(all, t as int);
            }
            break ;
        }
    }
    latecomers
}

/// Once the first `count` tables have named a latecomer, the tables after
/// them change nothing.
proof fn lemma_found_latecomers_stay(tables: Seq<Seq<Seq<Seq<char>>>>, count: int)
    requires
        0 <= count <= tables.len(),
        attendance_after_tables(tables.take(count)).1.len() > 0,
    ensures
        attendance_after_tables(tables) == attendance_after_tables(tables.take(count)),
    decreases tables.len() - count,
{
    if count == tables.len() {
        assert(tables.take(count) =~= tables);
    } else {
        assert(tables.drop_last().take(count) =~= tables.take(count));
        lemma_found_latecomers_stay(tables.drop_last(), count);
    }
}

/// The number that the digits of a text spell when all else is left out; 0
/// for a text without a digit.
pub open spec fn digits_number(text: Seq<char>) -> nat
    decreases text.len(),
{
    if text.len() == 0 {
        0
    } else {
        let before = digits_number(text.drop_last());
        match digit_value(text.last()) {
            Some(d) => (before * 10 + d) as nat,
            None => before,
        }
    }
}

/// The amount of points that a text names: the number that its digits
/// spell, or 0 where that number does not fit in 32 bits with a sign.
pub open spec fn amount_of(text: Seq<char>) -> int {
    if digits_number(text) <= i32::MAX {
        digits_number(text) as int
    } else {
        0
    }
}

/// The text that counts in a cell: that of its first paragraph where it has
/// one, else all its text; in both cases trimmed.
pub open spec fn counted_text(cell: PointCell) -> Seq<char> {
    match cell.paragraph {
        Some(p) => trim(p@),
        None => trim(cell.text@),
    }
}

/// The merit points that a row names: the pupil in its first cell, and
/// reward, penalty and offset in the third, fourth and fifth.
pub open spec fn points_of(row: Seq<PointCell>) -> PointsView {
    let reward = amount_of(counted_text(row[2]));
    let penalty = -amount_of(counted_text(row[3]));
    let offset = amount_of(counted_text(row[4]));
    PointsView {
        student_info: trim(row[0].text@),
        reward,
        penalty,
        offset,
        total: ((reward + penalty) as i32).wrapping_add(offset as i32) as int,
    }
}

/// Whether a row of the table names the points of a pupil: it is not the
/// first row, it has six cells or more, and its first cell names a pupil.
pub open spec fn is_points_row(number: int, row: Seq<PointCell>) -> bool {
    number > 0 && row.len() >= 6 && names_student(trim(row[0].text@))
}

/// The merit points that the rows of a table name.
pub open spec fn all_points_of(rows: Seq<Vec<PointCell>>) -> Seq<PointsView>
    decreases rows.len(),
{
    if rows.len() == 0 {
        Seq::empty()
    } else {
        let before = all_points_of(rows.drop_last());
        if is_points_row(rows.len() - 1, rows.last()@) {
            before.push(points_of(rows.last()@))
        } else {
            before
        }
    }
}

/// The amount of points that a text names.
pub fn parse_amount(text: &Vec<char>) -> (amount: i32)
    ensures
        amount == amount_of(text@),
        amount >= 0,
{
    let mut value: u64 = 0;
    let mut too_large = false;
    let mut i: usize = 0;
    proof {
        assert(text@.take(0) =~= Seq::<char>::empty());
    }
    while i < text.len()
        invariant
            i <= text.len(),
            !too_large ==> value == digits_number(text@.take(i as int)) && value <= i32::MAX,
            too_large ==> digits_number(text@.take(i as int)) > i32::MAX,
        decreases text.len() - i,
    {
        proof {
            assert(text@.take(i + 1).drop_last() =~= text@.take(i as int));
        }
        match digit_of(text[i]) {
            Some(d) => {
                if too_large {
                    proof {
                        let before = digits_number(text@.take(i as int));
                        assert(before * 10 + d >= before) by (nonlinear_arith)
                            requires
                                before >= 0,
                                d >= 0,
                        ;
                    }
                } else {
                    let next = value * 10 + d as u64;
                    if next > 0x7fff_ffff {
                        too_large = true;
                    } else {
                        value = next;
                    }
                }
            },
            None => {},
        }
        i = i + 1;
    }
    proof {
        assert(text@.take(text.len() as int) =~= text@);
    }
    if too_large {
        0
    } else {
        value as i32
    }
}

/// The text that counts in a cell.
fn counted(cell: &PointCell) -> (text: Vec<char>)
    ensures
        text@ == counted_text(*cell),
{
    match &cell.paragraph {
        Some(p) => trim_chars(&chars_of(p.as_str())),
        None => trim_chars(&chars_of(cell.text.as_str())),
    }
}

/// The merit points that the rows of the table of points name. Each row is
/// the list of its cells.
pub fn fetch_points_data(rows: &Vec<Vec<PointCell>>) -> (points: Vec<PointsData>)
    ensures
        points_views(points@) == all_points_of(rows@),
{
    let mut points: Vec<PointsData> = Vec::new();
    let mut i: usize = 0;
    proof {
        assert(rows@.take(0) =~= Seq::<Vec<PointCell>>::empty());
        assert(points_views(points@) =~= Seq::<PointsView>::empty());
    }
    while i < rows.len()
        invariant
            i <= rows.len(),
            points_views(points@) == all_points_of(rows@.take(i as int)),
        decreases rows.len() - i,
    {
        proof {
            assert(rows@.take(i + 1).drop_last() =~= rows@.take(i as int));
        }
        let row = &rows[i];
        if i > 0 && row.len() >= 6 {
            let info = trim_chars(&chars_of(row[0].text.as_str()));
            if is_student(&info) {
                let reward = parse_amount(&counted(&row[2]));
                let penalty = -parse_amount(&counted(&row[3]));
                let offset = parse_amount(&counted(&row[4]));
                let entry = PointsData {
                    student_info: string_of(&info),
                    reward,
                    penalty,
                    offset,
                    total: (reward + penalty).wrapping_add(offset),
                };
                let ghost listed = points@;
                points.push(entry);
                proof {
                    assert(points_views(listed.push(entry)) =~= points_views(listed).push(entry@));
                }
            }
        }
        i = i + 1;
    }
    proof {
        assert(rows@.take(rows.len() as int) =~= rows@);
    }
    points
}

} // verus!
