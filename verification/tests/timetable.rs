use hypercool::timetable::{
    get_latest_gwa_file, kim_file_kind, kim_file_kind_of_name, lesson, parse_subjects, parse_teachers,
    parse_timetable, parse_weeks, timetable_from_text, FileInfo, KimFile, TimetableCell,
    TimetableError, CHUNK_SIZE,
};

const TEACHERS: [u8; 29] = [
    0xb1, 0xe8, 0xc3, 0xb6, 0xbc, 0xf6, 0x5e, 0xc0, 0xcc, 0xbf, 0xb5, 0xc8, 0xf1, 0x5e, 0x0d, 0x0a,
    0xb9, 0xda, 0xb9, 0xce, 0xbc, 0xf6, 0x5e, 0x20, 0x5e, 0xb3, 0xa1, 0x0d, 0x0a,
];

const SUBJECTS: [u8; 27] = [
    0xb1, 0xb9, 0xbe, 0xee, 0x5e, 0x31, 0x24, 0xbc, 0xf6, 0xc7, 0xd0, 0x5e, 0x32, 0x24, 0xbf, 0xb5,
    0xbe, 0xee, 0x24, 0xb0, 0xfa, 0xc7, 0xd0, 0x5e, 0x5e, 0x33, 0x24,
];

fn names(list: &[&str]) -> Vec<String> {
    list.iter().map(|s| s.to_string()).collect()
}

fn cell(subject: &str, room: &str) -> TimetableCell {
    TimetableCell { subject: subject.to_string(), room: room.to_string() }
}

fn record(lessons: &[(usize, usize, u32)]) -> Vec<u8> {
    let mut bytes = vec![0u8; 252];
    for (period, day, code) in lessons {
        let at = 32 + period * 28 + day * 4;
        bytes[at..at + 4].copy_from_slice(&code.to_le_bytes());
    }
    bytes
}

#[test]
fn files_of_an_archive_are_told_by_their_names() {
    let teachers = [0x64, 0x61, 0x74, 0x2f, 0xb1, 0xb3, 0xbb, 0xe7, 0xb8, 0xed, 0x2e, 0x6b, 0x69, 0x6d];
    let subjects = [0xb0, 0xfa, 0xb8, 0xf1, 0xb8, 0xed, 0x2e, 0x6b, 0x69, 0x6d];
    let lessons = [
        0xb1, 0xe2, 0xba, 0xbb, 0xb1, 0xb3, 0xbb, 0xe7, 0xbd, 0xc3, 0xb0, 0xa3, 0xc7, 0xa5, 0x2e,
        0x6b, 0x69, 0x6d,
    ];
    let other = [0xc7, 0xd0, 0xb1, 0xde, 0xb8, 0xed, 0x2e, 0x6b, 0x69, 0x6d];
    assert_eq!(kim_file_kind(&teachers), Some(KimFile::Teachers));
    assert_eq!(kim_file_kind(&subjects), Some(KimFile::Subjects));
    assert_eq!(kim_file_kind(&lessons), Some(KimFile::Timetable));
    assert_eq!(kim_file_kind(&other), None);
    assert_eq!(kim_file_kind(&[]), None);
    assert_eq!(kim_file_kind_of_name("x/교사명.kim"), Some(KimFile::Teachers));
    assert_eq!(kim_file_kind_of_name("과목명.kim 교사명.kim"), Some(KimFile::Teachers));
    assert_eq!(kim_file_kind_of_name("기본교사시간표.kim"), Some(KimFile::Timetable));
    assert_eq!(kim_file_kind_of_name("교사명.KIM"), None);
}

#[test]
fn teachers_stand_between_carets_and_the_last_name_is_dropped() {
    assert_eq!(parse_teachers("김철수^이영희^\r\n박민수^ ^끝\r\n"), names(&["김철수", "이영희", "박민수"]));
    assert_eq!(parse_teachers("a^b^c"), names(&["a", "b"]));
    assert_eq!(parse_teachers("a^b"), names(&["a", "b"]));
    assert_eq!(parse_teachers("a"), names(&["a"]));
    assert_eq!(parse_teachers(" \n^^\n"), Vec::<String>::new());
    assert_eq!(parse_teachers("a\nb\nc\nd"), names(&["a", "b", "c"]));
}

#[test]
fn subjects_stand_before_the_first_caret_of_a_chunk() {
    assert_eq!(parse_subjects("국어^1$수학^2$영어$과학^^3$"), names(&["국어", "수학", "과학"]));
    assert_eq!(parse_subjects(" x ^1$^2"), names(&[" x ", ""]));
    assert_eq!(parse_subjects("none"), Vec::<String>::new());
    assert_eq!(parse_subjects(""), Vec::<String>::new());
}

#[test]
fn lesson_code_numbers_subject_and_class() {
    let subjects = names(&["국어", "수학"]);
    assert_eq!(lesson(1003, &subjects), cell("국어", "3반"));
    assert_eq!(lesson(2000, &subjects), cell("수학", ""));
    assert_eq!(lesson(2999, &subjects), cell("수학", "999반"));
    assert_eq!(lesson(2010, &subjects), cell("수학", "10반"));
    assert_eq!(lesson(0, &subjects), cell("", ""));
    assert_eq!(lesson(999, &subjects), cell("", ""));
    assert_eq!(lesson(3001, &subjects), cell("", ""));
    assert_eq!(lesson(u32::MAX, &subjects), cell("", ""));
}

#[test]
fn weeks_are_read_from_the_records() {
    assert_eq!(CHUNK_SIZE, 252);
    let teachers = names(&["kim", "lee", "park"]);
    let subjects = names(&["국어", "수학"]);
    let mut bytes = record(&[(0, 0, 1003), (6, 4, 2011), (7, 0, 1001)]);
    bytes.extend(record(&[(3, 2, 2000)]));
    bytes.extend(vec![0u8; 251]);
    let weeks = parse_weeks(&teachers, &subjects, &bytes);
    assert_eq!(weeks.len(), 2);
    assert_eq!(weeks[0].teacher, "kim");
    assert_eq!(weeks[0].periods.len(), 8);
    assert!(weeks[0].periods.iter().all(|days| days.len() == 5));
    assert_eq!(weeks[0].periods[0][0], cell("국어", "3반"));
    assert_eq!(weeks[0].periods[6][4], cell("수학", "11반"));
    assert_eq!(weeks[0].periods[7][0], cell("", ""));
    assert_eq!(weeks[0].periods[0][1], cell("", ""));
    assert_eq!(weeks[1].teacher, "lee");
    assert_eq!(weeks[1].periods[3][2], cell("수학", ""));
}

#[test]
fn records_without_a_teacher_are_left_out() {
    let mut bytes = record(&[(0, 0, 1001)]);
    bytes.extend(record(&[(0, 0, 1002)]));
    let weeks = parse_weeks(&names(&["only"]), &names(&["x"]), &bytes);
    assert_eq!(weeks.len(), 1);
    assert_eq!(weeks[0].periods[0][0], cell("x", "1반"));
    assert!(parse_weeks(&names(&[]), &names(&["x"]), &bytes).is_empty());
    assert!(parse_weeks(&names(&["only"]), &names(&["x"]), &[]).is_empty());
}

#[test]
fn archive_is_read_from_its_three_files() {
    let lessons = record(&[(1, 1, 2005)]);
    let data = parse_timetable(&TEACHERS, &SUBJECTS, &lessons).unwrap();
    assert_eq!(data.teachers, names(&["김철수", "이영희", "박민수"]));
    assert_eq!(data.subjects, names(&["국어", "수학", "과학"]));
    assert_eq!(data.timetables.len(), 1);
    assert_eq!(data.timetables[0].teacher, "김철수");
    assert_eq!(data.timetables[0].periods[1][1], cell("수학", "5반"));
    let same = timetable_from_text("김철수^이영희^\r\n박민수^ ^끝\r\n", "국어^1$수학^2$영어$과학^^3$", &lessons);
    assert_eq!(same.teachers, data.teachers);
    assert_eq!(same.subjects, data.subjects);
    assert_eq!(same.timetables[0].periods, data.timetables[0].periods);
}

#[test]
fn malformed_names_are_kept_with_a_replacement_character() {
    let lessons = record(&[]);
    let data = parse_timetable(&[0x61, 0x5e, 0xb1, 0x5e, 0x62, 0x5e, 0x63], b"^", &lessons).unwrap();
    assert_eq!(data.teachers, names(&["a", "\u{fffd}", "b"]));
    assert_eq!(data.subjects, names(&[""]));
}

#[test]
fn archive_without_one_of_its_files_is_refused() {
    let lessons = record(&[]);
    assert_eq!(parse_timetable(&[], &SUBJECTS, &lessons).err(), Some(TimetableError::FilesMissing));
    assert_eq!(parse_timetable(&TEACHERS, &[], &lessons).err(), Some(TimetableError::FilesMissing));
    assert_eq!(parse_timetable(&TEACHERS, &SUBJECTS, &[]).err(), Some(TimetableError::FilesMissing));
}

fn file(extension: Option<&str>, modified: Option<u128>) -> FileInfo {
    FileInfo { extension: extension.map(|e| e.to_string()), modified }
}

#[test]
fn latest_archive_is_the_first_with_the_latest_time() {
    let entries = vec![
        file(Some("txt"), Some(900)),
        file(Some("Gwa"), Some(100)),
        file(Some("Gwa"), Some(300)),
        file(Some("gwa"), Some(999)),
        file(Some("Gwa"), Some(300)),
        file(Some("Gwa"), None),
        file(None, Some(999)),
    ];
    assert_eq!(get_latest_gwa_file(&entries), Some(2));
    assert_eq!(get_latest_gwa_file(&entries[..2].to_vec()), Some(1));
    assert_eq!(get_latest_gwa_file(&entries[..1].to_vec()), None);
    assert_eq!(get_latest_gwa_file(&Vec::new()), None);
    assert_eq!(get_latest_gwa_file(&vec![file(Some("Gwa"), Some(0))]), None);
}

#[test]
fn failures_of_an_archive_say_what_failed() {
    assert_eq!(TimetableError::FilesMissing.message(), "Required .kim files not found in archive");
    assert_eq!(TimetableError::TooLarge.message(), "The files of names are too large");
}
