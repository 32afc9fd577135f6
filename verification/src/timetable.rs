//! The timetable archive: the names of teachers and subjects, and for each
//! teacher a grid of lessons stored in fixed-size binary records.

use crate::text::{
    append, chars_of, contains, contains_chars, decimal, decimal_chars, fields_view, find_from,
    first_position, push_trimmed_names, same_text, split, split_chars, string_of, subrange,
    trimmed_names, views,
};
use vstd::prelude::*;

verus! {

/// How many bytes the record of one teacher takes.
pub const CHUNK_SIZE: usize = 252;

/// Where in a record the first block of lessons begins.
pub const BLOCK_OFFSET: usize = 32;

/// How many bytes the block of one period takes.
pub const BLOCK_SIZE: usize = 28;

/// How many bytes one lesson takes.
pub const LESSON_SIZE: usize = 4;

/// How many periods a day has.
pub const PERIODS: usize = 8;

/// How many days a week has.
pub const DAYS: usize = 5;

/// Above this number of bytes a file of names is not decoded.
pub const MAX_ENCODED_LEN: usize = 0x3fff_ffff;

/// What the name of the file of teachers holds.
pub const TEACHER_FILE: &'static str = "교사명.kim";

/// What the name of the file of subjects holds.
pub const SUBJECT_FILE: &'static str = "과목명.kim";

/// What the name of the file of lessons holds.
pub const TIMETABLE_FILE: &'static str = "기본교사시간표.kim";

/// What follows the number of a class in the name of its room.
pub const ROOM_SUFFIX: &'static str = "반";

/// The extension of a timetable archive.
pub const ARCHIVE_EXTENSION: &'static str = "Gwa";

/// One lesson: the subject and the room. Both are empty where no lesson is
/// given.
#[derive(Clone, Debug, PartialEq, Eq)]
pub struct TimetableCell {
    pub subject: String,
    pub room: String,
}

/// What a `TimetableCell` holds.
pub struct CellView {
    pub subject: Seq<char>,
    pub room: Seq<char>,
}

impl View for TimetableCell {
    type V = CellView;

    open spec fn view(&self) -> CellView {
        CellView { subject: self.subject@, room: self.room@ }
    }
}

/// The week of one teacher: for each period the lessons of the days.
#[derive(Clone, Debug)]
pub struct TeacherTimetable {
    pub teacher: String,
    pub periods: Vec<Vec<TimetableCell>>,
}

/// What a timetable archive holds. The weeks are to be looked up by the
/// name of the teacher. They stand in a list, in the order of the records,
/// and not in a map keyed by the name: of a map with text for keys nothing
/// can be proved here. Where a teacher has more than one week, the last one
/// counts.
#[derive(Clone, Debug)]
pub struct TimetableData {
    pub teachers: Vec<String>,
    pub subjects: Vec<String>,
    pub timetables: Vec<TeacherTimetable>,
}

/// Which of the three files of an archive a file is.
#[derive(Clone, Copy, Debug, PartialEq, Eq, Structural)]
pub enum KimFile {
    Teachers,
    Subjects,
    Timetable,
}

/// Why an archive could not be read.
#[derive(Clone, Copy, Debug, PartialEq, Eq, Structural)]
pub enum TimetableError {
    /// One of the three files is missing or empty.
    FilesMissing,
    /// A file of names is larger than `MAX_ENCODED_LEN` bytes.
    TooLarge,
}

impl TimetableError {
    /// What is said of the failure.
    pub open spec fn description(self) -> Seq<char> {
        match self {
            TimetableError::FilesMissing => "Required .kim files not found in archive"@,
            TimetableError::TooLarge => "The files of names are too large"@,
        }
    }

    /// What is said of the failure, for display.
    pub fn message(&self) -> (r: String)
        ensures
            r@ == self.description(),
    {
        match self {
            TimetableError::FilesMissing => "Required .kim files not found in archive".to_string(),
            TimetableError::TooLarge => "The files of names are too large".to_string(),
        }
    }
}

/// What a directory entry says of a file.
#[derive(Clone, Debug)]
pub struct FileInfo {
    /// The extension of the file name, if it has one.
    pub extension: Option<String>,
    /// When the file was last modified, in nanoseconds since the start of
    /// 1970; `None` where that is unknown or earlier.
    pub modified: Option<u128>,
}

/// What `encoding_rs::EUC_KR.decode` makes of `bytes`: their text in the
/// Korean code page, or, where they begin with a byte order mark, their text
/// in the encoding that the mark names, without the mark.
pub uninterp spec fn euc_kr_decoded(bytes: Seq<u8>) -> Seq<char>;

/// `decode` of `encoding_rs::EUC_KR` on `bytes`. The call looks for a byte
/// order mark first: bytes that begin with one are decoded as UTF-8 or UTF-16
/// as the mark says, and the mark is dropped; all other bytes are decoded in
/// the Korean code page. What is malformed becomes U+FFFD. The result depends
/// on `bytes` alone. Input so long that the size of the output cannot be
/// computed is left out.
#[verifier::external_body]
fn decode_cp949(bytes: &[u8]) -> (text: String)
    requires
        bytes@.len() <= MAX_ENCODED_LEN,
    ensures
        text@ == euc_kr_decoded(bytes@),
{
    let (text, _, _) = encoding_rs::EUC_KR.decode(bytes);
    text.into_owned()
}

/// The names of all lines, line after line; within a line the names stand
/// between carets.
pub open spec fn names_in_lines(lines: Seq<Seq<char>>) -> Seq<Seq<char>>
    decreases lines.len(),
{
    if lines.len() == 0 {
        Seq::empty()
    } else {
        names_in_lines(lines.drop_last()) + trimmed_names(split(lines.last(), '^'))
    }
}

/// The teachers that the file of teachers names. Of more than two names the
/// last is no teacher.
pub open spec fn teacher_names(text: Seq<char>) -> Seq<Seq<char>> {
    let all = names_in_lines(split(text, '\n'));
    if all.len() > 2 {
        all.drop_last()
    } else {
        all
    }
}

/// Of each chunk that holds a caret, what stands before the first caret.
pub open spec fn names_before_caret(chunks: Seq<Seq<char>>) -> Seq<Seq<char>>
    decreases chunks.len(),
{
    if chunks.len() == 0 {
        Seq::empty()
    } else {
        let chunk = chunks.last();
        let caret = first_position(chunk, '^');
        if caret < chunk.len() {
            names_before_caret(chunks.drop_last()).push(chunk.take(caret))
        } else {
            names_before_caret(chunks.drop_last())
        }
    }
}

/// The subjects that the file of subjects names: one in each chunk between
/// dollar signs that holds a caret.
pub open spec fn subject_names(text: Seq<char>) -> Seq<Seq<char>> {
    names_before_caret(split(text, '$'))
}

/// The 32-bit value whose little-endian bytes stand at `at`.
pub open spec fn le_u32(bytes: Seq<u8>, at: int) -> int {
    bytes[at] + 0x100 * bytes[at + 1] + 0x1_0000 * bytes[at + 2] + 0x100_0000 * bytes[at + 3]
}

/// Where the lesson of a teacher, a period and a day stands.
pub open spec fn lesson_offset(chunk: int, period: int, day: int) -> int {
    chunk * CHUNK_SIZE + BLOCK_OFFSET + period * BLOCK_SIZE + day * LESSON_SIZE
}

/// Whether the block of a period is read: it is where all of it lies inside
/// the record.
pub open spec fn block_is_read(period: int) -> bool {
    BLOCK_OFFSET + period * BLOCK_SIZE + BLOCK_SIZE <= CHUNK_SIZE
}

/// The cell without a lesson.
pub open spec fn no_lesson() -> CellView {
    CellView { subject: Seq::empty(), room: Seq::empty() }
}

/// The lesson that a code stands for. The thousands of the code number the
/// subject, from 1; the rest numbers the class. A code without a subject of
/// the list stands for no lesson.
pub open spec fn lesson_of(code: int, subjects: Seq<Seq<char>>) -> CellView {
    let subject = code / 1000;
    let class = code % 1000;
    if 0 < subject <= subjects.len() {
        CellView {
            subject: subjects[subject - 1],
            room: if class > 0 {
                decimal(class as nat) + ROOM_SUFFIX@
            } else {
                Seq::empty()
            },
        }
    } else {
        no_lesson()
    }
}

/// The cell of a teacher, a period and a day.
pub open spec fn timetable_cell(
    bytes: Seq<u8>,
    subjects: Seq<Seq<char>>,
    chunk: int,
    period: int,
    day: int,
) -> CellView {
    if block_is_read(period) {
        lesson_of(le_u32(bytes, lesson_offset(chunk, period, day)), subjects)
    } else {
        no_lesson()
    }
}

/// Whether `week` is the week that the record `chunk` gives the teacher
/// `teacher`.
pub open spec fn is_week_of(
    week: TeacherTimetable,
    teacher: Seq<char>,
    bytes: Seq<u8>,
    subjects: Seq<Seq<char>>,
    chunk: int,
) -> bool {
    &&& week.teacher@ == teacher
    &&& week.periods@.len() == PERIODS
    &&& forall|p: int|
        0 <= p < PERIODS ==> {
            &&& (#[trigger] week.periods@[p])@.len() == DAYS
            &&& forall|d: int|
                0 <= d < DAYS ==> (#[trigger] week.periods@[p]@[d])@ == timetable_cell(
                    bytes,
                    subjects,
                    chunk,
                    p,
                    d,
                )
        }
}

/// Whether `weeks` are the weeks that `bytes` give the teachers: one for
/// each complete record that has a teacher, in order.
pub open spec fn are_weeks_of(
    weeks: Seq<TeacherTimetable>,
    teachers: Seq<Seq<char>>,
    subjects: Seq<Seq<char>>,
    bytes: Seq<u8>,
) -> bool {
    &&& weeks.len() == if bytes.len() / (CHUNK_SIZE as nat) < teachers.len() {
        bytes.len() / (CHUNK_SIZE as nat)
    } else {
        teachers.len()
    }
    &&& forall|c: int|
        0 <= c < weeks.len() ==> is_week_of(#[trigger] weeks[c], teachers[c], bytes, subjects, c)
}

/// Whether `data` is what the two texts and the bytes of lessons hold.
pub open spec fn is_timetable_of(
    data: TimetableData,
    teacher_text: Seq<char>,
    subject_text: Seq<char>,
    bytes: Seq<u8>,
) -> bool {
    &&& views(data.teachers@) == teacher_names(teacher_text)
    &&& views(data.subjects@) == subject_names(subject_text)
    &&& are_weeks_of(
        data.timetables@,
        teacher_names(teacher_text),
        subject_names(subject_text),
        bytes,
    )
}

/// Whether a directory entry is a timetable archive with a known time of
/// modification after the start of 1970.
pub open spec fn is_archive(file: FileInfo) -> bool {
    &&& file.extension matches Some(e) && e@ == ARCHIVE_EXTENSION@
    &&& file.modified matches Some(t) && t > 0
}

/// Which of the three files of an archive a file name stands for, if any:
/// the first of teachers, subjects and lessons whose mark the name holds.
pub open spec fn file_kind_of(name: Seq<char>) -> Option<KimFile> {
    if contains(name, TEACHER_FILE@) {
        Some(KimFile::Teachers)
    } else if contains(name, SUBJECT_FILE@) {
        Some(KimFile::Subjects)
    } else if contains(name, TIMETABLE_FILE@) {
        Some(KimFile::Timetable)
    } else {
        None
    }
}

/// Which of the three files of an archive the file with the name `name` is,
/// if any.
pub fn kim_file_kind_of_name(name: &str) -> (kind: Option<KimFile>)
    ensures
        kind == file_kind_of(name@),
{
    let chars = chars_of(name);
    if contains_chars(&chars, &chars_of(TEACHER_FILE)) {
        Some(KimFile::Teachers)
    } else if contains_chars(&chars, &chars_of(SUBJECT_FILE)) {
        Some(KimFile::Subjects)
    } else if contains_chars(&chars, &chars_of(TIMETABLE_FILE)) {
        Some(KimFile::Timetable)
    } else {
        None
    }
}

/// Which of the three files of an archive the file with the raw name
/// `raw_name` is, if any. The name is decoded in the Korean code page; a
/// name of more than `MAX_ENCODED_LEN` bytes is none of them.
pub fn kim_file_kind(raw_name: &[u8]) -> (kind: Option<KimFile>)
    ensures
        kind == if raw_name@.len() > MAX_ENCODED_LEN {
            None::<KimFile>
        } else {
            file_kind_of(euc_kr_decoded(raw_name@))
        },
{
    if raw_name.len() > MAX_ENCODED_LEN {
        return None;
    }
    kim_file_kind_of_name(decode_cp949(raw_name).as_str())
}

/// The teachers that the file of teachers names.
pub fn parse_teachers(text: &str) -> (teachers: Vec<String>)
    ensures
        views(teachers@) == teacher_names(text@),
{
    let lines = split_chars(&chars_of(text), '\n');
    let ghost all = fields_view(lines@);
    let mut teachers: Vec<String> = Vec::new();
    let mut i: usize = 0;
    proof {
        assert(all.take(0) =~= Seq::<Seq<char>>::empty());
        assert(views(teachers@) =~= names_in_lines(all.take(0)));
    }
    while i < lines.len()
        invariant
            i <= lines.len(),
            all == fields_view(lines@),
            views(teachers@) == names_in_lines(all.take(i as int)),
        decreases lines.len() - i,
    {
        proof {
            assert(all.take(i + 1).drop_last() =~= all.take(i as int));
            assert(all.take(i + 1).last() == lines@[i as int]@);
        }
        let parts = split_chars(&lines[i], '^');
        push_trimmed_names(&mut teachers, &parts);
        i = i + 1;
    }
    proof {
        assert(all.take(lines.len() as int) =~= all);
    }
    if teachers.len() > 2 {
        let ghost before = teachers@;
        teachers.pop();
        proof {
            assert(views(before.drop_last()) =~= views(before).drop_last());
        }
    }
    teachers
}

/// The subjects that the file of subjects names.
pub fn parse_subjects(text: &str) -> (subjects: Vec<String>)
    ensures
        views(subjects@) == subject_names(text@),
{
    let chunks = split_chars(&chars_of(text), '$');
    let ghost all = fields_view(chunks@);
    let mut subjects: Vec<String> = Vec::new();
    let mut i: usize = 0;
    proof {
        assert(all.take(0) =~= Seq::<Seq<char>>::empty());
        assert(views(subjects@) =~= names_before_caret(all.take(0)));
    }
    while i < chunks.len()
        invariant
            i <= chunks.len(),
            all == fields_view(chunks@),
            views(subjects@) == names_before_caret(all.take(i as int)),
        decreases chunks.len() - i,
    {
        proof {
            assert(all.take(i + 1).drop_last() =~= all.take(i as int));
            assert(all.take(i + 1).last() == chunks@[i as int]@);
            assert(chunks@[i as int]@.skip(0) =~= chunks@[i as int]@);
        }
        let chunk = &chunks[i];
        let caret = find_from(chunk, 0, '^');
        if caret < chunk.len() {
            let ghost before = subjects@;
            let owned = string_of(&subrange(chunk, 0, caret));
            subjects.push(owned);
            proof {
                assert(views(before.push(owned)) =~= views(before).push(chunk@.take(caret as int)));
            }
        }
        i = i + 1;
    }
    proof {
        assert(all.take(chunks.len() as int) =~= all);
    }
    subjects
}

/// The lesson that a code stands for.
pub fn lesson(code: u32, subjects: &Vec<String>) -> (cell: TimetableCell)
    ensures
        cell@ == lesson_of(code as int, views(subjects@)),
{
    let subject = code / 1000;
    let class = code % 1000;
    if subject > 0 && subject as usize <= subjects.len() {
        let room = if class > 0 {
            let mut r = decimal_chars(class as u64);
            append(&mut r, &chars_of(ROOM_SUFFIX));
            string_of(&r)
        } else {
            String::new()
        };
        proof {
            assert(views(subjects@)[subject - 1] == subjects@[subject - 1]@);
        }
        TimetableCell { subject: subjects[subject as usize - 1].clone(), room }
    } else {
        TimetableCell { subject: String::new(), room: String::new() }
    }
}

/// The week that the record `chunk` gives the teacher `teacher`.
fn week_of(teacher: &String, bytes: &[u8], subjects: &Vec<String>, chunk: usize) -> (week:
    TeacherTimetable)
    requires
        (chunk + 1) * CHUNK_SIZE <= bytes@.len(),
    ensures
        is_week_of(week, teacher@, bytes@, views(subjects@), chunk as int),
{
    let n = bytes.len();
    proof {
        assert((chunk + 1) * CHUNK_SIZE == chunk * CHUNK_SIZE + CHUNK_SIZE) by (nonlinear_arith);
    }
    let base = chunk * CHUNK_SIZE;
    let mut periods: Vec<Vec<TimetableCell>> = Vec::new();
    let mut p: usize = 0;
    while p < PERIODS
        invariant
            p <= PERIODS,
            base == chunk * CHUNK_SIZE,
            base + CHUNK_SIZE <= n == bytes@.len(),
            periods@.len() == p,
            forall|q: int|
                0 <= q < p ==> {
                    &&& (#[trigger] periods@[q])@.len() == DAYS
                    &&& forall|d: int|
                        0 <= d < DAYS ==> (#[trigger] periods@[q]@[d])@ == timetable_cell(
                            bytes@,
                            views(subjects@),
                            chunk as int,
                            q,
                            d,
                        )
                },
        decreases PERIODS - p,
    {
        proof {
            assert(p * BLOCK_SIZE == 28 * p) by (nonlinear_arith)
                requires
                    BLOCK_SIZE == 28,
            ;
        }
        let block = BLOCK_OFFSET + p * BLOCK_SIZE;
        let read = block + BLOCK_SIZE <= CHUNK_SIZE;
        let mut row: Vec<TimetableCell> = Vec::new();
        let mut d: usize = 0;
        while d < DAYS
            invariant
                d <= DAYS,
                p < PERIODS,
                base == chunk * CHUNK_SIZE,
                base + CHUNK_SIZE <= n == bytes@.len(),
                block == BLOCK_OFFSET + p * BLOCK_SIZE,
                read == block_is_read(p as int),
                row@.len() == d,
                forall|e: int|
                    0 <= e < d ==> (#[trigger] row@[e])@ == timetable_cell(
                        bytes@,
                        views(subjects@),
                        chunk as int,
                        p as int,
                        e,
                    ),
            decreases DAYS - d,
        {
            proof {
                assert(d * LESSON_SIZE == 4 * d) by (nonlinear_arith)
                    requires
                        LESSON_SIZE == 4,
                ;
            }
            let cell = if read {
                let at = base + block + d * LESSON_SIZE;
                let code: u32 = bytes[at] as u32 + 0x100 * (bytes[at + 1] as u32) + 0x1_0000 * (
                bytes[at + 2] as u32) + 0x100_0000 * (bytes[at + 3] as u32);
                lesson(code, subjects)
            } else {
                TimetableCell { subject: String::new(), room: String::new() }
            };
            row.push(cell);
            d = d + 1;
        }
        periods.push(row);
        p = p + 1;
    }
    TeacherTimetable { teacher: teacher.clone(), periods }
}

/// The weeks that `bytes` give the teachers.
pub fn parse_weeks(teachers: &Vec<String>, subjects: &Vec<String>, bytes: &[u8]) -> (weeks: Vec<
    TeacherTimetable,
>)
    ensures
        are_weeks_of(weeks@, views(teachers@), views(subjects@), bytes@),
{
    let chunks = bytes.len() / CHUNK_SIZE;
    let count = if chunks < teachers.len() {
        chunks
    } else {
        teachers.len()
    };
    let mut weeks: Vec<TeacherTimetable> = Vec::new();
    let mut c: usize = 0;
    while c < count
        invariant
            c <= count,
            count <= teachers.len(),
            count <= bytes@.len() / (CHUNK_SIZE as nat),
            weeks@.len() == c,
            forall|k: int|
                0 <= k < c ==> is_week_of(
                    #[trigger] weeks@[k],
                    views(teachers@)[k],
                    bytes@,
                    views(subjects@),
                    k,
                ),
        decreases count - c,
    {
        proof {
            assert(views(teachers@)[c as int] == teachers@[c as int]@);
            assert((c + 1) * CHUNK_SIZE <= bytes@.len()) by (nonlinear_arith)
                requires
                    c + 1 <= bytes@.len() / (CHUNK_SIZE as nat),
                    CHUNK_SIZE == 252,
            ;
        }
        let week = week_of(&teachers[c], bytes, subjects, c);
        weeks.push(week);
        c = c + 1;
    }
    weeks
}

/// What the decoded files of names and the bytes of lessons hold.
pub fn timetable_from_text(teacher_text: &str, subject_text: &str, timetable_bytes: &[u8]) -> (data:
    TimetableData)
    ensures
        is_timetable_of(data, teacher_text@, subject_text@, timetable_bytes@),
{
    let teachers = parse_teachers(teacher_text);
    let subjects = parse_subjects(subject_text);
    let timetables = parse_weeks(&teachers, &subjects, timetable_bytes);
    TimetableData { teachers, subjects, timetables }
}

/// Reads the three files of a timetable archive. All three must hold
/// something; the two files of names are decoded in the Korean code page.
pub fn parse_timetable(teacher_bytes: &[u8], subject_bytes: &[u8], timetable_bytes: &[u8]) -> (r:
    Result<TimetableData, TimetableError>)
    ensures
        match r {
            Ok(data) => {
                &&& teacher_bytes@.len() > 0 && subject_bytes@.len() > 0 && timetable_bytes@.len()
                    > 0
                &&& teacher_bytes@.len() <= MAX_ENCODED_LEN && subject_bytes@.len()
                    <= MAX_ENCODED_LEN
                &&& is_timetable_of(
                    data,
                    euc_kr_decoded(teacher_bytes@),
                    euc_kr_decoded(subject_bytes@),
                    timetable_bytes@,
                )
            },
            Err(TimetableError::FilesMissing) => teacher_bytes@.len() == 0 || subject_bytes@.len()
                == 0 || timetable_bytes@.len() == 0,
            Err(TimetableError::TooLarge) => {
                &&& teacher_bytes@.len() > 0 && subject_bytes@.len() > 0 && timetable_bytes@.len()
                    > 0
                &&& (teacher_bytes@.len() > MAX_ENCODED_LEN || subject_bytes@.len()
                    > MAX_ENCODED_LEN)
            },
        },
{
    if teacher_bytes.len() == 0 || subject_bytes.len() == 0 || timetable_bytes.len() == 0 {
        return Err(TimetableError::FilesMissing);
    }
    if teacher_bytes.len() > MAX_ENCODED_LEN || subject_bytes.len() > MAX_ENCODED_LEN {
        return Err(TimetableError::TooLarge);
    }
    let teacher_text = decode_cp949(teacher_bytes);
    let subject_text = decode_cp949(subject_bytes);
    Ok(timetable_from_text(teacher_text.as_str(), subject_text.as_str(), timetable_bytes))
}

/// Picks the timetable archive that was modified last: among the entries
/// that are archives, the first of those with the latest time.
pub fn get_latest_gwa_file(entries: &Vec<FileInfo>) -> (latest: Option<usize>)
    ensures
        match latest {
            Some(i) => {
                &&& i < entries@.len()
                &&& is_archive(entries@[i as int])
                &&& forall|j: int|
                    0 <= j < entries@.len() && is_archive(#[trigger] entries@[j])
                        ==> entries@[j].modified->0 <= entries@[i as int].modified->0
                &&& forall|j: int|
                    0 <= j < i && is_archive(#[trigger] entries@[j]) ==> entries@[j].modified->0
                        < entries@[i as int].modified->0
            },
            None => forall|j: int| 0 <= j < entries@.len() ==> !is_archive(#[trigger] entries@[j]),
        },
{
    let mut latest: Option<usize> = None;
    let mut latest_time: u128 = 0;
    let mut i: usize = 0;
    while i < entries.len()
        invariant
            i <= entries.len(),
            match latest {
                Some(k) => {
                    &&& k < i
                    &&& is_archive(entries@[k as int])
                    &&& latest_time == entries@[k as int].modified->0
                    &&& forall|j: int|
                        0 <= j < i && is_archive(#[trigger] entries@[j])
                            ==> entries@[j].modified->0 <= latest_time
                    &&& forall|j: int|
                        0 <= j < k && is_archive(#[trigger] entries@[j])
                            ==> entries@[j].modified->0 < latest_time
                },
                None => latest_time == 0 && forall|j: int|
                    0 <= j < i ==> !is_archive(#[trigger] entries@[j]),
            },
        decreases entries.len() - i,
    {
        let entry = &entries[i];
        let named = match &entry.extension {
            Some(e) => same_text(e.as_str(), ARCHIVE_EXTENSION),
            None => false,
        };
        if named {
            match entry.modified {
                Some(t) => {
                    if t > latest_time {
                        latest_time = t;
                        latest = Some(i);
                    }
                },
                None => {},
            }
        }
        i = i + 1;
    }
    latest
}

} // verus!
