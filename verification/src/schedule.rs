//! The calendar: schedule items, and the items that the calendar entries
//! kept in the settings turn into.

use crate::models::{clone_option, option_view};
use crate::text::{append, chars_of, decimal, decimal_chars, string_of};
use vstd::prelude::*;

verus! {

/// The type of an item that was a to-do of the settings.
pub const MANUAL_ENTRY_TYPE: &'static str = "manual_todo";

/// The title of such an item where the to-do had none.
pub const DEFAULT_ENTRY_TITLE: &'static str = "할 일";

/// The type of an item that was a period of the settings.
pub const PERIOD_SCHEDULE_TYPE: &'static str = "period_schedule";

/// The title of such an item where the period had none.
pub const DEFAULT_PERIOD_TITLE: &'static str = "일정";

/// The type of an item that was the deadline of a message.
pub const MESSAGE_TASK_TYPE: &'static str = "message_task";

/// The title of such an item where the message had none.
pub const DEFAULT_MESSAGE_TITLE: &'static str = "메시지 일정";

/// What is reported when the settings had been carried over before.
pub const ALREADY_MIGRATED: &'static str = "Already migrated";

/// The table of schedule items.
pub const CREATE_SCHEDULES_SQL: &'static str = "CREATE TABLE IF NOT EXISTS tbl_schedules (
    id TEXT PRIMARY KEY,
    type TEXT NOT NULL,
    title TEXT NOT NULL,
    content TEXT,
    start_date TEXT,
    end_date TEXT,
    is_all_day BOOLEAN NOT NULL DEFAULT 0,
    reference_id TEXT,
    color TEXT,
    is_completed BOOLEAN NOT NULL DEFAULT 0,
    created_at TEXT NOT NULL,
    updated_at TEXT NOT NULL,
    is_deleted BOOLEAN NOT NULL DEFAULT 0
)";

/// Reads the items that are not deleted and touch the span from the first
/// parameter to the second.
pub const SELECT_SCHEDULES_SQL: &'static str =
    "SELECT id, type, title, content, start_date, end_date, is_all_day, reference_id, color, is_completed, created_at, updated_at, is_deleted
FROM tbl_schedules
WHERE is_deleted = 0 AND (
    (start_date BETWEEN ?1 AND ?2) OR
    (end_date BETWEEN ?1 AND ?2) OR
    (start_date <= ?1 AND end_date >= ?2)
)";

/// Writes a new item.
pub const INSERT_SCHEDULE_SQL: &'static str =
    "INSERT INTO tbl_schedules (id, type, title, content, start_date, end_date, is_all_day, reference_id, color, is_completed, created_at, updated_at, is_deleted)
VALUES (?1, ?2, ?3, ?4, ?5, ?6, ?7, ?8, ?9, ?10, ?11, ?12, ?13)";

/// Writes an item over the one whose id is the last parameter.
pub const UPDATE_SCHEDULE_SQL: &'static str = "UPDATE tbl_schedules SET
    type = ?1, title = ?2, content = ?3, start_date = ?4, end_date = ?5, is_all_day = ?6,
    reference_id = ?7, color = ?8, is_completed = ?9, updated_at = ?10, is_deleted = ?11
WHERE id = ?12";

/// Marks the item whose id is the second parameter as deleted, at the time
/// that is the first.
pub const DELETE_SCHEDULE_SQL: &'static str =
    "UPDATE tbl_schedules SET is_deleted = 1, updated_at = ?1 WHERE id = ?2";

/// One item of the calendar.
#[derive(Clone, Debug)]
pub struct ScheduleItem {
    pub id: String,
    pub schedule_type: String,
    pub title: String,
    pub content: Option<String>,
    pub start_date: Option<String>,
    pub end_date: Option<String>,
    pub is_all_day: bool,
    pub reference_id: Option<String>,
    pub color: Option<String>,
    pub is_completed: bool,
    pub created_at: String,
    pub updated_at: String,
    pub is_deleted: bool,
}

/// What a `ScheduleItem` holds.
pub struct ScheduleView {
    pub id: Seq<char>,
    pub schedule_type: Seq<char>,
    pub title: Seq<char>,
    pub content: Option<Seq<char>>,
    pub start_date: Option<Seq<char>>,
    pub end_date: Option<Seq<char>>,
    pub is_all_day: bool,
    pub reference_id: Option<Seq<char>>,
    pub color: Option<Seq<char>>,
    pub is_completed: bool,
    pub created_at: Seq<char>,
    pub updated_at: Seq<char>,
    pub is_deleted: bool,
}

impl View for ScheduleItem {
    type V = ScheduleView;

    open spec fn view(&self) -> ScheduleView {
        ScheduleView {
            id: self.id@,
            schedule_type: self.schedule_type@,
            title: self.title@,
            content: option_view(self.content),
            start_date: option_view(self.start_date),
            end_date: option_view(self.end_date),
            is_all_day: self.is_all_day,
            reference_id: option_view(self.reference_id),
            color: option_view(self.color),
            is_completed: self.is_completed,
            created_at: self.created_at@,
            updated_at: self.updated_at@,
            is_deleted: self.is_deleted,
        }
    }
}

/// The views of a sequence of schedule items.
pub open spec fn schedule_views(v: Seq<ScheduleItem>) -> Seq<ScheduleView> {
    v.map_values(|s: ScheduleItem| s@)
}

/// A to-do as the settings held it.
#[derive(Clone, Debug)]
pub struct ManualTodo {
    pub id: String,
    pub content: String,
    pub deadline: Option<String>,
    pub created_at: String,
    pub updated_at: String,
    pub calendar_title: Option<String>,
    pub is_deleted: Option<bool>,
}

/// A period as the settings held it.
#[derive(Clone, Debug)]
pub struct PeriodSchedule {
    pub id: String,
    pub content: String,
    pub start_date: String,
    pub end_date: String,
    pub calendar_title: Option<String>,
    pub created_at: String,
    pub updated_at: String,
    pub is_deleted: Option<bool>,
}

/// The deadline of a message as the settings held it, with the title of
/// the message where it had one, and the id that the item is to take.
#[derive(Clone, Debug)]
pub struct MessageDeadline {
    pub new_id: String,
    pub message_id: String,
    pub deadline: String,
    pub title: Option<String>,
}

/// The text of an optional string, or `default` where there is none.
pub open spec fn text_or(s: Option<String>, default: Seq<char>) -> Seq<char> {
    match s {
        Some(t) => t@,
        None => default,
    }
}

/// The item that a to-do turns into: it begins and ends at its deadline.
pub open spec fn item_of_todo(todo: ManualTodo) -> ScheduleView {
    ScheduleView {
        id: todo.id@,
        schedule_type: MANUAL_ENTRY_TYPE@,
        title: text_or(todo.calendar_title, DEFAULT_ENTRY_TITLE@),
        content: Some(todo.content@),
        start_date: option_view(todo.deadline),
        end_date: option_view(todo.deadline),
        is_all_day: false,
        reference_id: None,
        color: None,
        is_completed: false,
        created_at: todo.created_at@,
        updated_at: todo.updated_at@,
        is_deleted: todo.is_deleted == Some(true),
    }
}

/// The item that a period turns into: it takes all day.
pub open spec fn item_of_period(period: PeriodSchedule) -> ScheduleView {
    ScheduleView {
        id: period.id@,
        schedule_type: PERIOD_SCHEDULE_TYPE@,
        title: text_or(period.calendar_title, DEFAULT_PERIOD_TITLE@),
        content: Some(period.content@),
        start_date: Some(period.start_date@),
        end_date: Some(period.end_date@),
        is_all_day: true,
        reference_id: None,
        color: None,
        is_completed: false,
        created_at: period.created_at@,
        updated_at: period.updated_at@,
        is_deleted: period.is_deleted == Some(true),
    }
}

/// The item that the deadline of a message turns into at the time `now`: it
/// refers to the message.
pub open spec fn item_of_deadline(entry: MessageDeadline, now: Seq<char>) -> ScheduleView {
    ScheduleView {
        id: entry.new_id@,
        schedule_type: MESSAGE_TASK_TYPE@,
        title: text_or(entry.title, DEFAULT_MESSAGE_TITLE@),
        content: None,
        start_date: Some(entry.deadline@),
        end_date: Some(entry.deadline@),
        is_all_day: false,
        reference_id: Some(entry.message_id@),
        color: None,
        is_completed: false,
        created_at: now,
        updated_at: now,
        is_deleted: false,
    }
}

/// The items that the settings turn into: those of the to-dos, then those
/// of the periods, then those of the deadlines.
pub open spec fn migrated_items(
    todos: Seq<ManualTodo>,
    periods: Seq<PeriodSchedule>,
    deadlines: Seq<MessageDeadline>,
    now: Seq<char>,
) -> Seq<ScheduleView> {
    todos.map_values(|t: ManualTodo| item_of_todo(t)) + periods.map_values(
        |p: PeriodSchedule| item_of_period(p),
    ) + deadlines.map_values(|d: MessageDeadline| item_of_deadline(d, now))
}

/// What is reported after `count` items were carried over.
pub open spec fn migration_report(count: nat) -> Seq<char> {
    "Migrated "@ + decimal(count) + " items"@
}

/// The text of an optional string, or `default` where there is none.
fn text_or_default(s: &Option<String>, default: &str) -> (r: String)
    ensures
        r@ == text_or(*s, default@),
{
    match s {
        Some(t) => t.clone(),
        None => default.to_string(),
    }
}

/// The item that a to-do of the settings turns into.
pub fn schedule_from_todo(todo: &ManualTodo) -> (item: ScheduleItem)
    ensures
        item@ == item_of_todo(*todo),
{
    ScheduleItem {
        id: todo.id.clone(),
        schedule_type: MANUAL_ENTRY_TYPE.to_string(),
        title: text_or_default(&todo.calendar_title, DEFAULT_ENTRY_TITLE),
        content: Some(todo.content.clone()),
        start_date: clone_option(&todo.deadline),
        end_date: clone_option(&todo.deadline),
        is_all_day: false,
        reference_id: None,
        color: None,
        is_completed: false,
        created_at: todo.created_at.clone(),
        updated_at: todo.updated_at.clone(),
        is_deleted: match todo.is_deleted {
            Some(deleted) => deleted,
            None => false,
        },
    }
}

/// The item that a period of the settings turns into.
pub fn schedule_from_period(period: &PeriodSchedule) -> (item: ScheduleItem)
    ensures
        item@ == item_of_period(*period),
{
    ScheduleItem {
        id: period.id.clone(),
        schedule_type: PERIOD_SCHEDULE_TYPE.to_string(),
        title: text_or_default(&period.calendar_title, DEFAULT_PERIOD_TITLE),
        content: Some(period.content.clone()),
        start_date: Some(period.start_date.clone()),
        end_date: Some(period.end_date.clone()),
        is_all_day: true,
        reference_id: None,
        color: None,
        is_completed: false,
        created_at: period.created_at.clone(),
        updated_at: period.updated_at.clone(),
        is_deleted: match period.is_deleted {
            Some(deleted) => deleted,
            None => false,
        },
    }
}

/// The item that the deadline of a message turns into at the time `now`.
pub fn schedule_from_deadline(entry: &MessageDeadline, now: &str) -> (item: ScheduleItem)
    ensures
        item@ == item_of_deadline(*entry, now@),
{
    ScheduleItem {
        id: entry.new_id.clone(),
        schedule_type: MESSAGE_TASK_TYPE.to_string(),
        title: text_or_default(&entry.title, DEFAULT_MESSAGE_TITLE),
        content: None,
        start_date: Some(entry.deadline.clone()),
        end_date: Some(entry.deadline.clone()),
        is_all_day: false,
        reference_id: Some(entry.message_id.clone()),
        color: None,
        is_completed: false,
        created_at: now.to_string(),
        updated_at: now.to_string(),
        is_deleted: false,
    }
}

/// What is reported after `count` items were carried over.
pub fn report_migration(count: usize) -> (report: String)
    ensures
        report@ == migration_report(count as nat),
{
    let mut out = chars_of("Migrated ");
    append(&mut out, &decimal_chars(count as u64));
    append(&mut out, &chars_of(" items"));
    string_of(&out)
}

/// Carries the calendar entries of the settings over: the items to write,
/// in order, and the report of how many there are.
pub fn migrate_registry_to_db_command(
    todos: &Vec<ManualTodo>,
    periods: &Vec<PeriodSchedule>,
    deadlines: &Vec<MessageDeadline>,
    now: &str,
) -> (r: (Vec<ScheduleItem>, String))
    ensures
        schedule_views(r.0@) == migrated_items(todos@, periods@, deadlines@, now@),
        r.1@ == migration_report(r.0@.len()),
{
    let mut items: Vec<ScheduleItem> = Vec::new();
    let mut i: usize = 0;
    while i < todos.len()
        invariant
            i <= todos.len(),
            items@.len() == i,
            forall|k: int| 0 <= k < i ==> (#[trigger] items@[k])@ == item_of_todo(todos@[k]),
        decreases todos.len() - i,
    {
        items.push(schedule_from_todo(&todos[i]));
        i = i + 1;
    }
    let mut j: usize = 0;
    while j < periods.len()
        invariant
            j <= periods.len(),
            items@.len() == todos@.len() + j,
            forall|k: int|
                0 <= k < todos@.len() ==> (#[trigger] items@[k])@ == item_of_todo(todos@[k]),
            forall|k: int|
                0 <= k < j ==> (#[trigger] items@[todos@.len() + k])@ == item_of_period(periods@[k]),
        decreases periods.len() - j,
    {
        items.push(schedule_from_period(&periods[j]));
        j = j + 1;
    }
    let mut d: usize = 0;
    while d < deadlines.len()
        invariant
            d <= deadlines.len(),
            items@.len() == todos@.len() + periods@.len() + d,
            forall|k: int|
                0 <= k < todos@.len() ==> (#[trigger] items@[k])@ == item_of_todo(todos@[k]),
            forall|k: int|
                0 <= k < periods@.len() ==> (#[trigger] items@[todos@.len() + k])@
                    == item_of_period(periods@[k]),
            forall|k: int|
                0 <= k < d ==> (#[trigger] items@[todos@.len() + periods@.len() + k])@
                    == item_of_deadline(deadlines@[k], now@),
        decreases deadlines.len() - d,
    {
        items.push(schedule_from_deadline(&deadlines[d], now));
        d = d + 1;
    }
    proof {
        let expected = migrated_items(todos@, periods@, deadlines@, now@);
        assert(schedule_views(items@).len() == expected.len());
        assert forall|k: int| 0 <= k < expected.len() implies schedule_views(items@)[k]
            == expected[k] by {
            if k < todos@.len() {
            } else if k < todos@.len() + periods@.len() {
                assert(items@[todos@.len() + (k - todos@.len())]@ == item_of_period(
                    periods@[k - todos@.len()],
                ));
            } else {
                let at = k - todos@.len() - periods@.len();
                assert(items@[todos@.len() + periods@.len() + at]@ == item_of_deadline(
                    deadlines@[at],
                    now@,
                ));
            }
        }
        assert(schedule_views(items@) =~= expected);
    }
    let report = report_migration(items.len());
    (items, report)
}

} // verus!
