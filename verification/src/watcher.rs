//! The change watcher: from file-system events on the write-ahead log of the
//! foreign store to the signal that a new message has arrived.
//!
//! The watcher keeps the latest message id that it has seen. An event
//! qualifies when it concerns the write-ahead log, creates or modifies it,
//! and the log exists. On a qualifying event the latest id is read again,
//! and a new message is signalled exactly when the id has advanced.

use crate::text::{append, chars_of, string_of};
use vstd::prelude::*;

verus! {

/// What the name of the write-ahead log adds to the name of the database.
pub const WAL_SUFFIX: &'static str = "-wal";

/// For how many nanoseconds after the user hid the window a new message
/// does not bring it back.
pub const HIDE_COOLDOWN_NANOS: u128 = 2_000_000_000;

/// The kind of a file-system event, as far as the watcher tells kinds apart.
#[derive(Clone, Copy, Debug, PartialEq, Eq, Structural)]
pub enum FsEventKind {
    Create,
    Modify,
    Other,
}

/// How one path of an event compares with the path of the write-ahead log.
#[derive(Clone, Copy, Debug, PartialEq, Eq, Structural)]
pub struct PathMatch {
    /// Whether the canonical forms of the two paths are equal; `None` where
    /// one of them has no canonical form.
    pub canonical_equal: Option<bool>,
    /// Whether the two paths are equal as they stand.
    pub raw_equal: bool,
}

/// The outcome of reading the latest message id.
#[derive(Clone, Copy, Debug, PartialEq, Eq, Structural)]
pub enum LatestRead {
    /// The read failed.
    Failed,
    /// The store holds no message.
    Empty,
    /// The largest message id of the store.
    Latest(i64),
}

/// What the watcher remembers between events.
#[derive(Clone, Copy, Debug, PartialEq, Eq, Structural)]
pub struct WatcherState {
    /// The latest message id seen so far.
    pub last_seen_id: Option<i64>,
    /// Whether an id has ever been seen.
    pub baseline_initialized: bool,
}

/// One occurrence in the life of a watcher: whether the event qualified, and
/// what reading the latest id gave, or would have given.
pub struct Observation {
    pub qualifies: bool,
    pub read: LatestRead,
}

impl PathMatch {
    /// Whether the path is that of the write-ahead log: by the canonical
    /// forms where both exist, else by the paths as they stand.
    pub open spec fn is_wal(self) -> bool {
        match self.canonical_equal {
            Some(equal) => equal,
            None => self.raw_equal,
        }
    }
}

/// Whether one of the paths is that of the write-ahead log.
pub open spec fn concerns_wal(paths: Seq<PathMatch>) -> bool {
    exists|i: int| 0 <= i < paths.len() && (#[trigger] paths[i]).is_wal()
}

/// Whether an event leads to a read of the latest id: it concerns the
/// write-ahead log, it creates or modifies it, and the log exists.
pub open spec fn event_qualifies(kind: FsEventKind, paths: Seq<PathMatch>, wal_exists: bool) -> bool {
    concerns_wal(paths) && wal_exists && (kind == FsEventKind::Create || kind
        == FsEventKind::Modify)
}

impl WatcherState {
    /// The flag says whether an id has been seen.
    pub open spec fn wf(self) -> bool {
        self.baseline_initialized == self.last_seen_id.is_some()
    }

    /// The state of a watcher whose first read gave `read`.
    pub open spec fn started(read: LatestRead) -> WatcherState {
        match read {
            LatestRead::Latest(id) => WatcherState {
                last_seen_id: Some(id),
                baseline_initialized: true,
            },
            _ => WatcherState { last_seen_id: None, baseline_initialized: false },
        }
    }

    /// Whether `read` shows a new message: it gave an id, and either that id
    /// is above the one seen before, or none was seen before and the
    /// baseline was never set.
    pub open spec fn notices(self, read: LatestRead) -> bool {
        match read {
            LatestRead::Latest(id) => match self.last_seen_id {
                Some(previous) => id > previous,
                None => !self.baseline_initialized,
            },
            _ => false,
        }
    }

    /// The state after `read`: an id is remembered, anything else changes
    /// nothing.
    pub open spec fn after(self, read: LatestRead) -> WatcherState {
        match read {
            LatestRead::Latest(id) => WatcherState {
                last_seen_id: Some(id),
                baseline_initialized: true,
            },
            _ => self,
        }
    }

    /// The state after a run of observations. Only qualifying events lead to
    /// a read.
    pub open spec fn after_all(self, run: Seq<Observation>) -> WatcherState
        decreases run.len(),
    {
        if run.len() == 0 {
            self
        } else {
            let before = self.after_all(run.drop_last());
            if run.last().qualifies {
                before.after(run.last().read)
            } else {
                before
            }
        }
    }

    /// How many new messages a run of observations signals.
    pub open spec fn signals(self, run: Seq<Observation>) -> nat
        decreases run.len(),
    {
        if run.len() == 0 {
            0
        } else {
            let earlier = self.signals(run.drop_last());
            let before = self.after_all(run.drop_last());
            if run.last().qualifies && before.notices(run.last().read) {
                earlier + 1
            } else {
                earlier
            }
        }
    }

    /// Starts a watcher from the first read of the latest id.
    pub fn start(read: LatestRead) -> (state: WatcherState)
        ensures
            state == WatcherState::started(read),
            state.wf(),
    {
        match read {
            LatestRead::Latest(id) => WatcherState {
                last_seen_id: Some(id),
                baseline_initialized: true,
            },
            _ => WatcherState { last_seen_id: None, baseline_initialized: false },
        }
    }

    /// Takes in what reading the latest id gave after a qualifying event, and
    /// says whether a new message has arrived. A failed read and an empty
    /// store change nothing, so that a later read still shows what has
    /// arrived meanwhile.
    pub fn observe(&mut self, read: LatestRead) -> (new_message: bool)
        ensures
            new_message == old(self).notices(read),
            *final(self) == old(self).after(read),
            old(self).wf() ==> final(self).wf(),
    {
        match read {
            LatestRead::Latest(id) => {
                let new_message = match self.last_seen_id {
                    Some(previous) => id > previous,
                    None => !self.baseline_initialized,
                };
                self.last_seen_id = Some(id);
                self.baseline_initialized = true;
                new_message
            },
            _ => false,
        }
    }
}

/// The path of the write-ahead log of the database at `db_path`.
pub fn wal_path_of(db_path: &str) -> (wal_path: String)
    ensures
        wal_path@ == db_path@ + WAL_SUFFIX@,
{
    let mut out = chars_of(db_path);
    let suffix = chars_of(WAL_SUFFIX);
    append(&mut out, &suffix);
    string_of(&out)
}

/// Whether one of the paths of an event is that of the write-ahead log.
pub fn is_wal_related(paths: &Vec<PathMatch>) -> (related: bool)
    ensures
        related == concerns_wal(paths@),
{
    let mut i: usize = 0;
    while i < paths.len()
        invariant
            i <= paths.len(),
            forall|j: int| 0 <= j < i ==> !(#[trigger] paths@[j]).is_wal(),
        decreases paths.len() - i,
    {
        let p = paths[i];
        let hit = match p.canonical_equal {
            Some(equal) => equal,
            None => p.raw_equal,
        };
        if hit {
            return true;
        }
        i = i + 1;
    }
    false
}

/// Whether an event leads to a read of the latest id.
pub fn should_process(kind: FsEventKind, paths: &Vec<PathMatch>, wal_exists: bool) -> (process:
    bool)
    ensures
        process == event_qualifies(kind, paths@, wal_exists),
{
    if !is_wal_related(paths) {
        return false;
    }
    match kind {
        FsEventKind::Create => wal_exists,
        FsEventKind::Modify => wal_exists,
        FsEventKind::Other => false,
    }
}

/// Whether the user hid the window so recently that a new message must not
/// bring it back. `since_hide_nanos` is the time since the window was last
/// hidden, if it ever was.
pub fn recently_hidden(since_hide_nanos: Option<u128>) -> (recent: bool)
    ensures
        recent == (since_hide_nanos matches Some(n) && n < HIDE_COOLDOWN_NANOS),
{
    match since_hide_nanos {
        Some(n) => n < HIDE_COOLDOWN_NANOS,
        None => false,
    }
}

/// Whether a new message brings the window back: it does unless the window
/// was hidden a moment ago, or class is in session.
pub fn should_show_window(since_hide_nanos: Option<u128>, class_time: bool) -> (show: bool)
    ensures
        show == (!(since_hide_nanos matches Some(n) && n < HIDE_COOLDOWN_NANOS) && !class_time),
{
    !recently_hidden(since_hide_nanos) && !class_time
}

/// Whether every read of `run` either failed or gave `read`.
pub open spec fn reads_only(run: Seq<Observation>, read: LatestRead) -> bool {
    forall|i: int|
        0 <= i < run.len() ==> (#[trigger] run[i]).read == LatestRead::Failed || run[i].read
            == read
}

/// Whether a qualifying event of `run` read `read`.
pub open spec fn reads_once(run: Seq<Observation>, read: LatestRead) -> bool {
    exists|i: int| 0 <= i < run.len() && (#[trigger] run[i]).qualifies && run[i].read == read
}

/// In every state that a watcher reaches, the flag says whether an id has
/// been seen.
pub proof fn lemma_reachable_states_are_well_formed(first: LatestRead, run: Seq<Observation>)
    ensures
        WatcherState::started(first).after_all(run).wf(),
    decreases run.len(),
{
    if run.len() > 0 {
        lemma_reachable_states_are_well_formed(first, run.drop_last());
    }
}

/// No false alarm at startup: a watcher whose first read succeeded, on a
/// store that is not written to afterwards, signals nothing, whatever events
/// come and whichever of the later reads fail.
pub proof fn lemma_quiet_store_signals_nothing(first: LatestRead, run: Seq<Observation>)
    requires
        first != LatestRead::Failed,
        reads_only(run, first),
    ensures
        WatcherState::started(first).signals(run) == 0,
        WatcherState::started(first).after_all(run) == WatcherState::started(first),
    decreases run.len(),
{
    if run.len() > 0 {
        let earlier = run.drop_last();
        assert(reads_only(earlier, first)) by {
            assert forall|i: int| 0 <= i < earlier.len() implies (#[trigger] earlier[i]).read
                == LatestRead::Failed || earlier[i].read == first by {
                assert(earlier[i] == run[i]);
            }
        }
        lemma_quiet_store_signals_nothing(first, earlier);
        assert(run.last() == run[run.len() - 1]);
    }
}

/// A true arrival is signalled once: from the baseline `baseline`, when the
/// store gains one message with the id `arrived` above it, the events that
/// follow signal exactly one new message if a qualifying event reads the new
/// id, and none before that, however many events come.
pub proof fn lemma_new_arrival_signals_once(baseline: i64, arrived: i64, run: Seq<Observation>)
    requires
        arrived > baseline,
        reads_only(run, LatestRead::Latest(arrived)),
    ensures
        WatcherState::started(LatestRead::Latest(baseline)).signals(run) == (if reads_once(
            run,
            LatestRead::Latest(arrived),
        ) {
            1nat
        } else {
            0nat
        }),
        WatcherState::started(LatestRead::Latest(baseline)).after_all(run).last_seen_id == (
        if reads_once(run, LatestRead::Latest(arrived)) {
            Some(arrived)
        } else {
            Some(baseline)
        }),
    decreases run.len(),
{
    let start = WatcherState::started(LatestRead::Latest(baseline));
    let seen = LatestRead::Latest(arrived);
    if run.len() == 0 {
        assert(!reads_once(run, seen));
    } else {
        let earlier = run.drop_last();
        let last = run.last();
        assert(last == run[run.len() - 1]);
        assert(reads_only(earlier, seen)) by {
            assert forall|i: int| 0 <= i < earlier.len() implies (#[trigger] earlier[i]).read
                == LatestRead::Failed || earlier[i].read == seen by {
                assert(earlier[i] == run[i]);
            }
        }
        lemma_new_arrival_signals_once(baseline, arrived, earlier);
        if reads_once(earlier, seen) {
            let i = choose|i: int|
                0 <= i < earlier.len() && (#[trigger] earlier[i]).qualifies && earlier[i].read
                    == seen;
            assert(run[i] == earlier[i]);
            assert(reads_once(run, seen));
        } else if last.qualifies && last.read == seen {
            assert(reads_once(run, seen));
        } else {
            assert(!reads_once(run, seen)) by {
                if reads_once(run, seen) {
                    let i = choose|i: int|
                        0 <= i < run.len() && (#[trigger] run[i]).qualifies && run[i].read == seen;
                    if i < run.len() - 1 {
                        assert(earlier[i] == run[i]);
                    }
                }
            }
        }
    }
}

} // verus!
