//! When files are loaded anew and changes are written, as time goes by.
use vstd::prelude::*;
use crate::time;

verus! {

/// After loading the files, events are ignored for this time, in nanoseconds.
pub const RELOAD_DEBOUNCE_NANOS: u128 = 500_000_000;

/// For this time after the program has written a file itself, events are taken to come from
/// that, in nanoseconds.
pub const INTERNAL_SAVE_WINDOW_NANOS: u128 = 2_000_000_000;

/// How long to wait for an event before looking whether to go on, in milliseconds.
pub const EVENT_WAIT_MS: u64 = 1000;

/// How long to wait between two times of writing changes, in milliseconds.
pub const PERIODIC_SAVE_MS: u64 = 30000;

/// What came of waiting for an event.
#[derive(Clone, Copy, Debug, PartialEq, Eq, Structural)]
pub enum WatchEvent {
    /// A file has changed.
    Changed,
    /// Nothing happened for a while.
    Timeout,
    /// No more events will come.
    Disconnected,
}

/// What the system says has happened to a file that is watched.
#[derive(Clone, Copy, Debug, PartialEq, Eq, Structural)]
pub enum FileChange {
    /// Something that is not known.
    Any,
    /// It was opened or closed.
    Access,
    /// It was made.
    Create,
    /// Its contents, its name or something else about it has changed.
    Modify,
    /// It was removed.
    Remove,
    /// Something else.
    Other,
}

/// The event that what has happened to a file leads to: only a change of the file is one.
pub fn watch_event_of(change: FileChange) -> (r: Option<WatchEvent>)
    ensures
        r == if change == FileChange::Modify {
            Some(WatchEvent::Changed)
        } else {
            None
        },
{
    match change {
        FileChange::Modify => Some(WatchEvent::Changed),
        FileChange::Any | FileChange::Access | FileChange::Create | FileChange::Remove
        | FileChange::Other => None,
    }
}

/// What to do next.
#[derive(Clone, Copy, Debug, PartialEq, Eq, Structural)]
pub enum WatchStep {
    /// Wait for the next event.
    Wait,
    /// Load the files, then wait for the next event.
    Reload,
    /// End.
    Stop,
}

/// The program has written a file itself shortly before.
pub open spec fn saved_recently(last_internal_save: Option<u128>, now: u128) -> bool {
    last_internal_save matches Some(t) && time::spec_elapsed(now, t) < INTERNAL_SAVE_WINDOW_NANOS
}

/// What to do on an event, and when the files were last loaded after that.
pub open spec fn watched(
    last_reload: u128,
    event: WatchEvent,
    now: u128,
    last_internal_save: Option<u128>,
) -> (WatchStep, u128) {
    match event {
        WatchEvent::Changed => if time::spec_elapsed(now, last_reload) >= RELOAD_DEBOUNCE_NANOS
            && !saved_recently(last_internal_save, now) {
            (WatchStep::Reload, now)
        } else {
            (WatchStep::Wait, last_reload)
        },
        WatchEvent::Timeout => (WatchStep::Wait, last_reload),
        WatchEvent::Disconnected => (WatchStep::Stop, last_reload),
    }
}

/// The files are loaded at most once in the time for which events are ignored, and never
/// shortly after the program has written one of them itself.
pub proof fn law_reloads_apart(
    start: u128,
    first: WatchEvent,
    first_at: u128,
    first_save: Option<u128>,
    second: WatchEvent,
    second_at: u128,
    second_save: Option<u128>,
)
    requires
        watched(start, first, first_at, first_save).0 == WatchStep::Reload,
    ensures
        ({
            let after = watched(start, first, first_at, first_save).1;
            watched(after, second, second_at, second_save).0 == WatchStep::Reload ==> {
                &&& second_at - first_at >= RELOAD_DEBOUNCE_NANOS
                &&& second_save matches Some(t) ==> second_at - t >= INTERNAL_SAVE_WINDOW_NANOS
            }
        }),
{
}

/// What came of a wait, when it came, and when the program itself had last written a file.
pub struct WatchRecord {
    /// What came of the wait.
    pub event: WatchEvent,
    /// When it came.
    pub at: u128,
    /// When the program itself had last written a file.
    pub save: Option<u128>,
}

/// When the files were last loaded after a run of events that began at the time `start`.
pub open spec fn loaded_after(start: u128, run: Seq<WatchRecord>) -> u128
    decreases run.len(),
{
    if run.len() == 0 {
        start
    } else {
        let last = run.last();
        watched(loaded_after(start, run.drop_last()), last.event, last.at, last.save).1
    }
}

/// What was done on one event of a run.
pub open spec fn step_of(start: u128, run: Seq<WatchRecord>, k: int) -> WatchStep {
    watched(loaded_after(start, run.take(k)), run[k].event, run[k].at, run[k].save).0
}

/// Only loading the files changes when they were last loaded: after any run of events that
/// is the time of the latest event on which they were, or the start if there was none.
/// Timeouts and events that were ignored leave it as it was.
pub proof fn law_only_loads_count(start: u128, run: Seq<WatchRecord>, j: int)
    requires
        -1 <= j < run.len(),
        j >= 0 ==> step_of(start, run, j) == WatchStep::Reload,
        forall|k: int| j < k < run.len() ==> #[trigger] step_of(start, run, k) != WatchStep::Reload,
    ensures
        loaded_after(start, run) == if j < 0 {
            start
        } else {
            run[j].at
        },
    decreases run.len(),
{
    if run.len() > 0 {
        let n = run.len() - 1;
        let before = run.drop_last();
        assert(run.take(n) =~= before);
        if j < n {
            assert(step_of(start, run, n) != WatchStep::Reload);
            assert forall|k: int| 0 <= k < n implies step_of(start, before, k) == step_of(
                start,
                run,
                k,
            ) by {
                assert(before.take(k) =~= run.take(k));
            }
            assert forall|k: int| j < k < before.len() implies #[trigger] step_of(start, before, k)
                != WatchStep::Reload by {
                assert(step_of(start, run, k) != WatchStep::Reload);
            }
            if j >= 0 {
                assert(step_of(start, run, j) == WatchStep::Reload);
            }
            law_only_loads_count(start, before, j);
        }
    }
}

/// In any run of events, the files are loaded on an event exactly if a file has changed, at
/// least half a second has passed since they were last loaded on an event of the run, or
/// since the start if they were not, and the program itself has not written a file within
/// the two seconds before. It ends exactly when no more events can come.
pub proof fn law_loaded_when_due(start: u128, run: Seq<WatchRecord>, j: int, k: int)
    requires
        -1 <= j < k < run.len(),
        j >= 0 ==> step_of(start, run, j) == WatchStep::Reload,
        forall|i: int| j < i < k ==> #[trigger] step_of(start, run, i) != WatchStep::Reload,
    ensures
        ({
            let since: int = if j < 0 {
                start as int
            } else {
                run[j].at as int
            };
            step_of(start, run, k) == WatchStep::Reload <==> {
                &&& run[k].event == WatchEvent::Changed
                &&& run[k].at - since >= 500_000_000
                &&& (run[k].save matches Some(t) ==> run[k].at - t >= 2_000_000_000)
            }
        }),
        step_of(start, run, k) == WatchStep::Stop <==> run[k].event == WatchEvent::Disconnected,
{
    let before = run.take(k);
    assert forall|i: int| 0 <= i < k implies step_of(start, before, i) == step_of(start, run, i) by {
        assert(before.take(i) =~= run.take(i));
    }
    assert forall|i: int| j < i < before.len() implies #[trigger] step_of(start, before, i)
        != WatchStep::Reload by {
        assert(step_of(start, run, i) != WatchStep::Reload);
    }
    if j >= 0 {
        assert(step_of(start, run, j) == WatchStep::Reload);
    }
    law_only_loads_count(start, before, j);
}

/// Decides when files that are watched are loaded anew.
#[derive(Clone, Copy, Debug, PartialEq, Eq, Structural)]
pub struct WatchLoop {
    /// When the files were last loaded.
    pub last_reload: u128,
}

impl WatchLoop {
    /// Starts at this time.
    pub fn new(now: u128) -> (r: Self)
        ensures
            r.last_reload == now,
    {
        WatchLoop { last_reload: now }
    }

    /// Whether to wait for events at all: only as long as the files are watched.
    pub fn before_wait(&self, watching: bool) -> (r: WatchStep)
        ensures
            r == if watching {
                WatchStep::Wait
            } else {
                WatchStep::Stop
            },
    {
        if watching {
            WatchStep::Wait
        } else {
            WatchStep::Stop
        }
    }

    /// What to do on an event at the time `now`, if the program itself last wrote a file at
    /// `last_internal_save`.
    pub fn on_event(&mut self, event: WatchEvent, now: u128, last_internal_save: Option<u128>) -> (r:
        WatchStep)
        ensures
            (r, final(self).last_reload) == watched(
                old(self).last_reload,
                event,
                now,
                last_internal_save,
            ),
    {
        match event {
            WatchEvent::Timeout => WatchStep::Wait,
            WatchEvent::Disconnected => WatchStep::Stop,
            WatchEvent::Changed => {
                if time::elapsed(now, self.last_reload) < RELOAD_DEBOUNCE_NANOS {
                    return WatchStep::Wait;
                }
                let internal = match last_internal_save {
                    Some(t) => time::elapsed(now, t) < INTERNAL_SAVE_WINDOW_NANOS,
                    None => false,
                };
                if internal {
                    return WatchStep::Wait;
                }
                self.last_reload = now;
                WatchStep::Reload
            },
        }
    }
}

/// What came of waiting for the next time to write changes.
#[derive(Clone, Copy, Debug, PartialEq, Eq, Structural)]
pub enum PeriodicEvent {
    /// It is to end.
    Shutdown,
    /// Nothing can tell it to end any more.
    Disconnected,
    /// The time has come.
    Due,
}

/// What to do next.
#[derive(Clone, Copy, Debug, PartialEq, Eq, Structural)]
pub enum PeriodicStep {
    /// Write changes, then wait again.
    Save,
    /// End.
    Stop,
}

/// What to do on an event of the periodic writing.
pub fn periodic_step(event: PeriodicEvent) -> (r: PeriodicStep)
    ensures
        r == if event == PeriodicEvent::Due {
            PeriodicStep::Save
        } else {
            PeriodicStep::Stop
        },
{
    match event {
        PeriodicEvent::Due => PeriodicStep::Save,
        PeriodicEvent::Shutdown | PeriodicEvent::Disconnected => PeriodicStep::Stop,
    }
}

} // verus!
