//! Decisions of the watcher that follows an edited temp file: which
//! file-system events concern the file, when a save is reported, when the
//! file counts as deleted, when the watch stops, and how often the window
//! asks for the user's attention.

use vstd::prelude::*;
use crate::text::str_eq;

verus! {

/// What reading a file's metadata found: no file, or a file with its
/// modification time (nanoseconds after the Unix epoch, negative before it;
/// `None` where the platform does not report one).
pub enum StatOutcome {
    Missing,
    Present(Option<i128>),
}

/// A file-system event: the file names of the paths it concerns (`None`
/// for a path without a file name) and whether it is a removal.
pub struct FsEvent {
    pub file_names: Vec<Option<String>>,
    pub is_remove: bool,
}

/// What woke the watcher: its periodic tick, or an event (`None` once the
/// event source has closed).
pub enum WatchInput {
    Tick,
    Event(Option<FsEvent>),
}

/// What the watcher does with an input.
#[derive(Debug, Clone, Copy, PartialEq, Eq, Structural)]
pub enum EventDecision {
    /// Stop watching.
    Stop,
    /// Nothing to do.
    Ignore,
    /// Check whether the file is really gone, then `after_removal_check`.
    ConfirmRemoval,
    /// Wait for the burst of events to end, read the metadata, then
    /// `after_stat`.
    Debounce,
}

/// What the watcher reports after reading the file's metadata.
#[derive(Debug, Clone, Copy, PartialEq, Eq, Structural)]
pub enum WatchAction {
    /// Nothing to report; keep watching.
    Continue,
    /// The file was saved: ask for attention, report the change, keep
    /// watching.
    Changed,
    /// The file is gone: ask for attention, report the deletion, stop.
    DeletedStop,
}

/// The view of an optional file name.
pub open spec fn opt_name(o: Option<String>) -> Option<Seq<char>> {
    match o {
        Some(s) => Some(s@),
        None => None,
    }
}

/// The event concerns the file named `target`.
pub open spec fn event_matches(ev: FsEvent, target: Option<Seq<char>>) -> bool {
    exists|j: int| 0 <= j < ev.file_names@.len() && opt_name(#[trigger] ev.file_names@[j]) == target
}

/// The decision for `input` on a watch of `target`.
pub open spec fn decide_spec(target: Option<Seq<char>>, cancelled: bool, input: WatchInput) -> EventDecision {
    if cancelled {
        EventDecision::Stop
    } else {
        match input {
            WatchInput::Tick => EventDecision::Ignore,
            WatchInput::Event(None) => EventDecision::Stop,
            WatchInput::Event(Some(ev)) => if !event_matches(ev, target) {
                EventDecision::Ignore
            } else if ev.is_remove {
                EventDecision::ConfirmRemoval
            } else {
                EventDecision::Debounce
            },
        }
    }
}

/// The modification time in `stat` where it is newer than `baseline`.
pub open spec fn newer_mtime(stat: StatOutcome, baseline: i128) -> Option<i128> {
    match stat {
        StatOutcome::Present(Some(t)) => if t > baseline {
            Some(t)
        } else {
            None
        },
        _ => None,
    }
}

/// The watch of one edited file.
pub struct FileWatch {
    baseline: i128,
    target: Option<String>,
    ended: bool,
}

fn same_name(a: &Option<String>, b: &Option<String>) -> (r: bool)
    ensures
        r == (opt_name(*a) == opt_name(*b)),
{
    match (a, b) {
        (Some(x), Some(y)) => str_eq(x.as_str(), y.as_str()),
        (None, None) => true,
        _ => false,
    }
}

impl FileWatch {
    /// The newest modification time reported so far.
    pub closed spec fn baseline(&self) -> i128 {
        self.baseline
    }

    /// The watch has ended (stopped, or the file was found deleted); an
    /// ended watch reports nothing more.
    pub closed spec fn ended(&self) -> bool {
        self.ended
    }

    /// The file name that events must concern.
    pub closed spec fn target(&self) -> Option<Seq<char>> {
        opt_name(self.target)
    }

    /// Starts watching the file named `target` whose metadata read as
    /// `initial`: no watch where the file is missing, else a watch whose
    /// baseline is the file's modification time (the epoch where none is
    /// reported).
    pub fn start(target: Option<String>, initial: StatOutcome) -> (r: Option<FileWatch>)
        ensures
            initial is Missing ==> r is None,
            initial matches StatOutcome::Present(m) ==> (r matches Some(w) && !w.ended() && w.target()
                == opt_name(target) && w.baseline() == match m {
                Some(t) => t,
                None => 0i128,
            }),
    {
        match initial {
            StatOutcome::Missing => None,
            StatOutcome::Present(m) => {
                let baseline: i128 = match m {
                    Some(t) => t,
                    None => 0,
                };
                Some(FileWatch { baseline, target, ended: false })
            },
        }
    }

    /// Decides what to do with `input`; `cancelled` is the state of the
    /// edit session's cancel flag. An ended watch always stops; a stop ends
    /// the watch.
    pub fn decide(&mut self, cancelled: bool, input: &WatchInput) -> (r: EventDecision)
        ensures
            r == (if old(self).ended() {
                EventDecision::Stop
            } else {
                decide_spec(old(self).target(), cancelled, *input)
            }),
            final(self).ended() == (old(self).ended() || r == EventDecision::Stop),
            final(self).target() == old(self).target(),
            final(self).baseline() == old(self).baseline(),
    {
        if self.ended || cancelled {
            self.ended = true;
            return EventDecision::Stop;
        }
        let r = match input {
            WatchInput::Tick => EventDecision::Ignore,
            WatchInput::Event(None) => EventDecision::Stop,
            WatchInput::Event(Some(ev)) => {
                let n = ev.file_names.len();
                let mut i: usize = 0;
                let mut found = false;
                while i < n && !found
                    invariant
                        n == ev.file_names@.len(),
                        i <= n,
                        found ==> event_matches(*ev, self.target()),
                        !found ==> forall|j: int|
                            0 <= j < i ==> opt_name(#[trigger] ev.file_names@[j]) != self.target(),
                    decreases n - i,
                {
                    if same_name(&ev.file_names[i], &self.target) {
                        found = true;
                    }
                    i = i + 1;
                }
                if !found {
                    EventDecision::Ignore
                } else if ev.is_remove {
                    EventDecision::ConfirmRemoval
                } else {
                    EventDecision::Debounce
                }
            },
        };
        if r == EventDecision::Stop {
            self.ended = true;
        }
        r
    }

    /// After a removal event: the file is deleted where its metadata can no
    /// longer be read.
    pub fn after_removal_check(&mut self, stat: &StatOutcome) -> (r: WatchAction)
        ensures
            r == (if !old(self).ended() && *stat is Missing {
                WatchAction::DeletedStop
            } else {
                WatchAction::Continue
            }),
            final(self).ended() == (old(self).ended() || r == WatchAction::DeletedStop),
            final(self).target() == old(self).target(),
            final(self).baseline() == old(self).baseline(),
    {
        if self.ended {
            return WatchAction::Continue;
        }
        match stat {
            StatOutcome::Missing => {
                self.ended = true;
                WatchAction::DeletedStop
            },
            StatOutcome::Present(_) => WatchAction::Continue,
        }
    }

    /// After reading the metadata once a burst of events ended (or on a
    /// poll): a newer modification time is a save and becomes the baseline;
    /// a missing file is a deletion.
    pub fn after_stat(&mut self, stat: StatOutcome) -> (r: WatchAction)
        ensures
            final(self).target() == old(self).target(),
            final(self).ended() == (old(self).ended() || r == WatchAction::DeletedStop),
            old(self).ended() ==> r == WatchAction::Continue && final(self).baseline() == old(self).baseline(),
            !old(self).ended() && stat is Missing ==> r == WatchAction::DeletedStop && final(self).baseline() == old(self).baseline(),
            !old(self).ended() ==> (newer_mtime(stat, old(self).baseline()) matches Some(t) ==> r
                == WatchAction::Changed && final(self).baseline() == t),
            !old(self).ended() && !(stat is Missing) && newer_mtime(stat, old(self).baseline())
                is None ==> r == WatchAction::Continue && final(self).baseline() == old(self).baseline(),
            final(self).baseline() >= old(self).baseline(),
    {
        if self.ended {
            return WatchAction::Continue;
        }
        match stat {
            StatOutcome::Missing => {
                self.ended = true;
                WatchAction::DeletedStop
            },
            StatOutcome::Present(Some(t)) => {
                if t > self.baseline {
                    self.baseline = t;
                    WatchAction::Changed
                } else {
                    WatchAction::Continue
                }
            },
            StatOutcome::Present(None) => WatchAction::Continue,
        }
    }
}

/// The shortest interval, in nanoseconds, between two requests for the
/// user's attention.
pub const ATTENTION_COOLDOWN_NANOS: u128 = 2_000_000_000;

/// Throttles requests for the user's attention.
pub struct AttentionThrottle {
    last: Option<u128>,
}

/// A request at `now` is granted after the last granted one at `last`.
pub open spec fn attention_due(last: Option<u128>, now: u128) -> bool {
    match last {
        None => true,
        Some(t) => now >= t && now - t >= ATTENTION_COOLDOWN_NANOS,
    }
}

impl AttentionThrottle {
    /// When the last request was granted.
    pub closed spec fn last(&self) -> Option<u128> {
        self.last
    }

    /// A throttle that has granted nothing yet.
    pub fn new() -> (r: AttentionThrottle)
        ensures
            r.last() is None,
    {
        AttentionThrottle { last: None }
    }

    /// Asks for attention at time `now` (nanoseconds on a monotonic clock):
    /// granted unless the last granted request is less than the cooldown
    /// ago; a granted request becomes the last one.
    pub fn request(&mut self, now: u128) -> (granted: bool)
        ensures
            granted == attention_due(old(self).last(), now),
            granted ==> final(self).last() == Some(now),
            !granted ==> final(self).last() == old(self).last(),
    {
        match self.last {
            Some(t) => {
                if now.saturating_sub(t) < ATTENTION_COOLDOWN_NANOS {
                    return false;
                }
            },
            None => {},
        }
        self.last = Some(now);
        true
    }
}

/// Two requests granted one after the other, on a clock that does not go
/// back, are at least the cooldown apart.
pub proof fn lemma_granted_requests_spaced(last: Option<u128>, t1: u128, t2: u128)
    requires
        attention_due(last, t1),
        attention_due(Some(t1), t2),
    ensures
        t2 >= t1 + ATTENTION_COOLDOWN_NANOS,
{
}

} // verus!
