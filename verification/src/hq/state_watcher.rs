//! Watching the kept state: what changed, and how long each state lasts.
use vstd::prelude::*;
use vstd::string::*;

use crate::clock::Instant;
use crate::state::{StateData, TaskState};
use crate::text;

verus! {

/// A change of state, with the time that it ended.
#[derive(Debug, Clone, Copy, PartialEq, Eq, Structural)]
pub struct TransitionSnapshot {
    pub from: TaskState,
    pub to: TaskState,
    /// How long, in whole seconds, the state before it lasted, or the whole
    /// task.
    pub elapsed_secs: u64,
    /// Whether that is the time of the whole task.
    pub used_total: bool,
}

/// The state as it is watched.
#[derive(Debug, Clone, PartialEq, Eq)]
pub struct WatchedState {
    pub state: StateData,
    /// How long, in whole seconds, the state has lasted.
    pub state_elapsed_secs: u64,
    pub transition: Option<TransitionSnapshot>,
}

/// The whole seconds between two instants; none where the second is earlier.
pub open spec fn elapsed(started: Instant, now: Instant) -> nat {
    let whole = now.secs - started.secs - if now.nanos < started.nanos {
        1int
    } else {
        0int
    };
    if whole < 0 {
        0
    } else {
        whole as nat
    }
}

/// The whole seconds between two instants; none where the second is earlier.
pub fn elapsed_since(started: Instant, now: Instant) -> (out: u64)
    requires
        started.wf(),
        now.wf(),
    ensures
        out == elapsed(started, now),
{
    let mut whole: i64 = now.secs - started.secs;
    if now.nanos < started.nanos {
        whole = whole - 1;
    }
    if whole < 0 {
        0
    } else {
        whole as u64
    }
}

/// What the watcher remembers.
#[derive(Debug, Clone, Copy, PartialEq, Eq)]
pub struct Watch {
    /// The state that was last told of, and when it began.
    pub last: Option<(TaskState, Instant)>,
    /// When the task under way was first seen.
    pub task_started_at: Option<Instant>,
    /// The lengths that were last told of.
    pub sent_state_secs: Option<u64>,
    pub sent_task_secs: Option<u64>,
}

/// Whether the task ends in a state.
pub open spec fn ends_task(state: TaskState) -> bool {
    state is Complete || state is Failed
}

/// When the task under way was first seen, once a state is seen: a task starts
/// on the way from idle to executing.
pub open spec fn task_start(watch: Watch, state: TaskState, tick: Instant) -> Option<Instant> {
    match watch.last {
        Some((before, _)) if before is Idle && state is Executing => Some(tick),
        _ => watch.task_started_at,
    }
}

/// The seconds since the task under way was first seen.
pub open spec fn task_secs(started: Option<Instant>, tick: Instant) -> Option<u64> {
    match started {
        Some(at) => Some(elapsed(at, tick) as u64),
        None => None,
    }
}

/// The change of state that a seen state makes.
pub open spec fn transition(
    watch: Watch,
    state: TaskState,
    now: Instant,
    tick: Instant,
) -> Option<TransitionSnapshot> {
    match watch.last {
        Some((before, since)) if before != state => {
            let total = task_secs(task_start(watch, state, tick), tick);
            Some(
                TransitionSnapshot {
                    from: before,
                    to: state,
                    elapsed_secs: if ends_task(state) && total is Some {
                        total->0
                    } else {
                        elapsed(since, now) as u64
                    },
                    used_total: ends_task(state) && total is Some,
                },
            )
        },
        _ => None,
    }
}

/// When the task under way was first seen, after a seen state: back in idle
/// there is none.
pub open spec fn task_start_after(watch: Watch, state: TaskState, tick: Instant) -> Option<
    Instant,
> {
    match watch.last {
        Some((before, _)) if before != state && state is Idle => None,
        _ => task_start(watch, state, tick),
    }
}

/// Whether a seen state is told of: when it changed, when it was written anew,
/// and each second.
pub open spec fn is_news(
    watch: Watch,
    state: TaskState,
    updated_at: Instant,
    now: Instant,
    tick: Instant,
) -> bool {
    let secs = elapsed(updated_at, now) as u64;
    let total = task_secs(task_start_after(watch, state, tick), tick);
    ||| watch.last != Some((state, updated_at))
    ||| watch.sent_state_secs != Some(secs)
    ||| watch.sent_task_secs != total
}

/// What the watcher remembers after a seen state.
pub open spec fn watch_after(
    watch: Watch,
    state: TaskState,
    updated_at: Instant,
    now: Instant,
    tick: Instant,
) -> Watch {
    let started = task_start_after(watch, state, tick);
    if is_news(watch, state, updated_at, now, tick) {
        Watch {
            last: Some((state, updated_at)),
            task_started_at: started,
            sent_state_secs: Some(elapsed(updated_at, now) as u64),
            sent_task_secs: task_secs(started, tick),
        }
    } else {
        Watch { task_started_at: started, ..watch }
    }
}

impl Watch {
    /// The instants that are remembered are ones of the calendar.
    pub open spec fn wf(self) -> bool {
        &&& match self.last {
            Some((_, since)) => since.wf(),
            None => true,
        }
        &&& self.task_started_at is Some ==> self.task_started_at->0.wf()
    }

    /// A watcher that has seen nothing.
    pub fn new() -> (out: Watch)
        ensures
            out.wf(),
            out == (Watch {
                last: None,
                task_started_at: None,
                sent_state_secs: None,
                sent_task_secs: None,
            }),
    {
        Watch { last: None, task_started_at: None, sent_state_secs: None, sent_task_secs: None }
    }

    /// Sees a state, and says what is to be told of it. `now` is the time of
    /// day; `tick` is read from a clock that never goes back.
    pub fn see(&mut self, state: StateData, now: Instant, tick: Instant) -> (out: Option<
        WatchedState,
    >)
        requires
            old(self).wf(),
            state.updated_at.wf(),
            now.wf(),
            tick.wf(),
        ensures
            final(self).wf(),
            *final(self) == watch_after(*old(self), state.state, state.updated_at, now, tick),
            match out {
                Some(watched) => {
                    &&& is_news(*old(self), state.state, state.updated_at, now, tick)
                    &&& watched.state == state
                    &&& watched.state_elapsed_secs == elapsed(state.updated_at, now)
                    &&& watched.transition == transition(*old(self), state.state, now, tick)
                },
                None => !is_news(*old(self), state.state, state.updated_at, now, tick),
            },
    {
        let ghost before = *self;
        let at: Instant = state.updated_at;
        let current: TaskState = state.state;
        let state_secs: u64 = elapsed_since(at, now);
        let mut change: Option<TransitionSnapshot> = None;
        let mut fresh: bool = true;
        if let Some((was, since)) = self.last {
            fresh = was != current || since.secs != at.secs || since.nanos != at.nanos;
            if was != current {
                if was == TaskState::Idle && current == TaskState::Executing {
                    self.task_started_at = Some(tick);
                }
                let total: Option<u64> = match self.task_started_at {
                    Some(start) => Some(elapsed_since(start, tick)),
                    None => None,
                };
                let ends: bool = current == TaskState::Complete || current == TaskState::Failed;
                let (secs, used): (u64, bool) = match total {
                    Some(n) => if ends {
                        (n, true)
                    } else {
                        (elapsed_since(since, now), false)
                    },
                    None => (elapsed_since(since, now), false),
                };
                change = Some(
                    TransitionSnapshot {
                        from: was,
                        to: current,
                        elapsed_secs: secs,
                        used_total: used,
                    },
                );
                if current == TaskState::Idle {
                    self.task_started_at = None;
                }
            }
        }
        assert(change == transition(before, current, now, tick));
        assert(self.task_started_at == task_start_after(before, current, tick));
        let total_secs: Option<u64> = match self.task_started_at {
            Some(start) => Some(elapsed_since(start, tick)),
            None => None,
        };
        let same_state_secs: bool = match self.sent_state_secs {
            Some(n) => n == state_secs,
            None => false,
        };
        let same_task_secs: bool = match (self.sent_task_secs, total_secs) {
            (Some(a), Some(b)) => a == b,
            (None, None) => true,
            _ => false,
        };
        assert(fresh == (before.last != Some((current, at)))) by {
            if let Some((was, since)) = before.last {
                assert((since.secs == at.secs && since.nanos == at.nanos) == (since == at));
            }
        }
        if fresh || !same_state_secs || !same_task_secs {
            self.last = Some((current, at));
            self.sent_state_secs = Some(state_secs);
            self.sent_task_secs = total_secs;
            Some(WatchedState { state, state_elapsed_secs: state_secs, transition: change })
        } else {
            None
        }
    }
}

/// Every change of state is told of.
pub proof fn law_changes_are_told(
    watch: Watch,
    state: TaskState,
    updated_at: Instant,
    now: Instant,
    tick: Instant,
)
    ensures
        transition(watch, state, now, tick) is Some ==> is_news(watch, state, updated_at, now, tick),
        is_news(watch, state, updated_at, now, tick) ==> watch_after(
            watch,
            state,
            updated_at,
            now,
            tick,
        ).last == Some((state, updated_at)),
{
}

/// A state that was just told of is no news: told again at the same instant,
/// nothing is said.
pub proof fn law_news_is_told_once(
    watch: Watch,
    state: TaskState,
    updated_at: Instant,
    now: Instant,
    tick: Instant,
)
    requires
        is_news(watch, state, updated_at, now, tick),
    ensures
        !is_news(
            watch_after(watch, state, updated_at, now, tick),
            state,
            updated_at,
            now,
            tick,
        ),
{
    let after = watch_after(watch, state, updated_at, now, tick);
    assert(transition(after, state, now, tick) is None);
    assert(task_start_after(after, state, tick) == after.task_started_at);
}

// ------------------------------------------------------------------ lengths of time

/// A length of time in hours, minutes and seconds; hours and minutes are left
/// out where there are none.
pub open spec fn elapsed_text(total: u64) -> Seq<char> {
    let hours = total as int / 3600;
    let minutes = total as int % 3600 / 60;
    let seconds = total as int % 60;
    let front = (if hours > 0 {
        text::decimal(hours as nat) + "h "@
    } else {
        Seq::empty()
    }) + (if minutes > 0 {
        text::decimal(minutes as nat) + "m "@
    } else {
        Seq::empty()
    });
    front + text::decimal(seconds as nat) + "s"@
}

/// A length of time in hours, minutes and seconds.
pub fn format_elapsed(total_secs: u64) -> (out: String)
    ensures
        out@ == elapsed_text(total_secs),
{
    let hours: u64 = total_secs / 3600;
    let minutes: u64 = total_secs % 3600 / 60;
    let seconds: u64 = total_secs % 60;
    let mut out: String = String::new();
    if hours > 0 {
        out.append(text::decimal_string(hours).as_str());
        out.append("h ");
    }
    if minutes > 0 {
        out.append(text::decimal_string(minutes).as_str());
        out.append("m ");
    }
    assert(out@ =~= (if hours > 0 {
        text::decimal(hours as nat) + "h "@
    } else {
        Seq::empty()
    }) + (if minutes > 0 {
        text::decimal(minutes as nat) + "m "@
    } else {
        Seq::empty()
    }));
    out.append(text::decimal_string(seconds).as_str());
    out.append("s");
    out
}

// ------------------------------------------------------------------ what is measured

/// A length of time is the whole seconds that have passed: no more than that have, and one
/// more has not. Where the clock went back nothing has passed.
pub proof fn law_whole_seconds_pass(started: Instant, now: Instant)
    requires
        started.wf(),
        now.wf(),
    ensures
        ({
            let passed = (now.secs - started.secs) * 1_000_000_000 + (now.nanos - started.nanos);
            let whole = elapsed(started, now);
            &&& passed >= 0 ==> whole * 1_000_000_000 <= passed < (whole + 1) * 1_000_000_000
            &&& passed < 0 ==> whole == 0
        }),
{
}

/// What is told of a change of state: from which to which, and how long the one before
/// lasted. At the end of a task that was seen to start, the time of the whole task is told
/// instead. A state that was there before, or is the first that is seen, is no change.
pub proof fn law_change_is_told_with_its_time(
    watch: Watch,
    state: TaskState,
    now: Instant,
    tick: Instant,
)
    ensures
        match watch.last {
            None => transition(watch, state, now, tick) is None,
            Some((before, since)) => if before == state {
                transition(watch, state, now, tick) is None
            } else {
                let started = if before is Idle && state is Executing {
                    Some(tick)
                } else {
                    watch.task_started_at
                };
                let whole = (state is Complete || state is Failed) && started is Some;
                transition(watch, state, now, tick) == Some(
                    TransitionSnapshot {
                        from: before,
                        to: state,
                        elapsed_secs: if whole {
                            elapsed(started->0, tick) as u64
                        } else {
                            elapsed(since, now) as u64
                        },
                        used_total: whole,
                    },
                )
            },
        },
{
}

/// A task is timed from when its execution is first seen until it is idle again, whatever
/// states it goes through on the way.
pub proof fn law_task_is_timed_from_its_start(
    watch: Watch,
    state: TaskState,
    updated_at: Instant,
    now: Instant,
    tick: Instant,
)
    ensures
        watch_after(watch, state, updated_at, now, tick).task_started_at == match watch.last {
            Some((before, _)) => if before != state && state is Idle {
                None
            } else if before is Idle && state is Executing {
                Some(tick)
            } else {
                watch.task_started_at
            },
            None => watch.task_started_at,
        },
{
}

/// A state is told when it changed, when it was written anew, and whenever the seconds
/// that are shown of it or of its task are no longer those that were told; and then these
/// are what was told.
pub proof fn law_news_is_what_was_not_told(
    watch: Watch,
    state: TaskState,
    updated_at: Instant,
    now: Instant,
    tick: Instant,
)
    ensures
        ({
            let after = watch_after(watch, state, updated_at, now, tick);
            let started = after.task_started_at;
            let total = match started {
                Some(at) => Some(elapsed(at, tick) as u64),
                None => None,
            };
            let news = is_news(watch, state, updated_at, now, tick);
            &&& news <==> (watch.last != Some((state, updated_at)) || watch.sent_state_secs != Some(
                elapsed(updated_at, now) as u64,
            ) || watch.sent_task_secs != total)
            &&& news ==> after.last == Some((state, updated_at)) && after.sent_state_secs == Some(
                elapsed(updated_at, now) as u64,
            ) && after.sent_task_secs == total
            &&& !news ==> after.last == watch.last && after.sent_state_secs
                == watch.sent_state_secs && after.sent_task_secs == watch.sent_task_secs
        }),
{
}

/// A length of time is shown in hours, minutes and seconds that add up to it, with fewer
/// than sixty minutes and seconds; hours and minutes only where there are any.
pub proof fn law_length_of_time_adds_up(total: u64)
    ensures
        exists|h: nat, m: nat, s: nat|
            {
                &&& h * 3600 + m * 60 + s == total
                &&& m < 60 && s < 60
                &&& elapsed_text(total) == (if h > 0 {
                    #[trigger] text::decimal(h) + "h "@
                } else {
                    Seq::empty()
                }) + (if m > 0 {
                    #[trigger] text::decimal(m) + "m "@
                } else {
                    Seq::empty()
                }) + #[trigger] text::decimal(s) + "s"@
            },
{
    let h = (total as int / 3600) as nat;
    let m = (total as int % 3600 / 60) as nat;
    let s = (total as int % 60) as nat;
    let a = text::decimal(h);
    let b = text::decimal(m);
    let c = text::decimal(s);
    assert(h * 3600 + m * 60 + s == total);
}

} // verus!
