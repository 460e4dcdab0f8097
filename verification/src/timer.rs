//! The Pomodoro timer: 25-minute work sessions and 5-minute breaks, which log
//! each second of work on the chosen target. The timer decides; whoever runs
//! it performs what it asks for (start or stop the one-second ticks, log a
//! second on the board).

use vstd::prelude::*;
use crate::model::Entity;
use crate::text::same_text;

verus! {

/// Whether the timer counts down a work session or a break.
#[derive(Clone, Copy, Debug, PartialEq, Eq, Structural)]
pub enum TimerMode {
    Work,
    Break,
}

/// The length of a session in the mode `m`, in seconds.
pub open spec fn session_secs(m: TimerMode) -> u32 {
    match m {
        TimerMode::Work => 1500,
        TimerMode::Break => 300,
    }
}

/// The mode that follows `m`.
pub open spec fn next_mode(m: TimerMode) -> TimerMode {
    match m {
        TimerMode::Work => TimerMode::Break,
        TimerMode::Break => TimerMode::Work,
    }
}

impl TimerMode {
    /// The label shown for the mode.
    pub fn label(&self) -> (r: &'static str)
        ensures
            r@ == match *self {
                TimerMode::Work => "Work"@,
                TimerMode::Break => "Break"@,
            },
    {
        match self {
            TimerMode::Work => "Work",
            TimerMode::Break => "Break",
        }
    }

    /// The mode that follows this one.
    pub fn next(&self) -> (r: TimerMode)
        ensures
            r == next_mode(*self),
    {
        match self {
            TimerMode::Work => TimerMode::Break,
            TimerMode::Break => TimerMode::Work,
        }
    }

    /// The length of a session in this mode, in seconds.
    pub fn session_secs(&self) -> (r: u32)
        ensures
            r == session_secs(*self),
    {
        match self {
            TimerMode::Work => 1500,
            TimerMode::Break => 300,
        }
    }
}

/// The state of the Pomodoro timer. `target` is the chosen entity as the
/// pair of its kind (`"task"`, `"story"` or `"epic"`) and its id.
#[derive(Clone, Debug, PartialEq)]
pub struct Timer {
    pub secs: u32,
    pub running: bool,
    pub mode: TimerMode,
    pub target: Option<(String, String)>,
}

/// What the timer asks of whoever runs it after a toggle.
#[derive(Clone, Copy, Debug, PartialEq, Eq, Structural)]
pub enum TimerCommand {
    StartTicking,
    StopTicking,
}

/// What one tick asks of whoever runs the timer: the target to log a second
/// on, if any, and whether to stop ticking.
#[derive(Clone, Debug, PartialEq)]
pub struct TickOutcome {
    pub log: Option<(String, String)>,
    pub finished: bool,
}

/// The timer after one tick: a second less, and when the session is over,
/// stopped and set to a full session of the next mode.
pub open spec fn ticked(t: Timer) -> Timer {
    let secs = if t.secs > 0 { (t.secs - 1) as u32 } else { t.secs };
    if secs == 0 {
        Timer { secs: session_secs(next_mode(t.mode)), running: false, mode: next_mode(t.mode), ..t }
    } else {
        Timer { secs, ..t }
    }
}

/// The target a tick logs a second on: during work, while seconds are left.
pub open spec fn tick_log(t: Timer) -> Option<(String, String)> {
    if t.secs > 0 && t.mode == TimerMode::Work {
        t.target
    } else {
        None
    }
}

/// A tick ends the session.
pub open spec fn tick_finishes(t: Timer) -> bool {
    t.secs <= 1
}

/// The timer's seconds never exceed a full session of its mode.
pub open spec fn timer_ok(t: Timer) -> bool {
    t.secs <= session_secs(t.mode)
}

fn copy_target(t: &Option<(String, String)>) -> (r: Option<(String, String)>)
    ensures
        r == *t,
{
    match t {
        Some((k, id)) => Some((k.clone(), id.clone())),
        None => None,
    }
}

impl Timer {
    /// A stopped timer at the start of a work session, with no target.
    pub fn new() -> (t: Timer)
        ensures
            t == (Timer { secs: 1500, running: false, mode: TimerMode::Work, target: None }),
    {
        Timer { secs: 1500, running: false, mode: TimerMode::Work, target: None }
    }

    /// Starts a stopped timer, or stops a running one.
    pub fn toggle(&mut self) -> (c: TimerCommand)
        ensures
            *final(self) == (Timer { running: !old(self).running, ..*old(self) }),
            c == (if old(self).running { TimerCommand::StopTicking } else { TimerCommand::StartTicking }),
    {
        if self.running {
            self.running = false;
            TimerCommand::StopTicking
        } else {
            self.running = true;
            TimerCommand::StartTicking
        }
    }

    /// One second passes.
    pub fn tick(&mut self) -> (o: TickOutcome)
        ensures
            *final(self) == ticked(*old(self)),
            o.log == tick_log(*old(self)),
            o.finished == tick_finishes(*old(self)),
    {
        let mut log = None;
        if self.secs > 0 {
            self.secs = self.secs - 1;
            if self.mode == TimerMode::Work {
                log = copy_target(&self.target);
            }
        }
        let mut finished = false;
        if self.secs == 0 {
            finished = true;
            self.running = false;
            let next = self.mode.next();
            self.mode = next;
            self.secs = next.session_secs();
        }
        TickOutcome { log, finished }
    }

    /// Stops the timer and sets it to a full work session; the target stays.
    pub fn reset(&mut self)
        ensures
            *final(self) == (Timer { secs: 1500, running: false, mode: TimerMode::Work, ..*old(self) }),
    {
        self.running = false;
        self.mode = TimerMode::Work;
        self.secs = 1500;
    }

    /// Stops the timer and moves on to a full session of the next mode.
    pub fn skip(&mut self)
        ensures
            *final(self) == (Timer {
                secs: session_secs(next_mode(old(self).mode)),
                running: false,
                mode: next_mode(old(self).mode),
                ..*old(self)
            }),
    {
        self.running = false;
        let next = self.mode.next();
        self.mode = next;
        self.secs = next.session_secs();
    }

    /// Chooses what the timer logs work on.
    pub fn set_target(&mut self, target: Option<(String, String)>)
        ensures
            *final(self) == (Timer { target, ..*old(self) }),
    {
        self.target = target;
    }
}

/// The board entity that the timer target `(kind, id)` names: `"task"` for a
/// card, `"story"` and `"epic"`; no entity for any other kind.
pub open spec fn timer_entity_spec(kind: Seq<char>, id: String) -> Option<Entity> {
    if kind == "task"@ {
        Some(Entity::Card(id))
    } else if kind == "story"@ {
        Some(Entity::Story(id))
    } else if kind == "epic"@ {
        Some(Entity::Epic(id))
    } else {
        None
    }
}

/// The board entity that the timer target `(kind, id)` names.
pub fn timer_entity(kind: &str, id: String) -> (r: Option<Entity>)
    ensures
        r == timer_entity_spec(kind@, id),
{
    if same_text(kind, "task") {
        Some(Entity::Card(id))
    } else if same_text(kind, "story") {
        Some(Entity::Story(id))
    } else if same_text(kind, "epic") {
        Some(Entity::Epic(id))
    } else {
        None
    }
}

} // verus!
