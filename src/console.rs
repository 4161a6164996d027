use vstd::prelude::*;
use crate::logview::{log_view_of, outcome_names};
use crate::runstate::RunState;

verus! {

/// What the operator asked for with one keystroke.
#[derive(Clone, Copy, Debug, PartialEq, Eq, Structural)]
pub enum Choice {
    Exit,
    Shutdown,
    Reboot,
    Logout,
    Retry,
    ShowLogs,
    Invalid,
}

/// Keys are single characters, matched without regard to case; a keystroke
/// that is not a character (`None`) is never a valid choice.
pub open spec fn choice_spec(key: Option<char>) -> Choice {
    match key {
        Some(c) => if c == 'e' || c == 'E' {
            Choice::Exit
        } else if c == 's' || c == 'S' {
            Choice::Shutdown
        } else if c == 'r' || c == 'R' {
            Choice::Reboot
        } else if c == 'l' || c == 'L' {
            Choice::Logout
        } else if c == 't' || c == 'T' {
            Choice::Retry
        } else if c == 'h' || c == 'H' {
            Choice::ShowLogs
        } else {
            Choice::Invalid
        },
        None => Choice::Invalid,
    }
}

pub fn choice_of(key: Option<char>) -> (r: Choice)
    ensures
        r == choice_spec(key),
{
    match key {
        Some(c) => if c == 'e' || c == 'E' {
            Choice::Exit
        } else if c == 's' || c == 'S' {
            Choice::Shutdown
        } else if c == 'r' || c == 'R' {
            Choice::Reboot
        } else if c == 'l' || c == 'L' {
            Choice::Logout
        } else if c == 't' || c == 'T' {
            Choice::Retry
        } else if c == 'h' || c == 'H' {
            Choice::ShowLogs
        } else {
            Choice::Invalid
        },
        None => Choice::Invalid,
    }
}

/// Where the console stands.
#[derive(Clone, Copy, Debug, PartialEq, Eq, Structural)]
pub enum Phase {
    /// A run of the pipeline is under way.
    Running,
    /// Waiting for one keystroke.
    AwaitingInput,
    /// The process should exit.
    Terminal,
}

/// The side effect that the surrounding program performs after a keystroke.
#[derive(Clone, Copy, Debug, PartialEq, Eq, Structural)]
pub enum Effect {
    Leave,
    PowerOff,
    Restart,
    EndSession,
    RunAgain,
    ShowLogs,
    InvalidNotice,
}

impl Effect {
    /// Whether the effect starts a process of the operating system.
    pub open spec fn spawns(self) -> bool {
        match self {
            Effect::PowerOff | Effect::Restart | Effect::EndSession | Effect::RunAgain => true,
            _ => false,
        }
    }
}

/// Next phase and effect for each choice.
pub open spec fn transition(c: Choice) -> (Phase, Effect) {
    match c {
        Choice::Exit => (Phase::Terminal, Effect::Leave),
        Choice::Shutdown => (Phase::Terminal, Effect::PowerOff),
        Choice::Reboot => (Phase::Terminal, Effect::Restart),
        Choice::Logout => (Phase::Terminal, Effect::EndSession),
        Choice::Retry => (Phase::Running, Effect::RunAgain),
        Choice::ShowLogs => (Phase::AwaitingInput, Effect::ShowLogs),
        Choice::Invalid => (Phase::AwaitingInput, Effect::InvalidNotice),
    }
}

/// The operator console: its phase, and the record of the latest run.
pub struct Console {
    pub phase: Phase,
    pub logs: RunState,
}

/// `after` is `before` once a keystroke `key` was handled with effect `e`:
/// phase and effect follow the table, a retry empties the logs, and every
/// other key leaves them as they were.
pub open spec fn pressed(before: Console, key: Option<char>, after: Console, e: Effect) -> bool {
    &&& (after.phase, e) == transition(choice_spec(key))
    &&& if choice_spec(key) == Choice::Retry {
        after.logs.records@.len() == 0 && after.logs.outcomes@.len() == 0
    } else {
        after.logs == before.logs
    }
}

/// `after` is `before` once a run ended with the record `run`.
pub open spec fn finished(before: Console, run: RunState, after: Console) -> bool {
    after.phase == Phase::AwaitingInput && after.logs == run
}

impl Console {
    /// A console whose first run is starting.
    pub fn new() -> (r: Console)
        ensures
            r.phase == Phase::Running,
            r.logs.records@.len() == 0,
            r.logs.outcomes@.len() == 0,
    {
        Console { phase: Phase::Running, logs: RunState::new() }
    }

    /// Takes the record of the run that just ended, replacing the previous one whole.
    pub fn run_finished(&mut self, run: RunState)
        requires
            old(self).phase == Phase::Running,
        ensures
            finished(*old(self), run, *final(self)),
    {
        self.phase = Phase::AwaitingInput;
        self.logs = run;
    }

    /// Handles one keystroke.
    pub fn press(&mut self, key: Option<char>) -> (e: Effect)
        requires
            old(self).phase == Phase::AwaitingInput,
        ensures
            pressed(*old(self), key, *final(self), e),
    {
        match choice_of(key) {
            Choice::Exit => {
                self.phase = Phase::Terminal;
                Effect::Leave
            },
            Choice::Shutdown => {
                self.phase = Phase::Terminal;
                Effect::PowerOff
            },
            Choice::Reboot => {
                self.phase = Phase::Terminal;
                Effect::Restart
            },
            Choice::Logout => {
                self.phase = Phase::Terminal;
                Effect::EndSession
            },
            Choice::Retry => {
                self.phase = Phase::Running;
                self.logs = RunState::new();
                Effect::RunAgain
            },
            Choice::ShowLogs => Effect::ShowLogs,
            Choice::Invalid => Effect::InvalidNotice,
        }
    }
}

/// A retry starts from nothing: right after it show-logs has nothing to
/// display, and once the new run has ended the logs hold exactly what that
/// run recorded, so what show-logs displays depends on the new run alone.
pub proof fn retry_replaces_logs(
    c0: Console,
    key: Option<char>,
    c1: Console,
    e: Effect,
    run: RunState,
    c2: Console,
)
    requires
        c0.phase == Phase::AwaitingInput,
        choice_spec(key) == Choice::Retry,
        pressed(c0, key, c1, e),
        finished(c1, run, c2),
    ensures
        e == Effect::RunAgain,
        c1.phase == Phase::Running,
        c1.logs.records@.len() == 0,
        c1.logs.outcomes@.len() == 0,
        log_view_of(c1.logs.records_view(), outcome_names(c1.logs)).len() == 0,
        c2.logs == run,
        c2.phase == Phase::AwaitingInput,
        log_view_of(c2.logs.records_view(), outcome_names(c2.logs)) == log_view_of(
            run.records_view(),
            outcome_names(run),
        ),
{
    assert(outcome_names(c1.logs).len() == 0);
}

/// A key outside the table changes nothing but the notice it brings: the
/// console keeps waiting, the logs stay, and no process is started.
pub proof fn unmapped_key_is_refused(c0: Console, key: Option<char>, c1: Console, e: Effect)
    requires
        c0.phase == Phase::AwaitingInput,
        choice_spec(key) == Choice::Invalid,
        pressed(c0, key, c1, e),
    ensures
        c1.phase == Phase::AwaitingInput,
        c1.logs == c0.logs,
        e == Effect::InvalidNotice,
        !e.spawns(),
{
}

} // verus!
