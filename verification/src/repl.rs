//! The read-eval loop's state: the foreground-child slot and the
//! interrupt flag.
//!
//! The driver owns a `ShellCore` behind a lock shared with the interrupt
//! controller. The driver alone fills and clears the child slot (set on a
//! successful spawn, cleared after the child is reaped); the controller
//! only reads it to decide whether an interrupt should terminate the
//! registered child or merely print a notice.

use vstd::prelude::*;
use crate::dispatch::{dispatch_line, Action, action_for};
use crate::tokenize::tokens_of;

verus! {

/// Shared state of the read-eval loop.
pub struct ShellCore {
    /// Identifier of the foreground child process, when one is running.
    pub child: Option<u64>,
    /// Set by the interrupt controller, cleared at the top of each
    /// iteration of the loop.
    pub interrupted: bool,
}

/// What the interrupt controller must do when the interrupt signal
/// arrives.
pub enum InterruptAction {
    /// A child is registered: request its termination.
    KillChild { pid: u64 },
    /// Idle prompt: print the notice only. The shell itself never exits
    /// on an interrupt.
    NoticeOnly,
}

/// One read from the terminal: a line, or the end of the input.
pub enum Input {
    Line(String),
    EndOfInput,
}

/// How an attempt to spawn an external program went.
pub enum SpawnOutcome {
    /// The child started; `pid` identifies it until it is reaped.
    Started { pid: u64 },
    /// The program could not be launched (for example, not found).
    Failed { message: String },
}

impl ShellCore {
    /// The state at startup: no child, no pending interrupt.
    pub fn new() -> (s: Self)
        ensures
            s.child is None,
            !s.interrupted,
    {
        ShellCore { child: None, interrupted: false }
    }

    /// Reset the interrupt flag at the top of a loop iteration.
    pub fn begin_iteration(&mut self)
        ensures
            final(self).child == old(self).child,
            !final(self).interrupted,
    {
        self.interrupted = false;
    }

    /// Record that the interrupt signal arrived.
    pub fn note_interrupt(&mut self)
        ensures
            final(self).child == old(self).child,
            final(self).interrupted,
    {
        self.interrupted = true;
    }

    /// Decide what an interrupt does: terminate the registered child if
    /// there is one, otherwise nothing beyond the notice. The slot itself
    /// is left untouched; only the driver clears it, after reaping.
    pub fn interrupt_action(&self) -> (a: InterruptAction)
        ensures
            self.child matches Some(pid) ==> a == (InterruptAction::KillChild { pid }),
            self.child is None ==> a is NoticeOnly,
    {
        match &self.child {
            Some(pid) => InterruptAction::KillChild { pid: *pid },
            None => InterruptAction::NoticeOnly,
        }
    }

    /// Record the outcome of a spawn: a started child occupies the slot;
    /// a failed launch leaves the shell exactly as it was.
    pub fn note_spawn(&mut self, outcome: &SpawnOutcome)
        requires
            old(self).child is None,
        ensures
            outcome matches SpawnOutcome::Started { pid } ==> final(self).child == Some(*pid),
            outcome is Failed ==> final(self).child is None,
            final(self).interrupted == old(self).interrupted,
    {
        match outcome {
            SpawnOutcome::Started { pid } => {
                self.child = Some(*pid);
            },
            SpawnOutcome::Failed { .. } => {
            },
        }
    }

    /// Clear the slot after the child's wait returned, whether it exited
    /// on its own or was terminated.
    pub fn reap_child(&mut self)
        ensures
            final(self).child is None,
            final(self).interrupted == old(self).interrupted,
    {
        self.child = None;
    }
}

/// The action one read calls for: the end of the input ends the session
/// exactly as `exit` does; a line is dispatched on its tokens.
pub fn action_of_input(input: &Input) -> (a: Action)
    ensures
        input is EndOfInput ==> a is ExitShell,
        input matches Input::Line(l) ==> action_for(tokens_of(l@), a),
{
    match input {
        Input::EndOfInput => Action::ExitShell,
        Input::Line(l) => dispatch_line(l.as_str()),
    }
}

/// The line printed on the error stream when a directory cannot be read
/// or a program cannot be launched; the loop then goes on.
pub fn error_line(detail: &str) -> (r: String)
    ensures
        r@ == "Erreur: "@ + detail@,
{
    let mut r = "Erreur: ".to_owned();
    r.append(detail);
    r
}

/// The notice printed when the interrupt signal arrives.
pub fn interrupt_notice() -> (r: String)
    ensures
        r@ == "\nProcessus interrompu."@,
{
    "\nProcessus interrompu.".to_owned()
}

/// Whether the loop goes on after an action: every action but leaving the
/// shell is followed by the next prompt — no error is fatal.
pub fn continues_after(a: &Action) -> (c: bool)
    ensures
        c == !(a is ExitShell),
{
    match a {
        Action::ExitShell => false,
        _ => true,
    }
}

} // verus!
