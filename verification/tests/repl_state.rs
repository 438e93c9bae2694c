use shell::dispatch::Action;
use shell::repl::{
    action_of_input, continues_after, error_line, interrupt_notice, Input, InterruptAction,
    ShellCore, SpawnOutcome,
};

#[test]
fn startup_state_is_idle() {
    let s = ShellCore::new();
    assert!(s.child.is_none());
    assert!(!s.interrupted);
}

#[test]
fn interrupt_while_idle_is_notice_only() {
    let mut s = ShellCore::new();
    s.begin_iteration();
    s.note_interrupt();
    assert!(matches!(s.interrupt_action(), InterruptAction::NoticeOnly));
    // The next iteration is still reachable: the flag resets, no child
    // appeared, and nothing asked the loop to stop.
    s.begin_iteration();
    assert!(!s.interrupted);
    assert!(s.child.is_none());
    let a = action_of_input(&Input::Line("".to_string()));
    assert!(continues_after(&a));
}

#[test]
fn interrupt_kills_registered_child_and_slot_empties() {
    let mut s = ShellCore::new();
    s.note_spawn(&SpawnOutcome::Started { pid: 4242 });
    assert_eq!(s.child, Some(4242));
    match s.interrupt_action() {
        InterruptAction::KillChild { pid } => assert_eq!(pid, 4242),
        InterruptAction::NoticeOnly => panic!("a registered child must be terminated"),
    }
    // The driver reaps after the wait returns; the slot is empty at once.
    s.reap_child();
    assert!(s.child.is_none());
    assert!(matches!(s.interrupt_action(), InterruptAction::NoticeOnly));
}

#[test]
fn failed_launch_leaves_state_and_loop_running() {
    let mut s = ShellCore::new();
    s.note_spawn(&SpawnOutcome::Failed { message: "command not found".to_string() });
    assert!(s.child.is_none());
    let msg = error_line("command not found");
    assert_eq!(msg, "Erreur: command not found");
    // The prompt reappears: a spawn action never stops the loop.
    let a = Action::Spawn { command: "nosuch".to_string(), args: Vec::new() };
    assert!(continues_after(&a));
}

#[test]
fn end_of_input_acts_as_exit() {
    let a = action_of_input(&Input::EndOfInput);
    assert!(matches!(a, Action::ExitShell));
    assert!(!continues_after(&a));
}

#[test]
fn only_exit_stops_the_loop() {
    assert!(!continues_after(&action_of_input(&Input::Line("exit".to_string()))));
    assert!(continues_after(&action_of_input(&Input::Line("cd /nowhere".to_string()))));
    assert!(continues_after(&action_of_input(&Input::Line("ls -l".to_string()))));
    assert!(continues_after(&action_of_input(&Input::Line("clear".to_string()))));
}

#[test]
fn notice_text() {
    assert_eq!(interrupt_notice(), "\nProcessus interrompu.");
}
