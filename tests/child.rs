use runall::{
    broadcast_stop, decimal_string, shell_invocation, terminate_invocation, ChildEvent,
    ChildPhase, RelayAction, StopRefused,
};

#[test]
fn first_stop_request_signals() {
    let mut p = ChildPhase::Running;
    assert_eq!(p.step(ChildEvent::StopRequested), RelayAction::SendTerminate);
    assert_eq!(p, ChildPhase::TerminationRequested);
}

#[test]
fn second_stop_request_does_nothing() {
    let mut p = ChildPhase::Running;
    p.step(ChildEvent::StopRequested);
    assert_eq!(p.step(ChildEvent::StopRequested), RelayAction::Ignore);
    assert_eq!(p, ChildPhase::TerminationRequested);
}

#[test]
fn stop_request_after_exit_does_nothing() {
    let mut p = ChildPhase::Running;
    assert_eq!(p.step(ChildEvent::Exited), RelayAction::Ignore);
    assert_eq!(p, ChildPhase::Exited);
    assert_eq!(p.step(ChildEvent::StopRequested), RelayAction::Ignore);
    assert_eq!(p, ChildPhase::Exited);
}

#[test]
fn interrupt_signals_every_running_child() {
    let mut children = vec![ChildPhase::Running, ChildPhase::Running];
    let actions: Vec<RelayAction> = children
        .iter_mut()
        .map(|c| c.step(ChildEvent::StopRequested))
        .collect();
    assert_eq!(actions, vec![RelayAction::SendTerminate, RelayAction::SendTerminate]);
    for c in children.iter_mut() {
        c.step(ChildEvent::Exited);
    }
    assert_eq!(children, vec![ChildPhase::Exited, ChildPhase::Exited]);
}

#[test]
fn broadcast_reaches_every_sender() {
    let (tx1, rx1) = flume::bounded::<()>(1);
    let (tx2, rx2) = flume::bounded::<()>(1);
    let out = broadcast_stop(&vec![tx1, tx2]);
    assert_eq!(out, vec![Ok(()), Ok(())]);
    assert_eq!(rx1.try_recv(), Ok(()));
    assert_eq!(rx2.try_recv(), Ok(()));
}

#[test]
fn broadcast_twice_is_refused_not_fatal() {
    let (tx, _rx) = flume::bounded::<()>(1);
    let senders = vec![tx];
    assert_eq!(broadcast_stop(&senders), vec![Ok(())]);
    assert_eq!(broadcast_stop(&senders), vec![Err(StopRefused::Full)]);
}

#[test]
fn broadcast_to_gone_relay_is_refused() {
    let (tx, rx) = flume::bounded::<()>(1);
    drop(rx);
    assert_eq!(broadcast_stop(&vec![tx]), vec![Err(StopRefused::Disconnected)]);
}

#[test]
fn refusal_messages() {
    assert_eq!(StopRefused::Full.message(), "sending on a full channel");
    assert_eq!(StopRefused::Disconnected.message(), "sending on a closed channel");
}

#[test]
fn shell_runs_command_as_one_script() {
    assert_eq!(
        shell_invocation("no_such_binary_here | cat > /dev/null"),
        vec!["bash", "-c", "no_such_binary_here | cat > /dev/null"]
    );
}

#[test]
fn terminate_names_the_pid() {
    assert_eq!(terminate_invocation(4321), vec!["kill", "-SIGTERM", "4321"]);
    assert_eq!(terminate_invocation(0), vec!["kill", "-SIGTERM", "0"]);
    assert_eq!(decimal_string(u64::MAX), "18446744073709551615");
}
