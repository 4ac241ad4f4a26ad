//! One child's lifecycle, the stop request sent to every child, and the
//! command lines that start a child and terminate it.
use vstd::prelude::*;
use vstd::string::*;

use crate::names::views;
use crate::text::{decimal, decimal_string};

verus! {

/// Where a child stands. A child starts `Running`, may have its termination
/// requested, and ends `Exited`; it is never restarted.
#[derive(Debug, Clone, Copy, PartialEq, Eq, Structural)]
pub enum ChildPhase {
    Running,
    TerminationRequested,
    Exited,
}

/// What happens to a child.
#[derive(Debug, Clone, Copy, PartialEq, Eq, Structural)]
pub enum ChildEvent {
    /// Someone asked that the child stop.
    StopRequested,
    /// The child's process has exited.
    Exited,
}

/// What the child's relay does in answer to an event.
#[derive(Debug, Clone, Copy, PartialEq, Eq, Structural)]
pub enum RelayAction {
    /// Send the child's process the termination signal.
    SendTerminate,
    /// Nothing.
    Ignore,
}

/// The phase after `e` happens in phase `p`.
pub open spec fn next_phase(p: ChildPhase, e: ChildEvent) -> ChildPhase {
    match e {
        ChildEvent::Exited => ChildPhase::Exited,
        ChildEvent::StopRequested => match p {
            ChildPhase::Running => ChildPhase::TerminationRequested,
            _ => p,
        },
    }
}

/// What the relay does when `e` happens in phase `p`: it signals a running
/// child that is asked to stop, and does nothing else.
pub open spec fn relay_action(p: ChildPhase, e: ChildEvent) -> RelayAction {
    if p == ChildPhase::Running && e == ChildEvent::StopRequested {
        RelayAction::SendTerminate
    } else {
        RelayAction::Ignore
    }
}

/// The phase after the events `es`, in order, starting in phase `p`.
pub open spec fn phase_after(p: ChildPhase, es: Seq<ChildEvent>) -> ChildPhase
    decreases es.len(),
{
    if es.len() == 0 {
        p
    } else {
        phase_after(next_phase(p, es[0]), es.drop_first())
    }
}

/// How many termination signals the relay sends over the events `es`,
/// starting in phase `p`.
pub open spec fn signals_sent(p: ChildPhase, es: Seq<ChildEvent>) -> nat
    decreases es.len(),
{
    if es.len() == 0 {
        0
    } else {
        let here: nat = if relay_action(p, es[0]) == RelayAction::SendTerminate {
            1
        } else {
            0
        };
        here + signals_sent(next_phase(p, es[0]), es.drop_first())
    }
}

impl ChildPhase {
    /// Moves the phase on by `e` and says what the relay must do.
    pub fn step(&mut self, e: ChildEvent) -> (r: RelayAction)
        ensures
            *final(self) == next_phase(*old(self), e),
            r == relay_action(*old(self), e),
    {
        match e {
            ChildEvent::Exited => {
                *self = ChildPhase::Exited;
                RelayAction::Ignore
            },
            ChildEvent::StopRequested => match *self {
                ChildPhase::Running => {
                    *self = ChildPhase::TerminationRequested;
                    RelayAction::SendTerminate
                },
                _ => RelayAction::Ignore,
            },
        }
    }
}

/// A second stop request, to a child whose stop was already requested or
/// that has exited, changes nothing and sends no signal.
pub proof fn lemma_second_request_has_no_effect(p: ChildPhase)
    ensures
        next_phase(next_phase(p, ChildEvent::StopRequested), ChildEvent::StopRequested)
            == next_phase(p, ChildEvent::StopRequested),
        relay_action(next_phase(p, ChildEvent::StopRequested), ChildEvent::StopRequested)
            == RelayAction::Ignore,
        next_phase(ChildPhase::Exited, ChildEvent::StopRequested) == ChildPhase::Exited,
        relay_action(ChildPhase::Exited, ChildEvent::StopRequested) == RelayAction::Ignore,
{
}

/// Whatever happens to a child, in whatever order, its relay sends at most
/// one termination signal; none at all once the stop was requested or the
/// child has exited.
pub proof fn lemma_at_most_one_signal(p: ChildPhase, es: Seq<ChildEvent>)
    ensures
        signals_sent(p, es) <= 1,
        p != ChildPhase::Running ==> signals_sent(p, es) == 0,
    decreases es.len(),
{
    if es.len() > 0 {
        lemma_at_most_one_signal(next_phase(p, es[0]), es.drop_first());
    }
}

/// Why a stop request was not queued.
#[derive(Debug, Clone, Copy, PartialEq, Eq, Structural)]
pub enum StopRefused {
    /// A request is already waiting for the relay.
    Full,
    /// The relay no longer listens.
    Disconnected,
}

impl StopRefused {
    /// A line that says why.
    pub fn message(&self) -> (r: String)
        ensures
            *self == StopRefused::Full ==> r@ == "sending on a full channel"@,
            *self == StopRefused::Disconnected ==> r@ == "sending on a closed channel"@,
    {
        match self {
            StopRefused::Full => String::from_str("sending on a full channel"),
            StopRefused::Disconnected => String::from_str("sending on a closed channel"),
        }
    }
}

/// flume's sending half of a channel, carried through unopened.
#[verifier::external_type_specification]
#[verifier::external_body]
#[verifier::reject_recursive_types(T)]
pub struct ExSender<T>(flume::Sender<T>);

/// Relies on flume::Sender::try_send: it queues the message without
/// blocking, or refuses it because the channel is full or has no receiver.
/// Which of these happens depends on the relay thread, so nothing is stated.
#[verifier::external_body]
fn try_send_stop(tx: &flume::Sender<()>) -> (r: Result<(), StopRefused>) {
    match tx.try_send(()) {
        Ok(()) => Ok(()),
        Err(flume::TrySendError::Full(())) => Err(StopRefused::Full),
        Err(flume::TrySendError::Disconnected(())) => Err(StopRefused::Disconnected),
    }
}

/// Asks every child to stop, without blocking: one request to each sender,
/// in order. The outcome of the request to `senders[i]` is `r[i]`; a refused
/// request is reported there and the others go on.
pub fn broadcast_stop(senders: &Vec<flume::Sender<()>>) -> (r: Vec<Result<(), StopRefused>>)
    ensures
        r@.len() == senders@.len(),
{
    let mut r: Vec<Result<(), StopRefused>> = Vec::new();
    let mut i: usize = 0;
    while i < senders.len()
        invariant
            i <= senders@.len(),
            r@.len() == i,
        decreases senders@.len() - i,
    {
        let outcome = try_send_stop(&senders[i]);
        r.push(outcome);
        i += 1;
    }
    r
}

/// The program and arguments that run `cmd` as a script of its own shell.
pub open spec fn shell_argv(cmd: Seq<char>) -> Seq<Seq<char>> {
    seq![seq!['b', 'a', 's', 'h'], seq!['-', 'c'], cmd]
}

/// The program and arguments that send the termination signal to the
/// process `pid`.
pub open spec fn terminate_argv(pid: nat) -> Seq<Seq<char>> {
    seq![seq!['k', 'i', 'l', 'l'], seq!['-', 'S', 'I', 'G', 'T', 'E', 'R', 'M'], decimal(pid)]
}

/// The command line that runs `cmd` through the shell, program first, so that
/// pipes and redirections in it work.
pub fn shell_invocation(cmd: &str) -> (r: Vec<String>)
    ensures
        views(r@) == shell_argv(cmd@),
{
    proof {
        reveal_strlit("bash");
        reveal_strlit("-c");
    }
    assert("bash"@ =~= seq!['b', 'a', 's', 'h']);
    assert("-c"@ =~= seq!['-', 'c']);
    let mut r: Vec<String> = Vec::new();
    r.push(String::from_str("bash"));
    r.push(String::from_str("-c"));
    r.push(String::from_str(cmd));
    assert(views(r@)[0] == "bash"@);
    assert(views(r@) =~= shell_argv(cmd@));
    r
}

/// The command line that sends the termination signal to `pid`, program
/// first.
pub fn terminate_invocation(pid: u32) -> (r: Vec<String>)
    ensures
        views(r@) == terminate_argv(pid as nat),
{
    proof {
        reveal_strlit("kill");
        reveal_strlit("-SIGTERM");
    }
    assert("kill"@ =~= seq!['k', 'i', 'l', 'l']);
    assert("-SIGTERM"@ =~= seq!['-', 'S', 'I', 'G', 'T', 'E', 'R', 'M']);
    let mut r: Vec<String> = Vec::new();
    r.push(String::from_str("kill"));
    r.push(String::from_str("-SIGTERM"));
    r.push(decimal_string(pid as u64));
    assert(views(r@)[0] == "kill"@);
    assert(views(r@) =~= terminate_argv(pid as nat));
    r
}

} // verus!
