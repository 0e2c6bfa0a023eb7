//! The relay's decisions, as a state machine.
//!
//! The relay bridges two capture sessions. Whoever drives it waits on both
//! sessions at once, reports what happened as a `RelayEvent`, and carries out
//! the `RelayAction` that comes back: a packet that arrives on one side is
//! sent, unchanged, on the other, and the first failure stops the relay for
//! good.
use vstd::prelude::*;

use crate::error::Error;

verus! {

/// One of the two bridged sessions.
#[derive(Debug, Clone, Copy, PartialEq, Eq, Structural)]
pub enum Side {
    First,
    Second,
}

/// The session across the bridge from `s`.
pub open spec fn across(s: Side) -> Side {
    match s {
        Side::First => Side::Second,
        Side::Second => Side::First,
    }
}

impl Side {
    /// The session across the bridge.
    pub fn opposite(self) -> (r: Side)
        ensures
            r == across(self),
    {
        match self {
            Side::First => Side::Second,
            Side::Second => Side::First,
        }
    }
}

/// What happened since the relay last decided.
#[derive(Debug, PartialEq, Eq)]
pub enum RelayEvent {
    /// A packet arrived on `from`.
    Received { from: Side, packet: Vec<u8> },
    /// Waiting for a packet on `from` failed.
    ReceiveFailed { from: Side, error: Error },
    /// The send that the relay asked for went through.
    Sent,
    /// The send that the relay asked for failed.
    SendFailed { error: Error },
    /// The relay's owner asks it to finish.
    Cancel,
}

/// What the relay asks its driver to do next.
#[derive(Debug, PartialEq, Eq)]
pub enum RelayAction {
    /// Send `packet`, byte for byte, on `to`, and report the outcome.
    Send { to: Side, packet: Vec<u8> },
    /// Wait for the next packet on either side.
    AwaitPacket,
    /// Stop, surfacing `error`.
    Stop { error: Error },
    /// Finish without error.
    Finish,
}

/// Where the relay stands.
#[derive(Debug, Clone, Copy, PartialEq, Eq, Structural)]
pub enum RelayState {
    /// Waiting for a packet on either side.
    Running,
    /// A packet is being sent on `to`; no other packet is served meanwhile.
    Sending { to: Side },
    /// Stopped for good by `error`.
    Stopped { error: Error },
    /// Finished for good at its owner's request.
    Finished,
}

/// Whether `e` can happen in state `s`: packets are waited for only while
/// running, and a send's outcome comes only while sending. The owner may
/// cancel at any time. A relay that has stopped or finished takes any event
/// and stays as it is.
pub open spec fn admits(s: RelayState, e: RelayEvent) -> bool {
    match s {
        RelayState::Running => e is Received || e is ReceiveFailed || e is Cancel,
        RelayState::Sending { .. } => e is Sent || e is SendFailed || e is Cancel,
        RelayState::Stopped { .. } => true,
        RelayState::Finished => true,
    }
}

/// The state after event `e` in state `s`, and the action asked for.
pub open spec fn next(s: RelayState, e: RelayEvent) -> (RelayState, RelayAction) {
    match s {
        RelayState::Stopped { error } => (s, RelayAction::Stop { error }),
        RelayState::Finished => (s, RelayAction::Finish),
        _ => match e {
            RelayEvent::Received { from, packet } => (
                RelayState::Sending { to: across(from) },
                RelayAction::Send { to: across(from), packet },
            ),
            RelayEvent::ReceiveFailed { error, .. } => (
                RelayState::Stopped { error },
                RelayAction::Stop { error },
            ),
            RelayEvent::Sent => (RelayState::Running, RelayAction::AwaitPacket),
            RelayEvent::SendFailed { error } => (
                RelayState::Stopped { error },
                RelayAction::Stop { error },
            ),
            RelayEvent::Cancel => (RelayState::Finished, RelayAction::Finish),
        },
    }
}

/// The state after the events `es` in turn from `s`, and the actions asked
/// for along the way.
pub open spec fn run(s: RelayState, es: Seq<RelayEvent>) -> (RelayState, Seq<RelayAction>)
    decreases es.len(),
{
    if es.len() == 0 {
        (s, Seq::empty())
    } else {
        let (s1, a1) = run(s, es.drop_last());
        let (s2, a2) = next(s1, es.last());
        (s2, a1.push(a2))
    }
}

/// The events of packets that arrive one at a time, each followed by the
/// report that its send went through.
pub open spec fn arrivals(ps: Seq<(Side, Vec<u8>)>) -> Seq<RelayEvent>
    decreases ps.len(),
{
    if ps.len() == 0 {
        Seq::empty()
    } else {
        arrivals(ps.drop_last()).push(
            RelayEvent::Received { from: ps.last().0, packet: ps.last().1 },
        ).push(RelayEvent::Sent)
    }
}

/// The actions that forward those packets: each is sent on the other side,
/// in the order of arrival, after which the relay waits again.
pub open spec fn forwarding(ps: Seq<(Side, Vec<u8>)>) -> Seq<RelayAction>
    decreases ps.len(),
{
    if ps.len() == 0 {
        Seq::empty()
    } else {
        forwarding(ps.drop_last()).push(
            RelayAction::Send { to: across(ps.last().0), packet: ps.last().1 },
        ).push(RelayAction::AwaitPacket)
    }
}

/// A two-port relay.
pub struct Relay {
    state: RelayState,
}

impl Relay {
    /// Where the relay stands.
    pub closed spec fn spec_state(&self) -> RelayState {
        self.state
    }

    /// A relay that waits for its first packet.
    pub fn new() -> (r: Relay)
        ensures
            r.spec_state() == RelayState::Running,
    {
        Relay { state: RelayState::Running }
    }

    /// Where the relay stands.
    pub fn state(&self) -> (r: RelayState)
        ensures
            r == self.spec_state(),
    {
        self.state
    }

    /// Whether `e` can happen now.
    pub fn accepts(&self, e: &RelayEvent) -> (r: bool)
        ensures
            r == admits(self.spec_state(), *e),
    {
        match self.state {
            RelayState::Running => match e {
                RelayEvent::Received { .. } => true,
                RelayEvent::ReceiveFailed { .. } => true,
                RelayEvent::Cancel => true,
                _ => false,
            },
            RelayState::Sending { .. } => match e {
                RelayEvent::Sent => true,
                RelayEvent::SendFailed { .. } => true,
                RelayEvent::Cancel => true,
                _ => false,
            },
            RelayState::Stopped { .. } => true,
            RelayState::Finished => true,
        }
    }

    /// Take in event `e` and decide what to do next.
    pub fn on_event(&mut self, e: RelayEvent) -> (r: RelayAction)
        requires
            admits(old(self).spec_state(), e),
        ensures
            (final(self).spec_state(), r) == next(old(self).spec_state(), e),
    {
        match self.state {
            RelayState::Stopped { error } => RelayAction::Stop { error },
            RelayState::Finished => RelayAction::Finish,
            _ => match e {
                RelayEvent::Received { from, packet } => {
                    let to = from.opposite();
                    self.state = RelayState::Sending { to };
                    RelayAction::Send { to, packet }
                },
                RelayEvent::ReceiveFailed { error, .. } => {
                    self.state = RelayState::Stopped { error };
                    RelayAction::Stop { error }
                },
                RelayEvent::Sent => {
                    self.state = RelayState::Running;
                    RelayAction::AwaitPacket
                },
                RelayEvent::SendFailed { error } => {
                    self.state = RelayState::Stopped { error };
                    RelayAction::Stop { error }
                },
                RelayEvent::Cancel => {
                    self.state = RelayState::Finished;
                    RelayAction::Finish
                },
            },
        }
    }
}

/// Each event yields exactly one action.
proof fn lemma_run_len(s: RelayState, es: Seq<RelayEvent>)
    ensures
        run(s, es).1.len() == es.len(),
    decreases es.len(),
{
    if es.len() > 0 {
        lemma_run_len(s, es.drop_last());
    }
}

/// A packet that arrives on one side while the relay runs is sent on the
/// other side exactly as it arrived, and until that send is reported no
/// further packet is taken in, from either side.
pub proof fn lemma_forward_verbatim(from: Side, packet: Vec<u8>)
    ensures
        next(RelayState::Running, RelayEvent::Received { from, packet }) == (
        RelayState::Sending { to: across(from) },
        RelayAction::Send { to: across(from), packet },
        ),
        forall|e: RelayEvent|
            admits(RelayState::Sending { to: across(from) }, e) ==> !(e is Received),
{
}

/// Once a send fails, the relay stops with that error, and whatever happens
/// afterwards it asks for no further send on either side: every later action
/// is to stop with the same error.
pub proof fn lemma_send_failure_is_final(to: Side, error: Error, later: Seq<RelayEvent>)
    ensures
        next(RelayState::Sending { to }, RelayEvent::SendFailed { error }) == (
        RelayState::Stopped { error },
        RelayAction::Stop { error },
        ),
        run(RelayState::Stopped { error }, later).0 == (RelayState::Stopped { error }),
        forall|i: int|
            0 <= i < later.len() ==> #[trigger] run(RelayState::Stopped { error }, later).1[i]
                == (RelayAction::Stop { error }),
    decreases later.len(),
{
    if later.len() > 0 {
        lemma_send_failure_is_final(to, error, later.drop_last());
        lemma_run_len(RelayState::Stopped { error }, later.drop_last());
        let prev = run(RelayState::Stopped { error }, later.drop_last()).1;
        let all = run(RelayState::Stopped { error }, later).1;
        assert(all == prev.push(RelayAction::Stop { error }));
        assert forall|i: int| 0 <= i < later.len() implies #[trigger] all[i] == (RelayAction::Stop {
            error,
        }) by {
            if i < later.len() - 1 {
                assert(all[i] == prev[i]);
            }
        }
    }
}

/// Packets that arrive one at a time, whichever side each comes from, are
/// each sent exactly once on the other side, in the order in which they
/// arrived, and the relay is then running again.
pub proof fn lemma_forwarding_order(ps: Seq<(Side, Vec<u8>)>)
    ensures
        run(RelayState::Running, arrivals(ps)) == (RelayState::Running, forwarding(ps)),
    decreases ps.len(),
{
    if ps.len() > 0 {
        let init = ps.drop_last();
        lemma_forwarding_order(init);
        let es = arrivals(ps);
        let received = RelayEvent::Received { from: ps.last().0, packet: ps.last().1 };
        let sending = RelayState::Sending { to: across(ps.last().0) };
        let send = RelayAction::Send { to: across(ps.last().0), packet: ps.last().1 };
        assert(es.drop_last() =~= arrivals(init).push(received));
        assert(es.drop_last().drop_last() =~= arrivals(init));
        assert(run(RelayState::Running, es.drop_last()) == (sending, forwarding(init).push(send)));
        assert(run(RelayState::Running, es) == (
        RelayState::Running,
        forwarding(init).push(send).push(RelayAction::AwaitPacket),
        ));
    }
}

} // verus!
