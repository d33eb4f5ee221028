//! The ground-link session rules: classification of non-blocking pulls,
//! the bounded connection-attempt schedule, and the dispatch of control
//! messages into registry, router and supervisor work.
//!
//! The session's sockets live outside this crate. The caller feeds in what
//! a socket operation reported and performs the actions handed back; every
//! rule here is a pure function of its inputs.

use vstd::prelude::*;
use crate::codec::dec_control_message;
use crate::comm::{FlightControlMessage, NodeMapping, Sequence};

verus! {

/// The port on the ground station that accepts the control connection.
pub const SERVO_CONTROL_PORT: u16 = 5025;

/// The port this process binds for board datagrams.
pub const FLIGHT_CONTROL_PORT: u16 = 4573;

/// The ground station's dedicated telemetry port.
pub const SERVO_DATA_PORT: u16 = 7201;

/// How long an external reader has to consume a published snapshot.
pub const STATE_GRACE_PERIOD_MS: u64 = 20;

/// Connection attempts per candidate address when first establishing.
pub const INITIAL_CONNECT_ATTEMPTS: u8 = 3;

/// Per-attempt timeout when first establishing, in milliseconds.
pub const INITIAL_CONNECT_TIMEOUT_MS: u64 = 2000;

/// Connection attempts per candidate address when reconnecting mid-flight.
pub const SERVO_RECONNECT_RETRY_COUNT: u8 = 1;

/// Per-attempt timeout when reconnecting, in milliseconds.
pub const SERVO_RECONNECT_TIMEOUT_MS: u64 = 100;

/// What one non-blocking read of the control connection reported.
pub enum PullEvent {
    /// A complete inbound frame.
    Data(Vec<u8>),
    /// An empty read: the peer closed the connection.
    Empty,
    /// Nothing available yet; not an error.
    NotReady,
    /// The transport failed outright.
    Failed,
}

/// What the control loop should make of it.
pub enum PullOutcome {
    Message(FlightControlMessage),
    NoMessage,
    Disconnected,
    DecodeFailed,
    TransportFailed,
}

/// Classifies one non-blocking pull: an empty read means the peer
/// disconnected; no data yet is not an error and yields no message; data is
/// decoded, and a decode failure is reported but non-fatal.
pub fn handle_pull(ev: PullEvent) -> (r: PullOutcome)
    ensures
        match ev {
            PullEvent::Data(b) => match dec_control_message(b@) {
                Some(mv) => r matches PullOutcome::Message(m) && m@ == mv,
                None => r is DecodeFailed,
            },
            PullEvent::Empty => r is Disconnected,
            PullEvent::NotReady => r is NoMessage,
            PullEvent::Failed => r is TransportFailed,
        },
{
    match ev {
        PullEvent::Data(b) => match crate::codec::decode_control_message(&b) {
            Some(m) => PullOutcome::Message(m),
            None => PullOutcome::DecodeFailed,
        },
        PullEvent::Empty => PullOutcome::Disconnected,
        PullEvent::NotReady => PullOutcome::NoMessage,
        PullEvent::Failed => PullOutcome::TransportFailed,
    }
}

/// One full pass over the candidate addresses, in order.
pub open spec fn spec_address_round(n: nat) -> Seq<usize> {
    Seq::new(n, |k: int| k as usize)
}

/// The whole attempt schedule: every candidate address, in order, once per
/// attempt round.
pub open spec fn spec_attempt_schedule(n: nat, chances: nat) -> Seq<usize>
    decreases chances,
{
    if chances == 0 {
        Seq::empty()
    } else {
        spec_attempt_schedule(n, (chances - 1) as nat) + spec_address_round(n)
    }
}

pub proof fn lemma_attempt_schedule_len(n: nat, chances: nat)
    ensures
        spec_attempt_schedule(n, chances).len() == chances * n,
    decreases chances,
{
    if chances > 0 {
        let c1 = (chances - 1) as nat;
        lemma_attempt_schedule_len(n, c1);
        assert(spec_attempt_schedule(n, chances).len()
            == spec_attempt_schedule(n, c1).len() + spec_address_round(n).len());
        assert(spec_address_round(n).len() == n);
        assert(c1 * n + n == (c1 + 1) * n) by (nonlinear_arith);
        assert(c1 + 1 == chances);
        assert(spec_attempt_schedule(n, chances).len() == chances * n);
    } else {
        assert(spec_attempt_schedule(n, chances).len() == 0);
        assert(chances * n == 0);
    }
}

/// The order in which connection attempts are made: each candidate address
/// in turn, the whole list repeated once per allowed attempt. The caller
/// connects along this schedule and stops at the first success; exhausting
/// it is the failure the last underlying cause is reported with.
pub fn attempt_schedule(n_addrs: usize, chances: u8) -> (r: Vec<usize>)
    requires
        n_addrs * chances <= usize::MAX,
    ensures
        r@ == spec_attempt_schedule(n_addrs as nat, chances as nat),
        r@.len() == chances * n_addrs,
{
    let mut r: Vec<usize> = Vec::new();
    let mut a: u8 = 0;
    proof {
        assert(r@ =~= spec_attempt_schedule(n_addrs as nat, 0));
    }
    while a < chances
        invariant
            a <= chances,
            n_addrs * chances <= usize::MAX,
            r@ == spec_attempt_schedule(n_addrs as nat, a as nat),
            r@.len() == a * n_addrs,
        decreases chances - a,
    {
        let mut j: usize = 0;
        let ghost base = r@;
        proof {
            assert(a * n_addrs + n_addrs <= chances * n_addrs) by (nonlinear_arith)
                requires
                    a < chances,
                    0 <= n_addrs,
            ;
            assert(chances * n_addrs == n_addrs * chances) by (nonlinear_arith);
        }
        while j < n_addrs
            invariant
                j <= n_addrs,
                base.len() + n_addrs <= usize::MAX,
                r@ == base + spec_address_round(j as nat),
            decreases n_addrs - j,
        {
            r.push(j);
            proof {
                assert(spec_address_round((j + 1) as nat)
                    =~= spec_address_round(j as nat).push(j as usize));
                assert(r@ =~= base + spec_address_round((j + 1) as nat));
            }
            j += 1;
        }
        proof {
            assert(r@ =~= spec_attempt_schedule(n_addrs as nat, (a + 1) as nat));
            lemma_attempt_schedule_len(n_addrs as nat, (a + 1) as nat);
        }
        a += 1;
    }
    proof {
        lemma_attempt_schedule_len(n_addrs as nat, chances as nat);
        assert(chances * n_addrs == n_addrs * chances) by (nonlinear_arith);
    }
    r
}

/// What the control loop must do with one inbound control message.
pub enum ControlAction {
    /// Run the abort escalation.
    RunAbort,
    /// Forward the command to the attitude board.
    SendAhrs(crate::comm::AhrsCommand),
    /// Forward the command to the battery-management board.
    SendBms(crate::comm::BmsCommand),
    /// Execute the sequence through the supervisor.
    RunSequence(Sequence),
    /// Stop the named sequence.
    StopSequence(String),
    /// The mapping table was replaced in place; nothing else to do.
    MappingsReplaced,
    /// The abort sequence was stored; nothing else to do.
    AbortSequenceStored,
    /// Triggers are not acted on.
    Ignored,
}

/// Dispatches one ground-link control message: a `Mappings` message
/// replaces the mapping table wholesale, a sequence named `abort` becomes
/// the stored abort sequence, and everything else is handed back as the
/// action the caller must perform.
pub fn handle_control_message(
    m: FlightControlMessage,
    mappings: &mut Vec<NodeMapping>,
    abort_sequence: &mut Option<Sequence>,
) -> (r: ControlAction)
    ensures
        match m {
            FlightControlMessage::Abort => r is RunAbort
                && final(mappings)@ == old(mappings)@
                && *final(abort_sequence) == *old(abort_sequence),
            FlightControlMessage::AhrsCommand(c) => r == ControlAction::SendAhrs(c)
                && final(mappings)@ == old(mappings)@
                && *final(abort_sequence) == *old(abort_sequence),
            FlightControlMessage::BmsCommand(c) => r == ControlAction::SendBms(c)
                && final(mappings)@ == old(mappings)@
                && *final(abort_sequence) == *old(abort_sequence),
            FlightControlMessage::Trigger(_t) => r is Ignored
                && final(mappings)@ == old(mappings)@
                && *final(abort_sequence) == *old(abort_sequence),
            FlightControlMessage::Mappings(ms) => r is MappingsReplaced
                && final(mappings)@ == ms@
                && *final(abort_sequence) == *old(abort_sequence),
            FlightControlMessage::Sequence(s) => if s.name@ == "abort"@ {
                r is AbortSequenceStored && final(mappings)@ == old(mappings)@
                    && (*final(abort_sequence) matches Some(t) && t@ == s@)
            } else {
                r matches ControlAction::RunSequence(t) && t@ == s@
                    && final(mappings)@ == old(mappings)@
                    && *final(abort_sequence) == *old(abort_sequence)
            },
            FlightControlMessage::StopSequence(n) => r
                matches ControlAction::StopSequence(t) && t@ == n@
                && final(mappings)@ == old(mappings)@
                && *final(abort_sequence) == *old(abort_sequence),
        },
{
    match m {
        FlightControlMessage::Abort => ControlAction::RunAbort,
        FlightControlMessage::AhrsCommand(c) => ControlAction::SendAhrs(c),
        FlightControlMessage::BmsCommand(c) => ControlAction::SendBms(c),
        FlightControlMessage::Trigger(_t) => ControlAction::Ignored,
        FlightControlMessage::Mappings(ms) => {
            *mappings = ms;
            ControlAction::MappingsReplaced
        },
        FlightControlMessage::Sequence(s) => {
            let abort_name = String::from_str("abort");
            if s.name.eq(&abort_name) {
                *abort_sequence = Some(s);
                ControlAction::AbortSequenceStored
            } else {
                ControlAction::RunSequence(s)
            }
        },
        FlightControlMessage::StopSequence(n) => ControlAction::StopSequence(n),
    }
}

} // verus!
