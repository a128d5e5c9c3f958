//! The connection-establishment state machine.
//!
//! Connectivity is brought up once, before the workers start: scan for
//! the target network to learn a channel hint, apply the client
//! configuration, start the radio, then connect until an address is
//! held. The machine is asymmetric on purpose: a radio that does not
//! start within its timeout points at a setup error and fails the whole
//! startup, while a connect attempt that times out is retried without
//! limit, since an unreachable access point is expected to recover.
//! The caller performs each phase's outside work and reports the
//! outcome as an event; the machine names the next state.

use vstd::prelude::*;

verus! {

/// One visible network, as the scan reports it: its name and its radio
/// channel.
pub struct ApInfo {
    /// The network's name, as bytes.
    pub ssid: Vec<u8>,
    /// The radio channel the network was seen on.
    pub channel: u8,
}

/// Where connection establishment stands.
#[derive(Clone, Copy, PartialEq, Eq, Structural, Debug)]
pub enum ConnState {
    /// Scanning for the target network's channel.
    Scanning,
    /// Applying the client configuration, with the scan's channel hint.
    Configuring { hint: Option<u8> },
    /// Waiting for the radio to report that it has started.
    Starting,
    /// Attempting to connect and obtain an address.
    Connecting,
    /// Connected, holding the assigned address.
    Verified { ip: u32 },
    /// Startup has failed; the machine never leaves this state.
    Failed,
}

/// What the outside work of one phase reported.
#[derive(Clone, Copy, PartialEq, Eq, Structural, Debug)]
pub enum ConnEvent {
    /// The scan finished, with the target's channel where it was seen.
    ScanComplete { hint: Option<u8> },
    /// The client configuration was applied.
    Configured,
    /// The radio reported that it has started.
    Started,
    /// The radio did not start within the timeout. Fatal.
    StartTimeout,
    /// The radio is connected and holds this address.
    Connected { ip: u32 },
    /// The connect attempt did not finish within the timeout. Retried.
    ConnectTimeout,
}

/// The transition relation: from a state and the event its phase
/// reported, the next state. A timeout while starting fails the machine
/// for good; a timeout while connecting stays in `Connecting`, to be
/// retried; a report of being connected with the placeholder address
/// zero also stays in `Connecting`. An event that its state's phase
/// cannot report fails the machine.
pub open spec fn spec_conn_step(s: ConnState, e: ConnEvent) -> ConnState {
    match (s, e) {
        (ConnState::Scanning, ConnEvent::ScanComplete { hint }) => ConnState::Configuring { hint },
        (ConnState::Configuring { .. }, ConnEvent::Configured) => ConnState::Starting,
        (ConnState::Starting, ConnEvent::Started) => ConnState::Connecting,
        (ConnState::Starting, ConnEvent::StartTimeout) => ConnState::Failed,
        (ConnState::Connecting, ConnEvent::Connected { ip }) => if ip != 0 {
            ConnState::Verified { ip }
        } else {
            ConnState::Connecting
        },
        (ConnState::Connecting, ConnEvent::ConnectTimeout) => ConnState::Connecting,
        (ConnState::Verified { ip }, _) => ConnState::Verified { ip },
        _ => ConnState::Failed,
    }
}

/// Advances the machine by one reported event.
pub fn conn_step(s: ConnState, e: ConnEvent) -> (n: ConnState)
    ensures
        n == spec_conn_step(s, e),
{
    match (s, e) {
        (ConnState::Scanning, ConnEvent::ScanComplete { hint }) => ConnState::Configuring { hint },
        (ConnState::Configuring { hint: _ }, ConnEvent::Configured) => ConnState::Starting,
        (ConnState::Starting, ConnEvent::Started) => ConnState::Connecting,
        (ConnState::Starting, ConnEvent::StartTimeout) => ConnState::Failed,
        (ConnState::Connecting, ConnEvent::Connected { ip }) => if ip != 0 {
            ConnState::Verified { ip }
        } else {
            ConnState::Connecting
        },
        (ConnState::Connecting, ConnEvent::ConnectTimeout) => ConnState::Connecting,
        (ConnState::Verified { ip }, _) => ConnState::Verified { ip },
        _ => ConnState::Failed,
    }
}

/// The channel hint the scan yields for the target network: the channel
/// of the first report whose name matches, if any. The target's absence
/// is tolerated, not an error.
pub open spec fn spec_find_hint(aps: Seq<ApInfo>, target: Seq<u8>) -> Option<u8>
    decreases aps.len(),
{
    if aps.len() == 0 {
        None
    } else if aps[0].ssid@ == target {
        Some(aps[0].channel)
    } else {
        spec_find_hint(aps.drop_first(), target)
    }
}

/// Discarding a non-matching head leaves the hint unchanged.
proof fn lemma_find_hint_skip(aps: Seq<ApInfo>, target: Seq<u8>, i: int)
    requires
        0 <= i < aps.len(),
        aps[i].ssid@ != target,
    ensures
        spec_find_hint(aps.subrange(i, aps.len() as int), target) == spec_find_hint(
            aps.subrange(i + 1, aps.len() as int),
            target,
        ),
{
    let tail = aps.subrange(i, aps.len() as int);
    assert(tail[0] == aps[i]);
    assert(tail.drop_first() =~= aps.subrange(i + 1, aps.len() as int));
}

/// Looks the target network up in the scan's reports; yields the first
/// matching report's channel, or nothing where the target was not seen.
pub fn find_channel_hint(aps: &Vec<ApInfo>, target: &Vec<u8>) -> (r: Option<u8>)
    ensures
        r == spec_find_hint(aps@, target@),
{
    let mut i: usize = 0;
    proof {
        assert(aps@.subrange(0, aps@.len() as int) =~= aps@);
    }
    while i < aps.len()
        invariant
            0 <= i <= aps@.len(),
            spec_find_hint(aps@, target@) == spec_find_hint(
                aps@.subrange(i as int, aps@.len() as int),
                target@,
            ),
        decreases aps@.len() - i,
    {
        let same = crate::wire::bytes_eq(&aps[i].ssid, target);
        if same {
            proof {
                assert(aps@.subrange(i as int, aps@.len() as int)[0] == aps@[i as int]);
            }
            return Some(aps[i].channel);
        }
        proof {
            lemma_find_hint_skip(aps@, target@, i as int);
        }
        i = i + 1;
    }
    proof {
        assert(aps@.subrange(aps@.len() as int, aps@.len() as int) =~= Seq::<ApInfo>::empty());
    }
    None
}

/// A timeout of the start phase aborts establishment for good: the
/// machine fails at once and no later event leaves the failed state.
pub proof fn lemma_start_timeout_aborts(e: ConnEvent)
    ensures
        spec_conn_step(ConnState::Starting, ConnEvent::StartTimeout) == ConnState::Failed,
        spec_conn_step(ConnState::Failed, e) == ConnState::Failed,
{
}

/// A timeout of the connect phase does not terminate establishment: the
/// machine stays in `Connecting`, so the attempt is retried without
/// limit.
pub proof fn lemma_connect_timeout_retries()
    ensures
        spec_conn_step(ConnState::Connecting, ConnEvent::ConnectTimeout) == ConnState::Connecting,
{
}

/// The condition the connect phase waits for: the radio reports itself
/// connected and the held address is not the placeholder zero.
pub fn connectivity_verified(connected: bool, ip: u32) -> (r: bool)
    ensures
        r <==> connected && ip != 0,
{
    connected && ip != 0
}

} // verus!
