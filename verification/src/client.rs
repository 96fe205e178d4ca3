//! The client's decisions: the server it connects to, when it retries, and
//! what it does with each message the server sends.

use vstd::prelude::*;
use crate::protocol::{Message, ClientId, ClipboardContent, HistoryEntry, HandshakeError};

verus! {

/// The first pause before reconnecting, in seconds.
pub const INITIAL_BACKOFF_SECS: u64 = 1;

/// The longest pause before reconnecting, in seconds.
pub const MAX_BACKOFF_SECS: u64 = 30;

/// Accepts the server's answer to the greeting: a `Welcome` gives the id
/// the server confirmed.
pub fn check_welcome(msg: &Message) -> (r: Result<ClientId, HandshakeError>)
    ensures
        match *msg {
            Message::Welcome { client_id } => r == Ok::<ClientId, HandshakeError>(client_id),
            _ => r == Err::<ClientId, HandshakeError>(HandshakeError::UnexpectedMessage),
        },
{
    match msg {
        Message::Welcome { client_id } => Ok(*client_id),
        _ => Err(HandshakeError::UnexpectedMessage),
    }
}

/// Where the client looks for its server.
#[derive(Debug)]
pub enum ServerTarget {
    /// Find it through mDNS.
    Discover,
    /// Connect to this address.
    Direct(String),
}

/// The configured server address `auto` means mDNS discovery; anything else
/// is an address to connect to.
pub fn server_target(addr: &str) -> (t: ServerTarget)
    ensures
        match t {
            ServerTarget::Discover => addr@ == "auto"@,
            ServerTarget::Direct(a) => addr@ != "auto"@ && a@ == addr@,
        },
{
    let given = String::from_str(addr);
    if given == String::from_str("auto") {
        ServerTarget::Discover
    } else {
        ServerTarget::Direct(given)
    }
}

/// The pause after `secs`: twice as long, but never longer than 30 seconds.
pub open spec fn next_backoff_of(secs: nat) -> nat {
    if 2 * secs < MAX_BACKOFF_SECS {
        2 * secs
    } else {
        MAX_BACKOFF_SECS as nat
    }
}

/// The pause before the next reconnection attempt, after one of `secs`.
pub fn next_backoff(secs: u64) -> (next: u64)
    requires
        secs <= u64::MAX / 2,
    ensures
        next == next_backoff_of(secs as nat),
{
    let doubled = secs * 2;
    if doubled < MAX_BACKOFF_SECS {
        doubled
    } else {
        MAX_BACKOFF_SECS
    }
}

/// After a connection attempt, with the pause `backoff` in hand: the pause
/// to sleep now, and the pause held for the attempt after.  A successful
/// connection starts over at one second.
pub open spec fn reconnect_pause_of(backoff: nat, connected: bool) -> (nat, nat) {
    let sleep = if connected {
        INITIAL_BACKOFF_SECS as nat
    } else {
        backoff
    };
    (sleep, next_backoff_of(sleep))
}

/// The pause to sleep after a connection attempt (ended, or failed to
/// connect), and the pause for the attempt after it.
pub fn reconnect_pause(backoff: u64, connected: bool) -> (r: (u64, u64))
    requires
        backoff <= u64::MAX / 2,
    ensures
        (r.0 as nat, r.1 as nat) == reconnect_pause_of(backoff as nat, connected),
{
    let sleep = if connected {
        INITIAL_BACKOFF_SECS
    } else {
        backoff
    };
    (sleep, next_backoff(sleep))
}

/// The pauses slept after each of a run of connection attempts, the first
/// with `backoff` in hand; `connected[i]` says whether attempt `i` connected.
pub open spec fn pauses(backoff: nat, connected: Seq<bool>) -> Seq<nat>
    decreases connected.len(),
{
    if connected.len() == 0 {
        seq![]
    } else {
        let (sleep, next) = reconnect_pause_of(backoff, connected[0]);
        seq![sleep] + pauses(next, connected.drop_first())
    }
}

/// The pause after `k` failed attempts in a row from the start:
/// 1, 2, 4, 8, 16 seconds, then 30 seconds from then on.
pub open spec fn failure_pause(k: nat) -> nat {
    if k < 5 {
        seq![1nat, 2nat, 4nat, 8nat, 16nat][k as int]
    } else {
        30
    }
}

/// The reconnection pauses: starting at one second, each lies between one
/// and thirty seconds; a pause after a successful connection is one
/// second; and while every attempt fails they run 1, 2, 4, 8, 16, 30, 30…
pub proof fn lemma_reconnect_pauses(backoff: nat, connected: Seq<bool>, k: nat)
    requires
        INITIAL_BACKOFF_SECS <= backoff <= MAX_BACKOFF_SECS,
        k <= 5,
        backoff == failure_pause(k),
    ensures
        ({
            let p = pauses(backoff, connected);
            &&& p.len() == connected.len()
            &&& forall|i: int| 0 <= i < p.len() ==> INITIAL_BACKOFF_SECS <= #[trigger] p[i] <= MAX_BACKOFF_SECS
            &&& forall|i: int| 0 <= i < p.len() && connected[i] ==> #[trigger] p[i] == INITIAL_BACKOFF_SECS
            &&& (forall|i: int| 0 <= i < connected.len() ==> !connected[i]) ==> forall|i: int|
                0 <= i < p.len() ==> #[trigger] p[i] == failure_pause(if k + i < 5 { (k + i) as nat } else { 5 })
        }),
    decreases connected.len(),
{
    if connected.len() > 0 {
        let (sleep, next) = reconnect_pause_of(backoff, connected[0]);
        let rest = connected.drop_first();
        let k2: nat = if connected[0] { 1 } else if k < 5 { k + 1 } else { 5 };
        lemma_reconnect_pauses(next, rest, k2);
        let p = pauses(backoff, connected);
        let q = pauses(next, rest);
        assert(p == seq![sleep] + q);
        assert forall|i: int| 0 < i < p.len() implies p[i] == q[i - 1] by {}
        assert forall|i: int| 0 <= i < p.len() && connected[i] implies #[trigger] p[i] == INITIAL_BACKOFF_SECS by {
            if i > 0 {
                assert(rest[i - 1] == connected[i]);
            }
        }
        if forall|i: int| 0 <= i < connected.len() ==> !connected[i] {
            assert forall|i: int| 0 <= i < rest.len() implies !rest[i] by {
                assert(rest[i] == connected[i + 1]);
            }
        }
    }
}

/// What the client does with a message from the server.
#[derive(Debug)]
pub enum ClientAction {
    /// An update that this client sent itself: nothing to do.
    IgnoreOwnUpdate,
    /// Another peer's update: write it to the local clipboard.
    WriteClipboard(ClipboardContent),
    /// Answer a keepalive with `Pong`.
    SendPong,
    /// Print these history entries.
    ShowHistory(Vec<HistoryEntry>),
    /// Write this history entry's content to the local clipboard.
    WriteHistoryContent(ClipboardContent),
    /// The server cleared the history.
    HistoryCleared,
    /// A message a server does not send to a client: logged and ignored.
    Unexpected,
}

/// Decides what the client `me` does with `msg` from the server.
pub fn server_message_action(msg: Message, me: ClientId) -> (a: ClientAction)
    ensures
        match msg {
            Message::ClipboardUpdate { content_type, data, origin_client, .. } => if origin_client
                == me {
                a is IgnoreOwnUpdate
            } else {
                a == ClientAction::WriteClipboard(ClipboardContent { content_type, data })
            },
            Message::Ping => a is SendPong,
            Message::HistoryResponse { entries } => a == ClientAction::ShowHistory(entries),
            Message::HistoryContent { content_type, data } => a == ClientAction::WriteHistoryContent(
                ClipboardContent { content_type, data },
            ),
            Message::HistoryClearAck => a is HistoryCleared,
            _ => a is Unexpected,
        },
{
    match msg {
        Message::ClipboardUpdate { content_type, data, origin_client, .. } => {
            if origin_client == me {
                ClientAction::IgnoreOwnUpdate
            } else {
                ClientAction::WriteClipboard(ClipboardContent { content_type, data })
            }
        },
        Message::Ping => ClientAction::SendPong,
        Message::HistoryResponse { entries } => ClientAction::ShowHistory(entries),
        Message::HistoryContent { content_type, data } => ClientAction::WriteHistoryContent(
            ClipboardContent { content_type, data },
        ),
        Message::HistoryClearAck => ClientAction::HistoryCleared,
        _ => ClientAction::Unexpected,
    }
}

} // verus!
