//! The server's decisions: whom it accepts, what it does with each message a
//! client sends, whom it forwards an update to, and which port it
//! advertises.

use vstd::prelude::*;
use vstd::slice::slice_to_vec;
use vstd::string::StringSliceAdditionalSpecFns;
use crate::protocol::{Message, ClientId, ContentType, ClipboardContent, HandshakeError, PROTOCOL_VERSION};

verus! {

/// The port advertised when the bind address names none that parses.
pub const DEFAULT_PORT: u16 = 9090;

/// Accepts a client's opening message: a `Hello` of this protocol version
/// gives the client's id.
pub fn check_hello(msg: &Message) -> (r: Result<ClientId, HandshakeError>)
    ensures
        match *msg {
            Message::Hello { client_id, protocol_version } => if protocol_version == PROTOCOL_VERSION {
                r == Ok::<ClientId, HandshakeError>(client_id)
            } else {
                r == Err::<ClientId, HandshakeError>(
                    HandshakeError::VersionMismatch { client_id, protocol_version },
                )
            },
            _ => r == Err::<ClientId, HandshakeError>(HandshakeError::UnexpectedMessage),
        },
{
    match msg {
        Message::Hello { client_id, protocol_version } => {
            if *protocol_version == PROTOCOL_VERSION {
                Ok(*client_id)
            } else {
                Err(HandshakeError::VersionMismatch { client_id: *client_id, protocol_version: *protocol_version })
            }
        },
        _ => Err(HandshakeError::UnexpectedMessage),
    }
}

/// A clipboard update that the server passes on.
#[derive(Debug)]
pub struct RelayedUpdate {
    pub content_type: ContentType,
    pub data: Vec<u8>,
    pub hash: [u8; 32],
    pub origin_client: ClientId,
}

impl RelayedUpdate {
    /// The update as it is forwarded to the other clients.
    pub fn to_message(&self) -> (m: Message)
        ensures
            match m {
                Message::ClipboardUpdate { content_type, data, hash, origin_client } => content_type
                    == self.content_type && data@ == self.data@ && hash == self.hash && origin_client
                    == self.origin_client,
                _ => false,
            },
    {
        Message::ClipboardUpdate {
            content_type: self.content_type,
            data: slice_to_vec(self.data.as_slice()),
            hash: self.hash,
            origin_client: self.origin_client,
        }
    }

    /// The content, as it is written to the server's own clipboard.
    pub fn content(&self) -> (c: ClipboardContent)
        ensures
            c.content_type == self.content_type,
            c.data@ == self.data@,
    {
        ClipboardContent { content_type: self.content_type, data: slice_to_vec(self.data.as_slice()) }
    }
}

/// What the server does with a message from a connected client.
#[derive(Debug)]
pub enum ServerAction {
    /// An update larger than the size limit: dropped.
    DropOversized,
    /// An update: write it to the server's clipboard, record it in the
    /// history, and forward it to every client but `sender`.
    Relay { update: RelayedUpdate, sender: ClientId },
    /// Nothing to do (a `Pong`).
    Ignore,
    /// Answer with the newest `count` history entries.
    SendHistory { count: usize },
    /// Answer with the content of the history entry with this hash, if any.
    FetchHistory { hash: [u8; 32] },
    /// Clear the history and acknowledge.
    ClearHistory,
    /// A message a client has no business sending: logged and ignored.
    Unexpected,
}

/// Decides what to do with `msg`, received from the client `sender`, when
/// updates may hold at most `max_size` bytes.
pub fn client_message_action(msg: Message, sender: ClientId, max_size: usize) -> (a: ServerAction)
    ensures
        match msg {
            Message::ClipboardUpdate { content_type, data, hash, origin_client } => if data@.len()
                > max_size {
                a is DropOversized
            } else {
                match a {
                    ServerAction::Relay { update, sender: s } => s == sender && update.content_type
                        == content_type && update.data@ == data@ && update.hash == hash
                        && update.origin_client == origin_client,
                    _ => false,
                }
            },
            Message::Pong => a is Ignore,
            Message::HistoryRequest { count } => a == (ServerAction::SendHistory { count }),
            Message::HistoryFetch { hash } => a == (ServerAction::FetchHistory { hash }),
            Message::HistoryClear => a is ClearHistory,
            _ => a is Unexpected,
        },
{
    match msg {
        Message::ClipboardUpdate { content_type, data, hash, origin_client } => {
            if data.len() > max_size {
                ServerAction::DropOversized
            } else {
                ServerAction::Relay { update: RelayedUpdate { content_type, data, hash, origin_client }, sender }
            }
        },
        Message::Pong => ServerAction::Ignore,
        Message::HistoryRequest { count } => ServerAction::SendHistory { count },
        Message::HistoryFetch { hash } => ServerAction::FetchHistory { hash },
        Message::HistoryClear => ServerAction::ClearHistory,
        _ => ServerAction::Unexpected,
    }
}

/// The clients of `ids` other than `exclude`, in order.
pub open spec fn recipients_of(ids: Seq<ClientId>, exclude: Option<ClientId>) -> Seq<ClientId>
    decreases ids.len(),
{
    if ids.len() == 0 {
        seq![]
    } else if Some(ids.last()) == exclude {
        recipients_of(ids.drop_last(), exclude)
    } else {
        recipients_of(ids.drop_last(), exclude).push(ids.last())
    }
}

/// The connected clients that a broadcast reaches: all of them but `exclude`.
pub fn recipients(ids: &Vec<ClientId>, exclude: Option<ClientId>) -> (r: Vec<ClientId>)
    ensures
        r@ == recipients_of(ids@, exclude),
{
    let mut r: Vec<ClientId> = Vec::new();
    let mut i: usize = 0;
    while i < ids.len()
        invariant
            i <= ids@.len(),
            r@ == recipients_of(ids@.take(i as int), exclude),
        decreases ids@.len() - i,
    {
        let id = ids[i];
        proof {
            assert(ids@.take(i + 1).drop_last() =~= ids@.take(i as int));
        }
        let skip = match exclude {
            Some(x) => x == id,
            None => false,
        };
        if !skip {
            r.push(id);
        }
        i = i + 1;
    }
    proof {
        assert(ids@.take(ids@.len() as int) =~= ids@);
    }
    r
}

/// A broadcast never goes back to the client it excludes, and reaches
/// every other connected client.
pub proof fn lemma_broadcast_skips_only_sender(ids: Seq<ClientId>, exclude: Option<ClientId>)
    ensures
        forall|id: ClientId| recipients_of(ids, exclude).contains(id) ==> Some(id) != exclude,
        forall|id: ClientId| ids.contains(id) && Some(id) != exclude ==> recipients_of(ids, exclude).contains(id),
    decreases ids.len(),
{
    if ids.len() > 0 {
        lemma_broadcast_skips_only_sender(ids.drop_last(), exclude);
        let rest = recipients_of(ids.drop_last(), exclude);
        assert forall|id: ClientId| ids.contains(id) && Some(id) != exclude implies recipients_of(ids, exclude).contains(id) by {
            let k = choose|k: int| 0 <= k < ids.len() && ids[k] == id;
            if k < ids.len() - 1 {
                assert(ids.drop_last()[k] == id);
                assert(ids.drop_last().contains(id));
                if Some(ids.last()) != exclude {
                    let w = choose|w: int| 0 <= w < rest.len() && rest[w] == id;
                    assert(rest.push(ids.last())[w] == id);
                }
            } else {
                assert(rest.push(ids.last())[rest.len() as int] == id);
            }
        }
        assert forall|id: ClientId| recipients_of(ids, exclude).contains(id) implies Some(id) != exclude by {
            if Some(ids.last()) != exclude {
                let k = choose|k: int| 0 <= k < rest.push(ids.last()).len() && rest.push(ids.last())[k] == id;
                if k < rest.len() {
                    assert(rest.contains(id));
                }
            }
        }
    }
}

/// The part of `b` after its last `:` (all of `b` when there is none).
pub open spec fn after_last_colon(b: Seq<u8>) -> Seq<u8>
    decreases b.len(),
{
    if b.len() == 0 {
        b
    } else if b.last() == 58 {
        seq![]
    } else {
        after_last_colon(b.drop_last()).push(b.last())
    }
}

/// Whether a byte is an ASCII decimal digit.
pub open spec fn is_digit(c: u8) -> bool {
    48 <= c <= 57
}

/// The value of a string of ASCII decimal digits.
pub open spec fn digits_value(d: Seq<u8>) -> nat
    decreases d.len(),
{
    if d.len() == 0 {
        0
    } else {
        digits_value(d.drop_last()) * 10 + (d.last() - 48) as nat
    }
}

/// Whether every byte of `d` is a digit.
pub open spec fn all_digits(d: Seq<u8>) -> bool {
    forall|i: int| 0 <= i < d.len() ==> is_digit(#[trigger] d[i])
}

/// What `str::parse::<u16>` gives for text with these bytes: an optional
/// `+`, then one or more ASCII digits whose value is at most 65535.
pub open spec fn parse_u16(s: Seq<u8>) -> Option<u16> {
    let digits = if s.len() > 0 && s[0] == 43 {
        s.drop_first()
    } else {
        s
    };
    if digits.len() > 0 && all_digits(digits) && digits_value(digits) <= 65535 {
        Some(digits_value(digits) as u16)
    } else {
        None
    }
}

/// The port of a bind address such as `0.0.0.0:9090`: what follows the
/// last `:`, read as a port number, or 9090 when that does not parse.
pub open spec fn bind_port_of(bind: Seq<u8>) -> u16 {
    match parse_u16(after_last_colon(bind)) {
        Some(p) => p,
        None => DEFAULT_PORT,
    }
}

proof fn lemma_after_last_colon_split(b: Seq<u8>, k: int)
    requires
        0 <= k <= b.len(),
        forall|j: int| k <= j < b.len() ==> b[j] != 58,
    ensures
        after_last_colon(b) == after_last_colon(b.take(k)) + b.skip(k),
    decreases b.len() - k,
{
    if k < b.len() {
        let c = b.drop_last();
        lemma_after_last_colon_split(c, k);
        assert(c.take(k) =~= b.take(k));
    } else {
        assert(b.take(k) =~= b);
    }
}

proof fn lemma_digits_value_grows(d: Seq<u8>, k: int)
    requires
        0 <= k <= d.len(),
        all_digits(d),
    ensures
        digits_value(d) >= digits_value(d.take(k)),
    decreases d.len() - k,
{
    if k < d.len() {
        let c = d.drop_last();
        assert(all_digits(c)) by {
            assert forall|i: int| 0 <= i < c.len() implies is_digit(#[trigger] c[i]) by {
            }
        }
        lemma_digits_value_grows(c, k);
        assert(c.take(k) =~= d.take(k));
    } else {
        assert(d.take(k) =~= d);
    }
}

/// `str::parse::<u16>` of the text `s[from..]`.
fn parse_u16_from(s: &[u8], from: usize) -> (r: Option<u16>)
    requires
        from <= s@.len(),
    ensures
        r == parse_u16(s@.skip(from as int)),
{
    let n = s.len();
    let ghost text = s@.skip(from as int);
    let mut i = from;
    if i < n && s[i] == 43 {
        i = i + 1;
    }
    let ghost digits = s@.skip(i as int);
    assert(digits =~= (if text.len() > 0 && text[0] == 43 { text.drop_first() } else { text }));
    if i == n {
        return None;
    }
    assert(parse_u16(text) == (if all_digits(digits) && digits_value(digits) <= 65535 {
        Some(digits_value(digits) as u16)
    } else {
        None
    }));
    let mut acc: u32 = 0;
    let mut j = i;
    while j < n
        invariant
            i <= j <= n == s@.len(),
            i < n,
            digits == s@.skip(i as int),
            parse_u16(s@.skip(from as int)) == (if all_digits(digits) && digits_value(digits) <= 65535 {
                Some(digits_value(digits) as u16)
            } else {
                None
            }),
            acc <= 65535,
            acc == digits_value(digits.take(j - i)),
            all_digits(digits.take(j - i)),
        decreases n - j,
    {
        let c = s[j];
        if c < 48 || c > 57 {
            assert(!is_digit(digits[j - i]));
            return None;
        }
        proof {
            assert(digits.take(j - i + 1).drop_last() =~= digits.take(j - i));
            assert forall|k: int| 0 <= k < j - i + 1 implies is_digit(
                #[trigger] digits.take(j - i + 1)[k],
            ) by {
                if k < j - i {
                }
            }
        }
        let next = acc * 10 + (c - 48) as u32;
        if next > 65535 {
            proof {
                if all_digits(digits) {
                    lemma_digits_value_grows(digits, j - i + 1);
                }
            }
            return None;
        }
        acc = next;
        j = j + 1;
    }
    assert(digits.take(n - i) =~= digits);
    Some(acc as u16)
}

/// The port that the server advertises for its bind address.
pub fn bind_port(bind_addr: &str) -> (port: u16)
    ensures
        port == bind_port_of(bind_addr.spec_bytes()),
{
    let b = bind_addr.as_bytes();
    let n = b.len();
    let mut start = n;
    while start > 0 && b[start - 1] != 58
        invariant
            start <= n == b@.len(),
            forall|j: int| start <= j < n ==> b@[j] != 58,
        decreases start,
    {
        start = start - 1;
    }
    proof {
        lemma_after_last_colon_split(b@, start as int);
    }
    match parse_u16_from(b, start) {
        Some(p) => p,
        None => DEFAULT_PORT,
    }
}

} // verus!
