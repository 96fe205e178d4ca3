//! The `history` command: a short conversation with the server that lists
//! the history, copies one entry to the local clipboard, or clears it.
//!
//! `HistorySession` decides, for each message the server sends, what to do
//! next; the application sends, prints and writes the clipboard.

use vstd::prelude::*;
use crate::protocol::{Message, HistoryEntry, ClipboardContent};

verus! {

/// How many entries the plain `history` command lists.
pub const LIST_COUNT: usize = 20;

/// What the `history` command was asked to do besides listing.
#[derive(Debug, Clone, Copy, PartialEq, Eq, Structural)]
pub enum HistoryAction {
    /// Copy the entry at this 1-based position (newest first) to the clipboard.
    Get { index: usize },
    /// Clear the history.
    Clear,
}

/// Where the conversation stands.
#[derive(Debug, Clone, Copy, PartialEq, Eq, Structural)]
pub enum CliState {
    AwaitWelcome,
    AwaitList,
    AwaitEntries { index: usize },
    AwaitContent { index: usize },
    AwaitClearAck,
    Done,
}

/// Why the conversation failed.
#[derive(Debug, Clone, Copy, PartialEq, Eq, Structural)]
pub enum CliError {
    /// The server answered the greeting with something else than `Welcome`.
    ExpectedWelcome,
    /// The server answered a request with the wrong kind of message.
    UnexpectedResponse,
    /// The listing holds no entry at the requested position.
    EntryNotFound { index: usize },
    /// A message arrived after the conversation was over.
    Finished,
}

/// What to do after a message from the server.
#[derive(Debug)]
pub enum CliStep {
    /// Send this message to the server and wait for the answer.
    Send(Message),
    /// Show this listing; the conversation is over.
    ShowEntries(Vec<HistoryEntry>),
    /// Write this content to the local clipboard; the conversation is over.
    CopyEntry { index: usize, content: ClipboardContent },
    /// The history was cleared; the conversation is over.
    Cleared,
    /// The conversation failed.
    Fail(CliError),
}

/// The request that follows the server's `Welcome`, and the state that
/// waits for its answer.
pub open spec fn first_request(action: Option<HistoryAction>) -> (Message, CliState) {
    match action {
        None => (Message::HistoryRequest { count: LIST_COUNT }, CliState::AwaitList),
        Some(HistoryAction::Get { index }) => (
            Message::HistoryRequest { count: index },
            CliState::AwaitEntries { index },
        ),
        Some(HistoryAction::Clear) => (Message::HistoryClear, CliState::AwaitClearAck),
    }
}

/// Whether `j` is the first position in `entries` whose entry is numbered `index`.
pub open spec fn first_with_index(entries: Seq<HistoryEntry>, index: usize, j: int) -> bool {
    &&& 0 <= j < entries.len()
    &&& entries[j].index == index
    &&& forall|k: int| 0 <= k < j ==> entries[k].index != index
}

/// The next state and step, from the state and the message received.
pub open spec fn session_step(action: Option<HistoryAction>, state: CliState, msg: Message) -> (CliState, CliStep) {
    match state {
        CliState::AwaitWelcome => match msg {
            Message::Welcome { .. } => (first_request(action).1, CliStep::Send(first_request(action).0)),
            _ => (CliState::Done, CliStep::Fail(CliError::ExpectedWelcome)),
        },
        CliState::AwaitList => match msg {
            Message::HistoryResponse { entries } => (CliState::Done, CliStep::ShowEntries(entries)),
            _ => (CliState::Done, CliStep::Fail(CliError::UnexpectedResponse)),
        },
        CliState::AwaitEntries { index } => match msg {
            Message::HistoryResponse { entries } => if exists|j: int|
                first_with_index(entries@, index, j) {
                let j = choose|j: int| first_with_index(entries@, index, j);
                (
                    CliState::AwaitContent { index },
                    CliStep::Send(Message::HistoryFetch { hash: entries@[j].hash }),
                )
            } else {
                (CliState::Done, CliStep::Fail(CliError::EntryNotFound { index }))
            },
            _ => (CliState::Done, CliStep::Fail(CliError::UnexpectedResponse)),
        },
        CliState::AwaitContent { index } => match msg {
            Message::HistoryContent { content_type, data } => (
                CliState::Done,
                CliStep::CopyEntry { index, content: ClipboardContent { content_type, data } },
            ),
            _ => (CliState::Done, CliStep::Fail(CliError::UnexpectedResponse)),
        },
        CliState::AwaitClearAck => match msg {
            Message::HistoryClearAck => (CliState::Done, CliStep::Cleared),
            _ => (CliState::Done, CliStep::Fail(CliError::UnexpectedResponse)),
        },
        CliState::Done => (CliState::Done, CliStep::Fail(CliError::Finished)),
    }
}

/// The `history` command's side of the conversation.
pub struct HistorySession {
    action: Option<HistoryAction>,
    state: CliState,
}

impl HistorySession {
    pub closed spec fn action(&self) -> Option<HistoryAction> {
        self.action
    }

    pub closed spec fn state(&self) -> CliState {
        self.state
    }

    /// A conversation that has sent its greeting and waits for `Welcome`.
    pub fn new(action: Option<HistoryAction>) -> (s: Self)
        ensures
            s.action() == action,
            s.state() == CliState::AwaitWelcome,
    {
        HistorySession { action, state: CliState::AwaitWelcome }
    }

    /// Whether the conversation is over.
    pub fn is_done(&self) -> (r: bool)
        ensures
            r == (self.state() == CliState::Done),
    {
        match self.state {
            CliState::Done => true,
            _ => false,
        }
    }

    /// Takes the server's next message and says what to do.
    pub fn on_message(&mut self, msg: Message) -> (step: CliStep)
        ensures
            final(self).action() == old(self).action(),
            (final(self).state(), step) == session_step(old(self).action(), old(self).state(), msg),
    {
        let (state, step) = match self.state {
            CliState::AwaitWelcome => match msg {
                Message::Welcome { .. } => match self.action {
                    None => (CliState::AwaitList, CliStep::Send(Message::HistoryRequest { count: LIST_COUNT })),
                    Some(HistoryAction::Get { index }) => (
                        CliState::AwaitEntries { index },
                        CliStep::Send(Message::HistoryRequest { count: index }),
                    ),
                    Some(HistoryAction::Clear) => (CliState::AwaitClearAck, CliStep::Send(Message::HistoryClear)),
                },
                _ => (CliState::Done, CliStep::Fail(CliError::ExpectedWelcome)),
            },
            CliState::AwaitList => match msg {
                Message::HistoryResponse { entries } => (CliState::Done, CliStep::ShowEntries(entries)),
                _ => (CliState::Done, CliStep::Fail(CliError::UnexpectedResponse)),
            },
            CliState::AwaitEntries { index } => match msg {
                Message::HistoryResponse { entries } => {
                    let mut j: usize = 0;
                    let mut found: Option<usize> = None;
                    while j < entries.len()
                        invariant_except_break
                            found is None,
                        invariant
                            j <= entries@.len(),
                            forall|k: int| 0 <= k < j ==> entries@[k].index != index,
                        ensures
                            match found {
                                Some(f) => first_with_index(entries@, index, f as int),
                                None => forall|k: int| 0 <= k < entries@.len() ==> entries@[k].index != index,
                            },
                        decreases entries@.len() - j,
                    {
                        if entries[j].index == index {
                            found = Some(j);
                            break;
                        }
                        j = j + 1;
                    }
                    match found {
                        Some(f) => {
                            let hash = entries[f].hash;
                            (CliState::AwaitContent { index }, CliStep::Send(Message::HistoryFetch { hash }))
                        },
                        None => (CliState::Done, CliStep::Fail(CliError::EntryNotFound { index })),
                    }
                },
                _ => (CliState::Done, CliStep::Fail(CliError::UnexpectedResponse)),
            },
            CliState::AwaitContent { index } => match msg {
                Message::HistoryContent { content_type, data } => (
                    CliState::Done,
                    CliStep::CopyEntry { index, content: ClipboardContent { content_type, data } },
                ),
                _ => (CliState::Done, CliStep::Fail(CliError::UnexpectedResponse)),
            },
            CliState::AwaitClearAck => match msg {
                Message::HistoryClearAck => (CliState::Done, CliStep::Cleared),
                _ => (CliState::Done, CliStep::Fail(CliError::UnexpectedResponse)),
            },
            CliState::Done => (CliState::Done, CliStep::Fail(CliError::Finished)),
        };
        self.state = state;
        step
    }
}

/// What each answer of the server leads to, whatever the action: the
/// greeting's answer must be `Welcome`, a listing shows exactly the entries
/// received, a fetched entry is copied to the clipboard with exactly the
/// kind and bytes received, and a clear is acknowledged; any other answer
/// ends the conversation with a failure.
pub proof fn lemma_session_answers(action: Option<HistoryAction>, msg: Message, index: usize)
    ensures
        ({
            let (st, step) = session_step(action, CliState::AwaitContent { index }, msg);
            match msg {
                Message::HistoryContent { content_type, data } => st == CliState::Done && step
                    == (CliStep::CopyEntry { index, content: ClipboardContent { content_type, data } }),
                _ => st == CliState::Done && step == CliStep::Fail(CliError::UnexpectedResponse),
            }
        }),
        ({
            let (st, step) = session_step(action, CliState::AwaitList, msg);
            match msg {
                Message::HistoryResponse { entries } => st == CliState::Done && step
                    == CliStep::ShowEntries(entries),
                _ => st == CliState::Done && step == CliStep::Fail(CliError::UnexpectedResponse),
            }
        }),
        ({
            let (st, step) = session_step(action, CliState::AwaitClearAck, msg);
            if msg is HistoryClearAck {
                st == CliState::Done && step == CliStep::Cleared
            } else {
                st == CliState::Done && step == CliStep::Fail(CliError::UnexpectedResponse)
            }
        }),
        ({
            let (st, step) = session_step(action, CliState::AwaitWelcome, msg);
            if msg is Welcome {
                match action {
                    None => st == CliState::AwaitList && step == CliStep::Send(
                        Message::HistoryRequest { count: LIST_COUNT },
                    ),
                    Some(HistoryAction::Get { index: k }) => st == (CliState::AwaitEntries {
                        index: k,
                    }) && step == CliStep::Send(Message::HistoryRequest { count: k }),
                    Some(HistoryAction::Clear) => st == CliState::AwaitClearAck && step
                        == CliStep::Send(Message::HistoryClear),
                }
            } else {
                st == CliState::Done && step == CliStep::Fail(CliError::ExpectedWelcome)
            }
        }),
        ({
            let (st, step) = session_step(action, CliState::AwaitEntries { index }, msg);
            match msg {
                Message::HistoryResponse { entries } => if exists|j: int|
                    0 <= j < entries@.len() && entries@[j].index == index {
                    st == (CliState::AwaitContent { index }) && exists|j: int|
                        0 <= j < entries@.len() && entries@[j].index == index && (forall|k: int|
                            0 <= k < j ==> entries@[k].index != index) && step == CliStep::Send(
                            Message::HistoryFetch { hash: entries@[j].hash },
                        )
                } else {
                    st == CliState::Done && step == CliStep::Fail(CliError::EntryNotFound { index })
                },
                _ => st == CliState::Done && step == CliStep::Fail(CliError::UnexpectedResponse),
            }
        }),
{
    match msg {
        Message::HistoryResponse { entries } => {
            if exists|j: int| 0 <= j < entries@.len() && entries@[j].index == index {
                let j0 = choose|j: int| 0 <= j < entries@.len() && entries@[j].index == index;
                lemma_first_index(entries@, index, j0);
                let j = choose|j: int| first_with_index(entries@, index, j);
                assert(first_with_index(entries@, index, j));
            }
        },
        _ => {},
    }
}

proof fn lemma_first_index(entries: Seq<HistoryEntry>, index: usize, j: int)
    requires
        0 <= j < entries.len(),
        entries[j].index == index,
    ensures
        exists|k: int| first_with_index(entries, index, k),
    decreases j,
{
    if exists|k: int| 0 <= k < j && entries[k].index == index {
        let k = choose|k: int| 0 <= k < j && entries[k].index == index;
        lemma_first_index(entries, index, k);
    } else {
        assert(first_with_index(entries, index, j));
    }
}

} // verus!
