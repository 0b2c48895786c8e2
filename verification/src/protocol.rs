//! The per-connection protocol: the 3-byte command token and the session
//! state machine that frames requests and responses.
//!
//! The machine is driven by the connection loop: each step hands back the
//! next action (read a command token, read a length-prefixed frame, run a
//! storage operation, write a response, or close), and the outcome of
//! that action is the event for the following step. Reads, writes and the
//! idle clock live outside; every decision is taken here.

use vstd::prelude::*;
use crate::KvError;
use crate::codec::{get_response_bytes, ok_bytes};

verus! {

/// Length of the command token that opens every request.
pub const COMMAND_LEN: usize = 3;

/// Milliseconds a connection may stay silent before the server closes it.
pub const IDLE_TIMEOUT_MS: u64 = 2000;

/// Milliseconds between polls for an incoming command while waiting.
pub const POLL_INTERVAL_MS: u64 = 50;

/// The commands a client can issue; anything else closes the connection.
#[derive(Clone, Copy, Debug, PartialEq, Eq, Structural)]
pub enum Command {
    Get,
    SetCmd,
    Unknown,
}

/// The command named by a 3-byte token: `"GET"`, `"SET"`, or unknown.
pub open spec fn spec_command(bytes: Seq<u8>) -> Command {
    if bytes == seq![71u8, 69u8, 84u8] {
        Command::Get
    } else if bytes == seq![83u8, 69u8, 84u8] {
        Command::SetCmd
    } else {
        Command::Unknown
    }
}

/// Reads the command out of the 3-byte token that opens a request.
pub fn parse_command(buf: &[u8]) -> (c: Command)
    requires
        buf@.len() == 3,
    ensures
        c == spec_command(buf@),
{
    if buf[0] == 71u8 && buf[1] == 69u8 && buf[2] == 84u8 {
        assert(buf@ =~= seq![71u8, 69u8, 84u8]);
        Command::Get
    } else if buf[0] == 83u8 && buf[1] == 69u8 && buf[2] == 84u8 {
        assert(buf@ =~= seq![83u8, 69u8, 84u8]);
        Command::SetCmd
    } else {
        assert(buf@ != seq![71u8, 69u8, 84u8]);
        assert(buf@ != seq![83u8, 69u8, 84u8]);
        Command::Unknown
    }
}

/// A continuation byte of a multi-byte UTF-8 character.
pub open spec fn is_cont(b: u8) -> bool {
    0x80 <= b <= 0xBF
}

/// Whether `s` is well-formed UTF-8 text: a sequence of one- to
/// four-byte characters, with overlong forms, surrogates and code
/// points past U+10FFFF rejected. Keys on the wire must satisfy this;
/// a key frame that does not closes the connection.
pub open spec fn is_utf8(s: Seq<u8>) -> bool
    decreases s.len(),
{
    if s.len() == 0 {
        true
    } else {
        let b0 = s[0];
        if b0 < 0x80 {
            is_utf8(s.skip(1))
        } else if 0xC2 <= b0 && b0 <= 0xDF {
            s.len() >= 2 && is_cont(s[1]) && is_utf8(s.skip(2))
        } else if b0 == 0xE0 {
            s.len() >= 3 && 0xA0 <= s[1] && s[1] <= 0xBF && is_cont(s[2]) && is_utf8(s.skip(3))
        } else if b0 == 0xED {
            s.len() >= 3 && 0x80 <= s[1] && s[1] <= 0x9F && is_cont(s[2]) && is_utf8(s.skip(3))
        } else if 0xE1 <= b0 && b0 <= 0xEF {
            s.len() >= 3 && is_cont(s[1]) && is_cont(s[2]) && is_utf8(s.skip(3))
        } else if b0 == 0xF0 {
            s.len() >= 4 && 0x90 <= s[1] && s[1] <= 0xBF && is_cont(s[2]) && is_cont(s[3])
                && is_utf8(s.skip(4))
        } else if 0xF1 <= b0 && b0 <= 0xF3 {
            s.len() >= 4 && is_cont(s[1]) && is_cont(s[2]) && is_cont(s[3]) && is_utf8(s.skip(4))
        } else if b0 == 0xF4 {
            s.len() >= 4 && 0x80 <= s[1] && s[1] <= 0x8F && is_cont(s[2]) && is_cont(s[3])
                && is_utf8(s.skip(4))
        } else {
            false
        }
    }
}

fn cont_byte(b: u8) -> (r: bool)
    ensures
        r == is_cont(b),
{
    0x80 <= b && b <= 0xBF
}

/// Checks that a byte string is well-formed UTF-8 text.
pub fn validate_utf8(bytes: &[u8]) -> (r: bool)
    ensures
        r == is_utf8(bytes@),
{
    let n = bytes.len();
    let mut pos: usize = 0;
    proof {
        assert(bytes@.skip(0) =~= bytes@);
    }
    while pos < n
        invariant
            pos <= n == bytes@.len(),
            is_utf8(bytes@) == is_utf8(bytes@.skip(pos as int)),
        decreases n - pos,
    {
        let ghost tail = bytes@.skip(pos as int);
        proof {
            assert(tail.len() == n - pos);
            assert(tail[0] == bytes@[pos as int]);
        }
        let b0 = bytes[pos];
        let width: usize;
        if b0 < 0x80 {
            width = 1;
        } else if 0xC2 <= b0 && b0 <= 0xDF {
            if n - pos < 2 || !cont_byte(bytes[pos + 1]) {
                return false;
            }
            width = 2;
        } else if b0 == 0xE0 {
            if n - pos < 3 || !(0xA0 <= bytes[pos + 1] && bytes[pos + 1] <= 0xBF) || !cont_byte(
                bytes[pos + 2],
            ) {
                return false;
            }
            width = 3;
        } else if b0 == 0xED {
            if n - pos < 3 || !(0x80 <= bytes[pos + 1] && bytes[pos + 1] <= 0x9F) || !cont_byte(
                bytes[pos + 2],
            ) {
                return false;
            }
            width = 3;
        } else if 0xE1 <= b0 && b0 <= 0xEF {
            if n - pos < 3 || !cont_byte(bytes[pos + 1]) || !cont_byte(bytes[pos + 2]) {
                return false;
            }
            width = 3;
        } else if b0 == 0xF0 {
            if n - pos < 4 || !(0x90 <= bytes[pos + 1] && bytes[pos + 1] <= 0xBF) || !cont_byte(
                bytes[pos + 2],
            ) || !cont_byte(bytes[pos + 3]) {
                return false;
            }
            width = 4;
        } else if 0xF1 <= b0 && b0 <= 0xF3 {
            if n - pos < 4 || !cont_byte(bytes[pos + 1]) || !cont_byte(bytes[pos + 2]) || !cont_byte(
                bytes[pos + 3],
            ) {
                return false;
            }
            width = 4;
        } else if b0 == 0xF4 {
            if n - pos < 4 || !(0x80 <= bytes[pos + 1] && bytes[pos + 1] <= 0x8F) || !cont_byte(
                bytes[pos + 2],
            ) || !cont_byte(bytes[pos + 3]) {
                return false;
            }
            width = 4;
        } else {
            assert(!is_utf8(tail));
            return false;
        }
        proof {
            assert(tail.skip(width as int) =~= bytes@.skip(pos as int + width as int));
        }
        pos = pos + width;
    }
    proof {
        assert(bytes@.skip(pos as int) =~= Seq::<u8>::empty());
        assert(is_utf8(Seq::<u8>::empty()));
    }
    true
}

/// Where a connection stands between two actions.
pub enum SessionState {
    /// Ready for the next 3-byte command token.
    AwaitCommand,
    /// A lookup was commanded; its key frame is due.
    AwaitGetKey,
    /// A store was commanded; its key frame is due.
    AwaitSetKey,
    /// The store's key arrived; its value frame is due.
    AwaitSetValue { key: Vec<u8> },
    /// The lookup was handed to storage; its result is due.
    GetPending,
    /// The store was handed to storage; its completion is due.
    SetPending,
    /// A response is being written back.
    Responding,
    /// The connection is torn down; no further step follows.
    Closed,
}

/// What the connection loop reports back after performing an action.
pub enum Event {
    /// A 3-byte command token arrived.
    CommandRead(Vec<u8>),
    /// No command arrived within the idle budget.
    IdleTimeout,
    /// One length-prefixed frame arrived.
    FrameRead(Vec<u8>),
    /// Storage answered a lookup.
    GetResult(Option<Vec<u8>>),
    /// Storage completed a store.
    SetDone,
    /// The response was written and flushed.
    Responded,
    /// A read, write or storage operation failed.
    Failed(KvError),
}

/// What the connection loop must do next.
pub enum Action {
    /// Read a 3-byte command token, polling up to the idle budget.
    ReadCommand,
    /// Read one length-prefixed frame.
    ReadFrame,
    /// Look the key up in storage.
    DoGet(Vec<u8>),
    /// Store the key and value.
    DoSet(Vec<u8>, Vec<u8>),
    /// Write these bytes back and flush.
    Respond(Vec<u8>),
    /// Tear the connection down.
    Close,
}

/// The states of the session machine, over byte sequences.
pub enum SpecSessionState {
    AwaitCommand,
    AwaitGetKey,
    AwaitSetKey,
    AwaitSetValue(Seq<u8>),
    GetPending,
    SetPending,
    Responding,
    Closed,
}

/// The events of the session machine, over byte sequences.
pub enum SpecEvent {
    CommandRead(Seq<u8>),
    IdleTimeout,
    FrameRead(Seq<u8>),
    GetResult(Option<Seq<u8>>),
    SetDone,
    Responded,
    Failed(KvError),
}

/// The actions of the session machine, over byte sequences.
pub enum SpecAction {
    ReadCommand,
    ReadFrame,
    DoGet(Seq<u8>),
    DoSet(Seq<u8>, Seq<u8>),
    Respond(Seq<u8>),
    Close,
}

impl View for SessionState {
    type V = SpecSessionState;

    open spec fn view(&self) -> SpecSessionState {
        match self {
            SessionState::AwaitCommand => SpecSessionState::AwaitCommand,
            SessionState::AwaitGetKey => SpecSessionState::AwaitGetKey,
            SessionState::AwaitSetKey => SpecSessionState::AwaitSetKey,
            SessionState::AwaitSetValue { key } => SpecSessionState::AwaitSetValue(key@),
            SessionState::GetPending => SpecSessionState::GetPending,
            SessionState::SetPending => SpecSessionState::SetPending,
            SessionState::Responding => SpecSessionState::Responding,
            SessionState::Closed => SpecSessionState::Closed,
        }
    }
}

impl View for Event {
    type V = SpecEvent;

    open spec fn view(&self) -> SpecEvent {
        match self {
            Event::CommandRead(tok) => SpecEvent::CommandRead(tok@),
            Event::IdleTimeout => SpecEvent::IdleTimeout,
            Event::FrameRead(frame) => SpecEvent::FrameRead(frame@),
            Event::GetResult(v) => SpecEvent::GetResult(
                match v {
                    Some(value) => Some(value@),
                    None => None,
                },
            ),
            Event::SetDone => SpecEvent::SetDone,
            Event::Responded => SpecEvent::Responded,
            Event::Failed(e) => SpecEvent::Failed(*e),
        }
    }
}

impl View for Action {
    type V = SpecAction;

    open spec fn view(&self) -> SpecAction {
        match self {
            Action::ReadCommand => SpecAction::ReadCommand,
            Action::ReadFrame => SpecAction::ReadFrame,
            Action::DoGet(key) => SpecAction::DoGet(key@),
            Action::DoSet(key, value) => SpecAction::DoSet(key@, value@),
            Action::Respond(bytes) => SpecAction::Respond(bytes@),
            Action::Close => SpecAction::Close,
        }
    }
}

/// The transition relation of a connection. A `"GET"` command reads one
/// key frame, asks storage, and answers with the length-prefixed value or
/// a zero length; a `"SET"` command reads a key frame and a value frame,
/// stores them, and answers `"OK\0"`; an unknown command, a key frame
/// that is not well-formed UTF-8 text, an idle timeout, a failure, or an
/// event out of order closes the connection, with nothing stored and no
/// response written.
pub open spec fn spec_step(s: SpecSessionState, e: SpecEvent) -> (SpecSessionState, SpecAction) {
    match (s, e) {
        (SpecSessionState::AwaitCommand, SpecEvent::CommandRead(tok)) => {
            if spec_command(tok) == Command::Get {
                (SpecSessionState::AwaitGetKey, SpecAction::ReadFrame)
            } else if spec_command(tok) == Command::SetCmd {
                (SpecSessionState::AwaitSetKey, SpecAction::ReadFrame)
            } else {
                (SpecSessionState::Closed, SpecAction::Close)
            }
        },
        (SpecSessionState::AwaitGetKey, SpecEvent::FrameRead(key)) => {
            if is_utf8(key) {
                (SpecSessionState::GetPending, SpecAction::DoGet(key))
            } else {
                (SpecSessionState::Closed, SpecAction::Close)
            }
        },
        (SpecSessionState::GetPending, SpecEvent::GetResult(v)) => (
            SpecSessionState::Responding,
            SpecAction::Respond(get_response_bytes(v)),
        ),
        (SpecSessionState::AwaitSetKey, SpecEvent::FrameRead(key)) => {
            if is_utf8(key) {
                (SpecSessionState::AwaitSetValue(key), SpecAction::ReadFrame)
            } else {
                (SpecSessionState::Closed, SpecAction::Close)
            }
        },
        (SpecSessionState::AwaitSetValue(key), SpecEvent::FrameRead(value)) => (
            SpecSessionState::SetPending,
            SpecAction::DoSet(key, value),
        ),
        (SpecSessionState::SetPending, SpecEvent::SetDone) => (
            SpecSessionState::Responding,
            SpecAction::Respond(ok_bytes()),
        ),
        (SpecSessionState::Responding, SpecEvent::Responded) => (
            SpecSessionState::AwaitCommand,
            SpecAction::ReadCommand,
        ),
        _ => (SpecSessionState::Closed, SpecAction::Close),
    }
}

/// Takes one step of the session machine: the state and the event that
/// ended the previous action give the next state and the next action.
pub fn session_step(state: SessionState, event: Event) -> (r: (SessionState, Action))
    ensures
        (r.0@, r.1@) == spec_step(state@, event@),
{
    match (state, event) {
        (SessionState::AwaitCommand, Event::CommandRead(tok)) => {
            if tok.len() != COMMAND_LEN {
                (SessionState::Closed, Action::Close)
            } else {
                match parse_command(tok.as_slice()) {
                    Command::Get => (SessionState::AwaitGetKey, Action::ReadFrame),
                    Command::SetCmd => (SessionState::AwaitSetKey, Action::ReadFrame),
                    Command::Unknown => (SessionState::Closed, Action::Close),
                }
            }
        },
        (SessionState::AwaitGetKey, Event::FrameRead(key)) => {
            if validate_utf8(key.as_slice()) {
                (SessionState::GetPending, Action::DoGet(key))
            } else {
                (SessionState::Closed, Action::Close)
            }
        },
        (SessionState::GetPending, Event::GetResult(v)) => {
            let resp = crate::codec::encode_get_response(&v);
            (SessionState::Responding, Action::Respond(resp))
        },
        (SessionState::AwaitSetKey, Event::FrameRead(key)) => {
            if validate_utf8(key.as_slice()) {
                (SessionState::AwaitSetValue { key }, Action::ReadFrame)
            } else {
                (SessionState::Closed, Action::Close)
            }
        },
        (SessionState::AwaitSetValue { key }, Event::FrameRead(value)) => (
            SessionState::SetPending,
            Action::DoSet(key, value),
        ),
        (SessionState::SetPending, Event::SetDone) => (
            SessionState::Responding,
            Action::Respond(crate::codec::ok_response()),
        ),
        (SessionState::Responding, Event::Responded) => (
            SessionState::AwaitCommand,
            Action::ReadCommand,
        ),
        (_, _) => (SessionState::Closed, Action::Close),
    }
}

} // verus!
