//! Frame parsing. One inbound frame is classified by its command prefix
//! and split into its colon-delimited arguments. A frame with no
//! recognized prefix, or a relay frame missing its payload delimiter, is
//! classified `Other` and later ignored.

use vstd::prelude::*;
use crate::bytes::{find_byte, find_byte_spec, starts_with, subvec, trim, trim_spec, has_prefix};
use crate::frames::{
    accept_prefix, accept_prefix_vec, connect_prefix, connect_prefix_vec, disconnect_prefix,
    disconnect_prefix_vec, msg_prefix, msg_prefix_vec, sessionkey_prefix, sessionkey_prefix_vec,
};

verus! {

/// The mathematical form of a parsed frame: each argument as a byte
/// sequence.
pub enum CommandModel {
    /// `CONNECT:<target>` — ask to reach `target`.
    Connect { target: Seq<u8> },
    /// `ACCEPT:<target>` — accept `target`'s request.
    Accept { target: Seq<u8> },
    /// `DISCONNECT:<target>` — end the session with `target`.
    Disconnect { target: Seq<u8> },
    /// `MSG:<target>:<payload>` — relay `payload` to `target` verbatim.
    Msg { target: Seq<u8>, payload: Seq<u8> },
    /// `SESSIONKEY:<target>:<payload>` — relay key material verbatim.
    SessionKey { target: Seq<u8>, payload: Seq<u8> },
    /// Anything else; the relay ignores it.
    Other,
}

/// A parsed frame, holding its arguments as owned byte vectors.
pub enum Command {
    Connect { target: Vec<u8> },
    Accept { target: Vec<u8> },
    Disconnect { target: Vec<u8> },
    Msg { target: Vec<u8>, payload: Vec<u8> },
    SessionKey { target: Vec<u8>, payload: Vec<u8> },
    Other,
}

impl View for Command {
    type V = CommandModel;

    open spec fn view(&self) -> CommandModel {
        match self {
            Command::Connect { target } => CommandModel::Connect { target: target@ },
            Command::Accept { target } => CommandModel::Accept { target: target@ },
            Command::Disconnect { target } => CommandModel::Disconnect { target: target@ },
            Command::Msg { target, payload } => (CommandModel::Msg {
                target: target@,
                payload: payload@,
            }),
            Command::SessionKey { target, payload } => (CommandModel::SessionKey {
                target: target@,
                payload: payload@,
            }),
            Command::Other => CommandModel::Other,
        }
    }
}

/// What remains of `frame` after its first `n` bytes.
pub open spec fn skip(frame: Seq<u8>, n: int) -> Seq<u8> {
    frame.subrange(n, frame.len() as int)
}

/// Splits the rest of a relay frame (`MSG:`/`SESSIONKEY:`) at its first
/// colon into target and verbatim payload; `None` when no colon follows.
pub open spec fn split_target_payload(rest: Seq<u8>) -> Option<(Seq<u8>, Seq<u8>)> {
    match find_byte_spec(rest, ':' as u8) {
        Some(i) => Some((rest.subrange(0, i), skip(rest, i + 1))),
        None => None,
    }
}

/// How one frame parses. Control commands take everything after the
/// prefix, trimmed of surrounding whitespace, as the target; relay
/// commands split untrimmed at the first colon and keep the payload
/// byte-for-byte.
pub open spec fn parse_spec(frame: Seq<u8>) -> CommandModel {
    if has_prefix(frame, connect_prefix()) {
        CommandModel::Connect { target: trim_spec(skip(frame, connect_prefix().len() as int)) }
    } else if has_prefix(frame, accept_prefix()) {
        CommandModel::Accept { target: trim_spec(skip(frame, accept_prefix().len() as int)) }
    } else if has_prefix(frame, disconnect_prefix()) {
        CommandModel::Disconnect {
            target: trim_spec(skip(frame, disconnect_prefix().len() as int)),
        }
    } else if has_prefix(frame, msg_prefix()) {
        match split_target_payload(skip(frame, msg_prefix().len() as int)) {
            Some(tp) => CommandModel::Msg { target: tp.0, payload: tp.1 },
            None => CommandModel::Other,
        }
    } else if has_prefix(frame, sessionkey_prefix()) {
        match split_target_payload(skip(frame, sessionkey_prefix().len() as int)) {
            Some(tp) => CommandModel::SessionKey { target: tp.0, payload: tp.1 },
            None => CommandModel::Other,
        }
    } else {
        CommandModel::Other
    }
}

/// Parses one frame, exactly as `parse_spec` says.
pub fn parse(frame: &[u8]) -> (c: Command)
    ensures
        c@ == parse_spec(frame@),
{
    let connect = connect_prefix_vec();
    if starts_with(frame, connect.as_slice()) {
        let target = trim_after(frame, connect.len());
        return Command::Connect { target };
    }
    let accept = accept_prefix_vec();
    if starts_with(frame, accept.as_slice()) {
        let target = trim_after(frame, accept.len());
        return Command::Accept { target };
    }
    let disconnect = disconnect_prefix_vec();
    if starts_with(frame, disconnect.as_slice()) {
        let target = trim_after(frame, disconnect.len());
        return Command::Disconnect { target };
    }
    let msg = msg_prefix_vec();
    if starts_with(frame, msg.as_slice()) {
        match split_after(frame, msg.len()) {
            Some((target, payload)) => {
                return Command::Msg { target, payload };
            },
            None => {
                return Command::Other;
            },
        }
    }
    let sessionkey = sessionkey_prefix_vec();
    if starts_with(frame, sessionkey.as_slice()) {
        match split_after(frame, sessionkey.len()) {
            Some((target, payload)) => {
                return Command::SessionKey { target, payload };
            },
            None => {
                return Command::Other;
            },
        }
    }
    Command::Other
}

/// The bytes after position `n`, trimmed of surrounding whitespace.
fn trim_after(frame: &[u8], n: usize) -> (r: Vec<u8>)
    requires
        n <= frame@.len(),
    ensures
        r@ == trim_spec(skip(frame@, n as int)),
{
    let rest = subvec(frame, n, frame.len());
    trim(rest.as_slice())
}

/// Splits the bytes after position `n` at their first colon.
fn split_after(frame: &[u8], n: usize) -> (r: Option<(Vec<u8>, Vec<u8>)>)
    requires
        n <= frame@.len(),
    ensures
        match r {
            Some(tp) => (split_target_payload(skip(frame@, n as int)) == Some(
                (tp.0@, tp.1@),
            )),
            None => split_target_payload(skip(frame@, n as int)) is None,
        },
{
    let rest = subvec(frame, n, frame.len());
    match find_byte(rest.as_slice(), ':' as u8) {
        Some(i) => {
            proof {
                crate::bytes::lemma_find_byte_spec(rest@, ':' as u8);
            }
            let target = subvec(rest.as_slice(), 0, i);
            let payload = subvec(rest.as_slice(), i + 1, rest.len());
            proof {
                assert(payload@ =~= skip(rest@, i + 1));
            }
            Some((target, payload))
        },
        None => None,
    }
}

} // verus!
