//! Wire frames. A frame is UTF-8 text: a command prefix followed by
//! colon-delimited arguments. This module names each prefix as a byte
//! sequence and builds the outbound frames the relay forwards.

use vstd::prelude::*;

verus! {

/// The bytes of `"CONNECT:"`.
pub open spec fn connect_prefix() -> Seq<u8> {
    seq![
        'C' as u8,
        'O' as u8,
        'N' as u8,
        'N' as u8,
        'E' as u8,
        'C' as u8,
        'T' as u8,
        ':' as u8,
    ]
}

/// The bytes of `"ACCEPT:"`.
pub open spec fn accept_prefix() -> Seq<u8> {
    seq!['A' as u8, 'C' as u8, 'C' as u8, 'E' as u8, 'P' as u8, 'T' as u8, ':' as u8]
}

/// The bytes of `"DISCONNECT:"`.
pub open spec fn disconnect_prefix() -> Seq<u8> {
    seq![
        'D' as u8,
        'I' as u8,
        'S' as u8,
        'C' as u8,
        'O' as u8,
        'N' as u8,
        'N' as u8,
        'E' as u8,
        'C' as u8,
        'T' as u8,
        ':' as u8,
    ]
}

/// The bytes of `"MSG:"`.
pub open spec fn msg_prefix() -> Seq<u8> {
    seq!['M' as u8, 'S' as u8, 'G' as u8, ':' as u8]
}

/// The bytes of `"SESSIONKEY:"`.
pub open spec fn sessionkey_prefix() -> Seq<u8> {
    seq![
        'S' as u8,
        'E' as u8,
        'S' as u8,
        'S' as u8,
        'I' as u8,
        'O' as u8,
        'N' as u8,
        'K' as u8,
        'E' as u8,
        'Y' as u8,
        ':' as u8,
    ]
}

/// The bytes of `"BUSY:"`.
pub open spec fn busy_prefix() -> Seq<u8> {
    seq!['B' as u8, 'U' as u8, 'S' as u8, 'Y' as u8, ':' as u8]
}

/// The bytes of `"INCOMING:"`.
pub open spec fn incoming_prefix() -> Seq<u8> {
    seq![
        'I' as u8,
        'N' as u8,
        'C' as u8,
        'O' as u8,
        'M' as u8,
        'I' as u8,
        'N' as u8,
        'G' as u8,
        ':' as u8,
    ]
}

/// The bytes of `"ACCEPTED:"`.
pub open spec fn accepted_prefix() -> Seq<u8> {
    seq![
        'A' as u8,
        'C' as u8,
        'C' as u8,
        'E' as u8,
        'P' as u8,
        'T' as u8,
        'E' as u8,
        'D' as u8,
        ':' as u8,
    ]
}

/// The bytes of `"DISCONNECTED:"`.
pub open spec fn disconnected_prefix() -> Seq<u8> {
    seq![
        'D' as u8,
        'I' as u8,
        'S' as u8,
        'C' as u8,
        'O' as u8,
        'N' as u8,
        'N' as u8,
        'E' as u8,
        'C' as u8,
        'T' as u8,
        'E' as u8,
        'D' as u8,
        ':' as u8,
    ]
}

/// `"BUSY:<target>\n"` — told to a requester whose target is occupied.
pub open spec fn busy_frame(target: Seq<u8>) -> Seq<u8> {
    busy_prefix() + target + seq![0x0au8]
}

/// `"INCOMING:<requester>\n"` — told to the target of a connection request.
pub open spec fn incoming_frame(requester: Seq<u8>) -> Seq<u8> {
    incoming_prefix() + requester + seq![0x0au8]
}

/// `"ACCEPTED:<accepter>\n"` — told to the peer whose request was accepted.
pub open spec fn accepted_frame(accepter: Seq<u8>) -> Seq<u8> {
    accepted_prefix() + accepter + seq![0x0au8]
}

/// `"DISCONNECTED:<requester>\n"` — told to the peer being disconnected from.
pub open spec fn disconnected_frame(requester: Seq<u8>) -> Seq<u8> {
    disconnected_prefix() + requester + seq![0x0au8]
}

/// `"MSG:<sender>:<payload>\n"` — a relayed message, payload untouched.
pub open spec fn msg_frame(sender: Seq<u8>, payload: Seq<u8>) -> Seq<u8> {
    msg_prefix() + sender + seq![':' as u8] + payload + seq![0x0au8]
}

/// `"SESSIONKEY:<sender>:<payload>"` — relayed key material, payload
/// untouched. This frame alone carries no trailing newline on the wire.
pub open spec fn sessionkey_frame(sender: Seq<u8>, payload: Seq<u8>) -> Seq<u8> {
    sessionkey_prefix() + sender + seq![':' as u8] + payload
}

/// Appends every byte of `src` to `dst`.
pub fn append(dst: &mut Vec<u8>, src: &[u8])
    ensures
        final(dst)@ == old(dst)@ + src@,
{
    let n = src.len();
    let mut i: usize = 0;
    while i < n
        invariant
            n == src@.len(),
            i <= n,
            dst@ =~= old(dst)@ + src@.subrange(0, i as int),
        decreases n - i,
    {
        dst.push(src[i]);
        proof {
            assert(dst@ =~= old(dst)@ + src@.subrange(0, i + 1));
        }
        i = i + 1;
    }
    proof {
        assert(dst@ =~= old(dst)@ + src@);
    }
}

/// The bytes of `"CONNECT:"` as an owned vector.
pub fn connect_prefix_vec() -> (r: Vec<u8>)
    ensures
        r@ == connect_prefix(),
{
    let mut v: Vec<u8> = Vec::new();
    v.push('C' as u8);
    v.push('O' as u8);
    v.push('N' as u8);
    v.push('N' as u8);
    v.push('E' as u8);
    v.push('C' as u8);
    v.push('T' as u8);
    v.push(':' as u8);
    proof {
        assert(v@ =~= connect_prefix());
    }
    v
}

/// The bytes of `"ACCEPT:"` as an owned vector.
pub fn accept_prefix_vec() -> (r: Vec<u8>)
    ensures
        r@ == accept_prefix(),
{
    let mut v: Vec<u8> = Vec::new();
    v.push('A' as u8);
    v.push('C' as u8);
    v.push('C' as u8);
    v.push('E' as u8);
    v.push('P' as u8);
    v.push('T' as u8);
    v.push(':' as u8);
    proof {
        assert(v@ =~= accept_prefix());
    }
    v
}

/// The bytes of `"DISCONNECT:"` as an owned vector.
pub fn disconnect_prefix_vec() -> (r: Vec<u8>)
    ensures
        r@ == disconnect_prefix(),
{
    let mut v: Vec<u8> = Vec::new();
    v.push('D' as u8);
    v.push('I' as u8);
    v.push('S' as u8);
    v.push('C' as u8);
    v.push('O' as u8);
    v.push('N' as u8);
    v.push('N' as u8);
    v.push('E' as u8);
    v.push('C' as u8);
    v.push('T' as u8);
    v.push(':' as u8);
    proof {
        assert(v@ =~= disconnect_prefix());
    }
    v
}

/// The bytes of `"MSG:"` as an owned vector.
pub fn msg_prefix_vec() -> (r: Vec<u8>)
    ensures
        r@ == msg_prefix(),
{
    let mut v: Vec<u8> = Vec::new();
    v.push('M' as u8);
    v.push('S' as u8);
    v.push('G' as u8);
    v.push(':' as u8);
    proof {
        assert(v@ =~= msg_prefix());
    }
    v
}

/// The bytes of `"SESSIONKEY:"` as an owned vector.
pub fn sessionkey_prefix_vec() -> (r: Vec<u8>)
    ensures
        r@ == sessionkey_prefix(),
{
    let mut v: Vec<u8> = Vec::new();
    v.push('S' as u8);
    v.push('E' as u8);
    v.push('S' as u8);
    v.push('S' as u8);
    v.push('I' as u8);
    v.push('O' as u8);
    v.push('N' as u8);
    v.push('K' as u8);
    v.push('E' as u8);
    v.push('Y' as u8);
    v.push(':' as u8);
    proof {
        assert(v@ =~= sessionkey_prefix());
    }
    v
}

/// The bytes of `"BUSY:"` as an owned vector.
pub fn busy_prefix_vec() -> (r: Vec<u8>)
    ensures
        r@ == busy_prefix(),
{
    let mut v: Vec<u8> = Vec::new();
    v.push('B' as u8);
    v.push('U' as u8);
    v.push('S' as u8);
    v.push('Y' as u8);
    v.push(':' as u8);
    proof {
        assert(v@ =~= busy_prefix());
    }
    v
}

/// The bytes of `"INCOMING:"` as an owned vector.
pub fn incoming_prefix_vec() -> (r: Vec<u8>)
    ensures
        r@ == incoming_prefix(),
{
    let mut v: Vec<u8> = Vec::new();
    v.push('I' as u8);
    v.push('N' as u8);
    v.push('C' as u8);
    v.push('O' as u8);
    v.push('M' as u8);
    v.push('I' as u8);
    v.push('N' as u8);
    v.push('G' as u8);
    v.push(':' as u8);
    proof {
        assert(v@ =~= incoming_prefix());
    }
    v
}

/// The bytes of `"ACCEPTED:"` as an owned vector.
pub fn accepted_prefix_vec() -> (r: Vec<u8>)
    ensures
        r@ == accepted_prefix(),
{
    let mut v: Vec<u8> = Vec::new();
    v.push('A' as u8);
    v.push('C' as u8);
    v.push('C' as u8);
    v.push('E' as u8);
    v.push('P' as u8);
    v.push('T' as u8);
    v.push('E' as u8);
    v.push('D' as u8);
    v.push(':' as u8);
    proof {
        assert(v@ =~= accepted_prefix());
    }
    v
}

/// The bytes of `"DISCONNECTED:"` as an owned vector.
pub fn disconnected_prefix_vec() -> (r: Vec<u8>)
    ensures
        r@ == disconnected_prefix(),
{
    let mut v: Vec<u8> = Vec::new();
    v.push('D' as u8);
    v.push('I' as u8);
    v.push('S' as u8);
    v.push('C' as u8);
    v.push('O' as u8);
    v.push('N' as u8);
    v.push('N' as u8);
    v.push('E' as u8);
    v.push('C' as u8);
    v.push('T' as u8);
    v.push('E' as u8);
    v.push('D' as u8);
    v.push(':' as u8);
    proof {
        assert(v@ =~= disconnected_prefix());
    }
    v
}

/// Builds `"BUSY:<target>\n"`.
pub fn build_busy_frame(target: &[u8]) -> (r: Vec<u8>)
    ensures
        r@ == busy_frame(target@),
{
    let mut v = busy_prefix_vec();
    append(&mut v, target);
    v.push(0x0a);
    proof {
        assert(v@ =~= busy_frame(target@));
    }
    v
}

/// Builds `"INCOMING:<requester>\n"`.
pub fn build_incoming_frame(requester: &[u8]) -> (r: Vec<u8>)
    ensures
        r@ == incoming_frame(requester@),
{
    let mut v = incoming_prefix_vec();
    append(&mut v, requester);
    v.push(0x0a);
    proof {
        assert(v@ =~= incoming_frame(requester@));
    }
    v
}

/// Builds `"ACCEPTED:<accepter>\n"`.
pub fn build_accepted_frame(accepter: &[u8]) -> (r: Vec<u8>)
    ensures
        r@ == accepted_frame(accepter@),
{
    let mut v = accepted_prefix_vec();
    append(&mut v, accepter);
    v.push(0x0a);
    proof {
        assert(v@ =~= accepted_frame(accepter@));
    }
    v
}

/// Builds `"DISCONNECTED:<requester>\n"`.
pub fn build_disconnected_frame(requester: &[u8]) -> (r: Vec<u8>)
    ensures
        r@ == disconnected_frame(requester@),
{
    let mut v = disconnected_prefix_vec();
    append(&mut v, requester);
    v.push(0x0a);
    proof {
        assert(v@ =~= disconnected_frame(requester@));
    }
    v
}

/// Builds `"MSG:<sender>:<payload>\n"`.
pub fn build_msg_frame(sender: &[u8], payload: &[u8]) -> (r: Vec<u8>)
    ensures
        r@ == msg_frame(sender@, payload@),
{
    let mut v = msg_prefix_vec();
    append(&mut v, sender);
    v.push(':' as u8);
    append(&mut v, payload);
    v.push(0x0a);
    proof {
        assert(v@ =~= msg_frame(sender@, payload@));
    }
    v
}

/// Builds `"SESSIONKEY:<sender>:<payload>"`, with no trailing newline.
pub fn build_sessionkey_frame(sender: &[u8], payload: &[u8]) -> (r: Vec<u8>)
    ensures
        r@ == sessionkey_frame(sender@, payload@),
{
    let mut v = sessionkey_prefix_vec();
    append(&mut v, sender);
    v.push(':' as u8);
    append(&mut v, payload);
    proof {
        assert(v@ =~= sessionkey_frame(sender@, payload@));
    }
    v
}

} // verus!
