//! The protocol's general guarantees, each proved once and for all over
//! the step relation rather than observed on sample runs.

use vstd::prelude::*;
use crate::frames::{busy_frame, incoming_frame, msg_frame};
use crate::parse::{parse_spec, CommandModel};
use crate::protocol::{delivery, step_busy, step_out, DeliveryModel};

verus! {

/// A CONNECT naming a registered, non-busy target asks for exactly one
/// delivery: the INCOMING frame carrying the requester's identifier,
/// sent to the target's registered handle and to nobody else.
pub proof fn lemma_connect_delivers_once(
    reg: Map<Seq<u8>, u64>,
    busy: Set<Seq<u8>>,
    self_id: Seq<u8>,
    self_handle: u64,
    frame: Seq<u8>,
    target: Seq<u8>,
)
    requires
        parse_spec(frame) == (CommandModel::Connect { target }),
        reg.dom().contains(target),
        !busy.contains(target),
    ensures
        step_out(reg, busy, self_id, self_handle, frame) =~= seq![
            delivery(reg[target], incoming_frame(self_id)),
        ],
        forall|i: int|
            0 <= i < step_out(reg, busy, self_id, self_handle, frame).len() ==> step_out(
                reg,
                busy,
                self_id,
                self_handle,
                frame,
            )[i].handle == reg[target],
{
}

/// A CONNECT naming an unregistered target asks for no delivery at all.
pub proof fn lemma_connect_unregistered_dropped(
    reg: Map<Seq<u8>, u64>,
    busy: Set<Seq<u8>>,
    self_id: Seq<u8>,
    self_handle: u64,
    frame: Seq<u8>,
    target: Seq<u8>,
)
    requires
        parse_spec(frame) == (CommandModel::Connect { target }),
        !reg.dom().contains(target),
    ensures
        step_out(reg, busy, self_id, self_handle, frame) =~= Seq::<DeliveryModel>::empty(),
        step_busy(reg, busy, self_id, frame) == busy,
{
}

/// Sending DISCONNECT twice in a row is safe: the second step leaves
/// the busy set exactly where the first left it.
pub proof fn lemma_disconnect_idempotent(
    reg: Map<Seq<u8>, u64>,
    busy: Set<Seq<u8>>,
    self_id: Seq<u8>,
    frame: Seq<u8>,
    target: Seq<u8>,
)
    requires
        parse_spec(frame) == (CommandModel::Disconnect { target }),
    ensures
        step_busy(reg, step_busy(reg, busy, self_id, frame), self_id, frame) == step_busy(
            reg,
            busy,
            self_id,
            frame,
        ),
{
    assert(step_busy(reg, step_busy(reg, busy, self_id, frame), self_id, frame) =~= step_busy(
        reg,
        busy,
        self_id,
        frame,
    ));
}

/// After an ACCEPT of a registered target, both the target and the
/// accepter are busy, and a third party's CONNECT to that target is
/// answered with BUSY on the third party's own handle — the target gets
/// no INCOMING frame.
pub proof fn lemma_accept_then_connect_busy(
    reg: Map<Seq<u8>, u64>,
    busy: Set<Seq<u8>>,
    accepter: Seq<u8>,
    accept_frame: Seq<u8>,
    target: Seq<u8>,
    third: Seq<u8>,
    third_handle: u64,
    connect_frame: Seq<u8>,
)
    requires
        parse_spec(accept_frame) == (CommandModel::Accept { target }),
        reg.dom().contains(target),
        parse_spec(connect_frame) == (CommandModel::Connect { target }),
    ensures
        step_busy(reg, busy, accepter, accept_frame).contains(target),
        step_busy(reg, busy, accepter, accept_frame).contains(accepter),
        step_out(
            reg,
            step_busy(reg, busy, accepter, accept_frame),
            third,
            third_handle,
            connect_frame,
        ) =~= seq![delivery(third_handle, busy_frame(target))],
        forall|i: int|
            0 <= i < step_out(
                reg,
                step_busy(reg, busy, accepter, accept_frame),
                third,
                third_handle,
                connect_frame,
            ).len() ==> step_out(
                reg,
                step_busy(reg, busy, accepter, accept_frame),
                third,
                third_handle,
                connect_frame,
            )[i].frame != incoming_frame(third),
{
    let out = step_out(
        reg,
        step_busy(reg, busy, accepter, accept_frame),
        third,
        third_handle,
        connect_frame,
    );
    assert(out =~= seq![delivery(third_handle, busy_frame(target))]);
    assert(busy_frame(target)[0] == 'B' as u8);
    assert(incoming_frame(third)[0] == 'I' as u8);
}

/// Busy membership moves only as the protocol says: an identifier
/// becomes busy only through an ACCEPT naming a registered target, and
/// then it is the accepter or that target; it ceases to be busy only
/// through a DISCONNECT naming a registered target, and then it is the
/// requester or that target.
pub proof fn lemma_busy_changes_only_on_accept_or_disconnect(
    reg: Map<Seq<u8>, u64>,
    busy: Set<Seq<u8>>,
    self_id: Seq<u8>,
    frame: Seq<u8>,
    x: Seq<u8>,
)
    ensures
        step_busy(reg, busy, self_id, frame).contains(x) && !busy.contains(x) ==> (parse_spec(
            frame,
        ) matches CommandModel::Accept { target } && reg.dom().contains(target) && (x == target
            || x == self_id)),
        busy.contains(x) && !step_busy(reg, busy, self_id, frame).contains(x) ==> (parse_spec(
            frame,
        ) matches CommandModel::Disconnect { target } && reg.dom().contains(target) && (x == target
            || x == self_id)),
{
}

/// Re-registration: once identifier `x` registers again under a new
/// handle, a message addressed to `x` is delivered to that new handle
/// and to no other, whatever handle `x` held before.
pub proof fn lemma_reregistration_routes_to_new_handle(
    reg: Map<Seq<u8>, u64>,
    busy: Set<Seq<u8>>,
    self_id: Seq<u8>,
    self_handle: u64,
    frame: Seq<u8>,
    x: Seq<u8>,
    new_handle: u64,
    payload: Seq<u8>,
)
    requires
        parse_spec(frame) == (CommandModel::Msg { target: x, payload }),
    ensures
        step_out(reg.insert(x, new_handle), busy, self_id, self_handle, frame) =~= seq![
            delivery(new_handle, msg_frame(self_id, payload)),
        ],
{
}

} // verus!
