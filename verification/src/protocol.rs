//! The protocol step: how one inbound frame from one client changes the
//! busy set and which frames go out to which handles. This is the whole
//! routing rule of the relay; the caller only performs the transport
//! reads and writes around it.
//!
//! Delivery is best-effort: the step says what should be written where,
//! and a failed write is the caller's to ignore, as the protocol demands.

use vstd::prelude::*;
use crate::busy::BusySet;
use crate::bytes::{trim, trim_spec};
use crate::frames::{
    accepted_frame, build_accepted_frame, build_busy_frame, build_disconnected_frame,
    build_incoming_frame, build_msg_frame, build_sessionkey_frame, busy_frame, disconnected_frame,
    incoming_frame, msg_frame, sessionkey_frame,
};
use crate::parse::{parse, parse_spec, Command, CommandModel};
use crate::registry::Registry;

verus! {

/// One outbound write the step asks for: which handle, what bytes.
pub struct Delivery {
    pub handle: u64,
    pub frame: Vec<u8>,
}

/// The mathematical form of a delivery.
pub struct DeliveryModel {
    pub handle: u64,
    pub frame: Seq<u8>,
}

/// A delivery of `frame` to `handle`.
pub open spec fn delivery(handle: u64, frame: Seq<u8>) -> DeliveryModel {
    DeliveryModel { handle, frame }
}

impl View for Delivery {
    type V = DeliveryModel;

    open spec fn view(&self) -> DeliveryModel {
        DeliveryModel { handle: self.handle, frame: self.frame@ }
    }
}

impl DeepView for Delivery {
    type V = DeliveryModel;

    open spec fn deep_view(&self) -> DeliveryModel {
        self@
    }
}

/// The busy set after one frame. Only ACCEPT and DISCONNECT touch it,
/// and only when their target is registered: ACCEPT marks both the
/// accepter and the target busy, DISCONNECT clears both the requester
/// and the target.
pub open spec fn step_busy(
    reg: Map<Seq<u8>, u64>,
    busy: Set<Seq<u8>>,
    self_id: Seq<u8>,
    frame: Seq<u8>,
) -> Set<Seq<u8>> {
    match parse_spec(frame) {
        CommandModel::Accept { target } => if reg.dom().contains(target) {
            busy.insert(target).insert(self_id)
        } else {
            busy
        },
        CommandModel::Disconnect { target } => if reg.dom().contains(target) {
            busy.remove(target).remove(self_id)
        } else {
            busy
        },
        _ => busy,
    }
}

/// The deliveries one frame asks for. A frame naming an unregistered
/// target, or carrying no recognized command, asks for none. CONNECT to
/// a busy target answers the requester itself (on its own handle) with
/// BUSY; every other delivery goes to the target's registered handle.
pub open spec fn step_out(
    reg: Map<Seq<u8>, u64>,
    busy: Set<Seq<u8>>,
    self_id: Seq<u8>,
    self_handle: u64,
    frame: Seq<u8>,
) -> Seq<DeliveryModel> {
    match parse_spec(frame) {
        CommandModel::Connect { target } => if reg.dom().contains(target) {
            if busy.contains(target) {
                seq![delivery(self_handle, busy_frame(target))]
            } else {
                seq![delivery(reg[target], incoming_frame(self_id))]
            }
        } else {
            Seq::empty()
        },
        CommandModel::Accept { target } => if reg.dom().contains(target) {
            seq![delivery(reg[target], accepted_frame(self_id))]
        } else {
            Seq::empty()
        },
        CommandModel::Disconnect { target } => if reg.dom().contains(target) {
            seq![delivery(reg[target], disconnected_frame(self_id))]
        } else {
            Seq::empty()
        },
        CommandModel::Msg { target, payload } => if reg.dom().contains(target) {
            seq![delivery(reg[target], msg_frame(self_id, payload))]
        } else {
            Seq::empty()
        },
        CommandModel::SessionKey { target, payload } => if reg.dom().contains(target) {
            seq![delivery(reg[target], sessionkey_frame(self_id, payload))]
        } else {
            Seq::empty()
        },
        CommandModel::Other => Seq::empty(),
    }
}

/// Routes one inbound frame: updates the busy set exactly as
/// `step_busy` says and returns exactly the deliveries `step_out` says,
/// in order. `self_id` is the sending connection's identifier and
/// `self_handle` its own handle, used for the BUSY answer.
pub fn step(
    reg: &Registry,
    busy: &mut BusySet,
    self_id: &[u8],
    self_handle: u64,
    frame: &[u8],
) -> (out: Vec<Delivery>)
    requires
        reg.wf(),
        old(busy).wf(),
    ensures
        final(busy).wf(),
        final(busy)@ == step_busy(reg@, old(busy)@, self_id@, frame@),
        out.deep_view() == step_out(reg@, old(busy)@, self_id@, self_handle, frame@),
{
    let ghost out_spec = step_out(reg@, old(busy)@, self_id@, self_handle, frame@);
    let mut out: Vec<Delivery> = Vec::new();
    match parse(frame) {
        Command::Connect { target } => {
            match reg.lookup(target.as_slice()) {
                Some(h) => {
                    if busy.is_busy(target.as_slice()) {
                        let reply = build_busy_frame(target.as_slice());
                        out.push(Delivery { handle: self_handle, frame: reply });
                    } else {
                        let reply = build_incoming_frame(self_id);
                        out.push(Delivery { handle: h, frame: reply });
                    }
                },
                None => {},
            }
        },
        Command::Accept { target } => {
            match reg.lookup(target.as_slice()) {
                Some(h) => {
                    busy.mark_busy(target);
                    busy.mark_busy(crate::bytes::copy_bytes(self_id));
                    let reply = build_accepted_frame(self_id);
                    out.push(Delivery { handle: h, frame: reply });
                },
                None => {},
            }
        },
        Command::Disconnect { target } => {
            match reg.lookup(target.as_slice()) {
                Some(h) => {
                    busy.clear_busy(target.as_slice());
                    busy.clear_busy(self_id);
                    let reply = build_disconnected_frame(self_id);
                    out.push(Delivery { handle: h, frame: reply });
                },
                None => {},
            }
        },
        Command::Msg { target, payload } => {
            match reg.lookup(target.as_slice()) {
                Some(h) => {
                    let reply = build_msg_frame(self_id, payload.as_slice());
                    out.push(Delivery { handle: h, frame: reply });
                },
                None => {},
            }
        },
        Command::SessionKey { target, payload } => {
            match reg.lookup(target.as_slice()) {
                Some(h) => {
                    let reply = build_sessionkey_frame(self_id, payload.as_slice());
                    out.push(Delivery { handle: h, frame: reply });
                },
                None => {},
            }
        },
        Command::Other => {},
    }
    proof {
        assert(out.deep_view() =~= out_spec);
    }
    out
}

/// The registration handshake: the first frame a connection sends,
/// trimmed of surrounding whitespace, becomes its identifier, and its
/// handle enters the registry — silently replacing any earlier
/// connection claiming the same identifier.
pub fn register_client(reg: &mut Registry, first_frame: &[u8], handle: u64) -> (id: Vec<u8>)
    requires
        old(reg).wf(),
    ensures
        final(reg).wf(),
        id@ == trim_spec(first_frame@),
        final(reg)@ == old(reg)@.insert(trim_spec(first_frame@), handle),
{
    let id = trim(first_frame);
    reg.register(crate::bytes::copy_bytes(id.as_slice()), handle);
    id
}

} // verus!
