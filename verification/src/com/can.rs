//! CAN binding of the wire protocol.
//!
//! Requests are broadcast on the 11-bit identifier `0x780`; the response of
//! node `N` arrives on `0x781 + 2 * N`, and a receive filter with mask
//! `0x7FF` selects one node. The socket I/O itself lives outside the
//! library; this module holds the bit-exact identifier arithmetic and the
//! scan logic over received frames.

use crate::com::msg::{Msg, MsgRaw, RequestType, result_is_success};
use vstd::prelude::*;

verus! {

/// Identifier the response of node 0 arrives on.
pub const CAN_BASE_ID: u32 = 0x781;

/// Identifier all requests are broadcast on.
pub const CAN_BROADCAST_ID: u32 = 0x780;

/// Largest standard 11-bit identifier; also the receive filter mask.
pub const CAN_MAX_ID: u32 = 0x7FF;

/// Default receive timeout in milliseconds.
pub const CAN_RX_TIMEOUT_MS: u64 = 500;

/// The identifier node `node_id` answers on.
pub open spec fn spec_response_id(node_id: u8) -> u32 {
    (0x781 + 2 * node_id) as u32
}

/// True for identifiers that are the response identifier of some node.
pub open spec fn is_response_id(raw_id: u32) -> bool {
    0x781 <= raw_id <= 0x7FF && (raw_id - 0x781) % 2 == 0
}

/// The node a response identifier belongs to.
pub open spec fn spec_node_of_id(raw_id: u32) -> u8
    recommends
        is_response_id(raw_id),
{
    (((raw_id - 0x781) / 2) as u8)
}

/// The identifier node `node_id` answers on: `0x781 + 2 * N`.
///
/// Only nodes up to 63 fit into the standard 11-bit identifier space.
pub fn can_response_id(node_id: u8) -> (r: u32)
    ensures
        r == spec_response_id(node_id),
        node_id < 64 ==> is_response_id(r) && spec_node_of_id(r) == node_id,
{
    0x781 + 2 * (node_id as u32)
}

/// The node id recovered from a response identifier: `(raw − 0x781) / 2`.
pub fn can_node_of_id(raw_id: u32) -> (r: u8)
    requires
        is_response_id(raw_id),
    ensures
        r == spec_node_of_id(raw_id),
        spec_response_id(r) == raw_id,
{
    ((raw_id - 0x781) / 2) as u8
}

/// What one received frame contributes to a scan: the sender's node id when
/// the identifier belongs to a node and the frame decodes to a valid ping
/// response, nothing otherwise.
pub open spec fn spec_scan_hit(ping: Msg, raw_id: u32, data: Seq<u8>) -> Option<u8> {
    if is_response_id(raw_id) && crate::com::msg::frame_decodes(data) && (match
        crate::com::msg::request_of_code(crate::com::msg::frame_request_code(data)) {
        Some(req) => req == ping.request,
        None => false,
    }) && (match crate::com::msg::result_of_code(data[2]) {
        Some(res) => result_is_success(res),
        None => false,
    }) && data[3] == ping.packet_id {
        Some(spec_node_of_id(raw_id))
    } else {
        None
    }
}

/// The node ids a scan yields from a list of received frames, in arrival
/// order.
pub open spec fn spec_scan_nodes(ping: Msg, frames: Seq<(u32, Seq<u8>)>) -> Seq<u8>
    decreases frames.len(),
{
    if frames.len() == 0 {
        Seq::empty()
    } else {
        let rest = spec_scan_nodes(ping, frames.drop_last());
        match spec_scan_hit(ping, frames.last().0, frames.last().1) {
            Some(node) => rest.push(node),
            None => rest,
        }
    }
}

/// Collect the node ids that answered a broadcast ping.
///
/// `frames` holds the raw identifier and the eight data bytes of each frame
/// received until the bus went quiet, in arrival order. A frame counts only
/// if its identifier belongs to a node and it decodes to a valid response to
/// `ping`; everything else on the bus is ignored.
pub fn can_scan_collect(ping: &Msg, frames: &Vec<(u32, MsgRaw)>) -> (r: Vec<u8>)
    ensures
        r@ =~= spec_scan_nodes(*ping, Seq::new(frames@.len(), |i: int| (frames@[i].0, frames@[i].1@))),
{
    let ghost gframes = Seq::new(frames@.len(), |i: int| (frames@[i].0, frames@[i].1@));
    let mut nodes: Vec<u8> = Vec::new();
    let mut idx: usize = 0;
    while idx < frames.len()
        invariant
            idx <= frames.len(),
            gframes == Seq::new(frames@.len(), |i: int| (frames@[i].0, frames@[i].1@)),
            nodes@ =~= spec_scan_nodes(*ping, gframes.take(idx as int)),
        decreases frames.len() - idx,
    {
        let raw_id = frames[idx].0;
        let in_range = 0x781 <= raw_id && raw_id <= 0x7FF && (raw_id - 0x781) % 2 == 0;
        if in_range {
            match Msg::from_raw_data_array(&frames[idx].1) {
                Ok(response) => {
                    if ping.is_response_ok(&response).is_ok() {
                        nodes.push(can_node_of_id(raw_id));
                    }
                },
                Err(_) => {},
            }
        }
        idx = idx + 1;
        proof {
            assert(gframes.take(idx as int).drop_last() =~= gframes.take(idx - 1));
        }
    }
    proof {
        assert(gframes.take(frames@.len() as int) =~= gframes);
    }
    nodes
}

} // verus!
