//! Simulated multi-drop network.
//!
//! A configurable set of simulated bootloader nodes, used to exercise scan
//! and discovery without hardware. Each node answers a ping with the
//! simulated bootloader version; all other requests go unanswered.

use crate::Error;
use crate::com::msg::{Msg, MsgData, RequestType, ResultType};
use crate::com::{ComConnParams, ComInterface, ComMode};
use std::collections::VecDeque;
use vstd::prelude::*;

verus! {

/// Payload word of a simulated ping response: the simulated bootloader
/// version.
pub const SIM_BOOTLOADER_VERSION: u32 = 0x00000100;

/// Simulated multi-drop transport.
///
/// Holds its own network of simulated nodes: a list of node ids and the
/// responses pending for the currently addressed node.
pub struct SIMInterface {
    mode: ComMode,
    nodes: Vec<u8>,
    pending: VecDeque<Msg>,
}

impl SIMInterface {
    /// The configured node ids, in configuration order.
    pub closed spec fn spec_nodes(self) -> Seq<u8> {
        self.nodes@
    }

    /// The current addressing mode.
    pub closed spec fn spec_mode(self) -> ComMode {
        self.mode
    }

    /// The responses pending for the currently addressed node.
    pub closed spec fn spec_pending(self) -> Seq<Msg> {
        self.pending@
    }

    /// Replace the simulated network with the given nodes.
    ///
    /// Fails when a node id appears twice; the network is then left
    /// unchanged.
    pub fn config_nodes(&mut self, node_lst: Vec<u8>) -> (r: Result<(), Error>)
        ensures
            r is Ok <==> node_lst@.no_duplicates(),
            r is Ok ==> final(self).spec_nodes() == node_lst@,
            r is Err ==> final(self).spec_nodes() == old(self).spec_nodes(),
            final(self).spec_mode() == old(self).spec_mode(),
            final(self).spec_pending() == old(self).spec_pending(),
    {
        let n = node_lst.len();
        let mut i: usize = 0;
        while i < n
            invariant
                i <= n,
                n == node_lst@.len(),
                node_lst@.take(i as int).no_duplicates(),
            decreases n - i,
        {
            let mut j: usize = 0;
            while j < i
                invariant
                    j <= i < n == node_lst@.len(),
                    forall|k: int| 0 <= k < j ==> node_lst@[k] != node_lst@[i as int],
                decreases i - j,
            {
                if node_lst[j] == node_lst[i] {
                    proof {
                        assert(!node_lst@.no_duplicates());
                    }
                    return Err(Error::Error("Duplicate node id in simulated network".to_string()));
                }
                j = j + 1;
            }
            proof {
                assert(node_lst@.take(i + 1).drop_last() =~= node_lst@.take(i as int));
            }
            i = i + 1;
        }
        proof {
            assert(node_lst@.take(n as int) =~= node_lst@);
        }
        self.nodes = node_lst;
        Ok(())
    }

    /// Ping the network: every configured node answers, in configuration
    /// order.
    pub fn ping_network(&mut self) -> (r: Result<Vec<u8>, Error>)
        ensures
            r matches Ok(v) && v@ == old(self).spec_nodes(),
            final(self).spec_nodes() == old(self).spec_nodes(),
            final(self).spec_mode() == old(self).spec_mode(),
            final(self).spec_pending() == old(self).spec_pending(),
    {
        let ping = Msg::new_std_request(RequestType::Ping);
        let mut found: Vec<u8> = Vec::new();
        let mut i: usize = 0;
        while i < self.nodes.len()
            invariant
                i <= self.nodes@.len(),
                found@ =~= self.nodes@.take(i as int),
                ping.packet_id == 0,
                ping.request == RequestType::Ping,
        decreases self.nodes@.len() - i,
        {
            let response = sim_ping_response(&ping);
            if ping.is_response_ok(&response).is_ok() {
                found.push(self.nodes[i]);
            }
            proof {
                assert(self.nodes@.take(i + 1).drop_last() =~= self.nodes@.take(i as int));
            }
            i = i + 1;
        }
        proof {
            assert(self.nodes@.take(self.nodes@.len() as int) =~= self.nodes@);
        }
        Ok(found)
    }
}

/// The frame a simulated node answers a ping with: same request code and
/// packet id, result `Ok`, and the simulated bootloader version as payload.
fn sim_ping_response(request: &Msg) -> (r: Msg)
    ensures
        r.request == request.request,
        r.result == ResultType::OkCode,
        r.packet_id == request.packet_id,
        r.data.word() == SIM_BOOTLOADER_VERSION,
{
    Msg::new(
        request.request,
        ResultType::OkCode,
        request.packet_id,
        &MsgData::from_word(SIM_BOOTLOADER_VERSION),
    )
}

/// What a simulated node answers to one request: a ping response for a
/// ping, nothing for anything else.
fn sim_handle_request(msg: &Msg) -> (r: Option<Msg>)
    ensures
        msg.request == RequestType::Ping ==> (r matches Some(m) && m.request == msg.request
            && m.result == ResultType::OkCode && m.packet_id == msg.packet_id),
        msg.request != RequestType::Ping ==> r is None,
{
    if msg.request == RequestType::Ping {
        Some(sim_ping_response(msg))
    } else {
        None
    }
}

impl ComInterface for SIMInterface {
    /// An empty simulated network in broadcast mode.
    fn create() -> Result<Self, Error> {
        Ok(SIMInterface { mode: ComMode::Broadcast, nodes: Vec::new(), pending: VecDeque::new() })
    }

    /// Opening resets the addressing mode to broadcast; the configured
    /// nodes stay.
    fn open(&mut self, _params: &ComConnParams) -> Result<(), Error> {
        self.mode = ComMode::Broadcast;
        Ok(())
    }

    /// The simulated network is multi-drop.
    fn is_network() -> bool {
        true
    }

    /// Broadcast a ping and collect the answering node ids.
    fn scan_network(&mut self) -> Result<Vec<u8>, Error> {
        self.ping_network()
    }

    fn set_mode(&mut self, mode: ComMode) -> Result<(), Error> {
        self.mode = mode;
        Ok(())
    }

    fn set_timeout(&mut self, _timeout_ms: u64) -> Result<(), Error> {
        Ok(())
    }

    fn get_timeout(&self) -> u64 {
        0
    }

    /// In specific mode the addressed node handles the frame and its answer,
    /// if any, is queued; broadcast sends are accepted and ignored.
    fn send(&mut self, msg: &Msg) -> Result<(), Error> {
        if let ComMode::Specific(node_id) = self.mode {
            let mut known = false;
            let mut i: usize = 0;
            while i < self.nodes.len()
                invariant
                    i <= self.nodes@.len(),
                decreases self.nodes@.len() - i,
            {
                if self.nodes[i] == node_id {
                    known = true;
                }
                i = i + 1;
            }
            if known {
                if let Some(response) = sim_handle_request(msg) {
                    self.pending.push_back(response);
                }
            }
        }
        Ok(())
    }

    /// In specific mode the oldest pending answer of the addressed node is
    /// handed out, or the receive times out; broadcast receives are not
    /// supported.
    fn recv(&mut self) -> Result<Msg, Error> {
        if let ComMode::Specific(_node_id) = self.mode {
            return match self.pending.pop_front() {
                Some(msg) => Ok(msg),
                None => Err(Error::ComNoResponse),
            };
        }
        Err(Error::Error("Mode not supported".to_string()))
    }
}

} // verus!
