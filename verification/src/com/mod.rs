//! Transport abstraction: connection parameters, addressing modes, the
//! transport trait every physical link implements, and an in-memory
//! simulator used by the tests.

pub mod can;
pub mod msg;
pub mod sim;

use crate::Error;
use crate::com::msg::Msg;
use std::collections::VecDeque;
use vstd::prelude::*;

verus! {

// Legacy communication error ----------------------------------------------------------------------

/// Communication error of the const-data table layer.
///
/// The older device-table modules report transport failures with this
/// narrower error; the rest of the crate uses [`crate::Error`].
#[derive(Debug, PartialEq, Clone)]
pub enum ComError {
    /// No message arrived within the receive timeout.
    NoMessage,
    /// A message arrived but its content is invalid.
    MsgError(String),
    /// The transport itself failed.
    Error(String),
}

/// Fold a transport failure into the const-data table's error type.
///
/// Timeouts become `NoMessage`, corrupted or refused responses `MsgError`,
/// everything else `Error`, keeping the description.
pub(crate) fn com_error_of(e: Error) -> (r: ComError)
    ensures
        e is ComNoResponse ==> r is NoMessage,
        e matches Error::ComError(s) ==> r == ComError::Error(s),
        e matches Error::ResultError(s) ==> r == ComError::MsgError(s),
        e matches Error::MsgCorruption(s) ==> r == ComError::MsgError(s),
        e matches Error::Error(s) ==> r == ComError::Error(s),
        e is NotSupported ==> r matches ComError::Error(_),
{
    match e {
        Error::ComNoResponse => ComError::NoMessage,
        Error::ComError(s) => ComError::Error(s),
        Error::ResultError(s) => ComError::MsgError(s),
        Error::MsgCorruption(s) => ComError::MsgError(s),
        Error::NotSupported => ComError::Error("Operation not supported".to_string()),
        Error::Error(s) => ComError::Error(s),
    }
}

/// One read round-trip of the const-data table layer: send `request`, wait
/// for one response, validate it.
///
/// `Ok(Some(data))` carries the payload of a valid response; `Ok(None)`
/// reports a receive timeout; an invalid response or a transport failure is
/// an error.
pub(crate) fn handle_read_data_request<T: ComInterface>(interface: &mut T, request: &Msg) -> (r: Result<
    Option<crate::com::msg::MsgData>,
    ComError,
>) {
    match interface.send(request) {
        Ok(_) => {},
        Err(e) => {
            return Err(com_error_of(e));
        },
    }
    let response = match interface.recv() {
        Ok(msg) => msg,
        Err(Error::ComNoResponse) => {
            return Ok(None);
        },
        Err(e) => {
            return Err(com_error_of(e));
        },
    };
    match request.is_response_ok(&response) {
        Ok(_) => Ok(Some(*response.get_data())),
        Err(e) => Err(com_error_of(e)),
    }
}

/// One write round-trip of the const-data table layer: send a request that
/// carries a payload, wait for one response, require it to be valid and to
/// echo the payload.
///
/// `Ok(true)` reports success, `Ok(false)` a receive timeout.
pub(crate) fn handle_write_request<T: ComInterface>(
    interface: &mut T,
    request_type: crate::com::msg::RequestType,
    packet_id: u8,
    data: &crate::com::msg::MsgData,
) -> (r: Result<bool, ComError>) {
    let request = Msg::new(request_type, crate::com::msg::ResultType::NoneCode, packet_id, data);
    match interface.send(&request) {
        Ok(_) => {},
        Err(e) => {
            return Err(com_error_of(e));
        },
    }
    let response = match interface.recv() {
        Ok(msg) => msg,
        Err(Error::ComNoResponse) => {
            return Ok(false);
        },
        Err(e) => {
            return Err(com_error_of(e));
        },
    };
    match request.is_response_ok(&response) {
        Ok(_) => {},
        Err(e) => {
            return Err(com_error_of(e));
        },
    }
    match request.is_response_data_ok(&response) {
        Ok(_) => Ok(true),
        Err(e) => Err(com_error_of(e)),
    }
}

/// One command round-trip of the const-data table layer: send `request`,
/// wait for one response, require it to be valid and to echo the payload.
///
/// `Ok(true)` reports success, `Ok(false)` a receive timeout.
pub(crate) fn handle_command_request<T: ComInterface>(interface: &mut T, request: &Msg) -> (r: Result<
    bool,
    ComError,
>) {
    match interface.send(request) {
        Ok(_) => {},
        Err(e) => {
            return Err(com_error_of(e));
        },
    }
    let response = match interface.recv() {
        Ok(msg) => msg,
        Err(Error::ComNoResponse) => {
            return Ok(false);
        },
        Err(e) => {
            return Err(com_error_of(e));
        },
    };
    match request.is_response_ok(&response) {
        Ok(_) => {},
        Err(e) => {
            return Err(com_error_of(e));
        },
    }
    match request.is_response_data_ok(&response) {
        Ok(_) => Ok(true),
        Err(e) => Err(com_error_of(e)),
    }
}

// ComConnParams -----------------------------------------------------------------------------------

/// Connection parameters for opening a transport.
///
/// Each transport validates the fields it requires: a serial link needs a
/// port name and a baud rate, a CAN link only an interface name, the
/// simulator nothing.
pub struct ComConnParams {
    /// Interface name (port or bus), when the transport needs one.
    pub name: Option<String>,
    /// Baud rate, when the transport needs one.
    pub baud_rate: Option<u32>,
}

impl ComConnParams {
    /// Empty parameters.
    pub fn new() -> (r: Self)
        ensures
            r.name is None,
            r.baud_rate is None,
    {
        ComConnParams { name: None, baud_rate: None }
    }

    /// Parameters for the simulated device network.
    pub fn for_sim_device() -> (r: Self)
        ensures
            r.name is None,
            r.baud_rate is None,
    {
        ComConnParams::new()
    }

    /// Parameters for a serial connection.
    pub fn for_serial_conn(name: &str, baud_rate: u32) -> (r: Self)
        ensures
            r.name matches Some(n) && n@ == name@,
            r.baud_rate == Some(baud_rate),
    {
        ComConnParams { name: Some(name.to_owned()), baud_rate: Some(baud_rate) }
    }

    /// Parameters for a CAN connection.
    pub fn for_can_conn(name: &str) -> (r: Self)
        ensures
            r.name matches Some(n) && n@ == name@,
            r.baud_rate is None,
    {
        ComConnParams { name: Some(name.to_owned()), baud_rate: None }
    }
}

// ComMode ----------------------------------------------------------------------------------------

/// Addressing mode of a transport.
#[derive(Debug, PartialEq, Eq, Structural, Copy, Clone)]
pub enum ComMode {
    /// Send to all devices and receive from every node.
    Broadcast,
    /// Send to one node and receive only that node's responses.
    Specific(u8),
}

// Com Interface Trait -----------------------------------------------------------------------------

/// Transport trait every communication interface implements.
///
/// It moves single eight-byte frames between host and device; timeouts are
/// given in milliseconds. The trait makes no promises about what a physical
/// link returns: the layers above validate every response.
pub trait ComInterface: Sized {
    /// Construct an unopened instance.
    fn create() -> Result<Self, Error>;

    /// Establish the physical connection with the given parameters.
    fn open(&mut self, params: &ComConnParams) -> Result<(), Error>;

    /// True for multi-drop links with many addressable nodes.
    fn is_network() -> bool;

    /// On multi-drop links: broadcast a ping and collect the node ids that
    /// answer until the link stays quiet for one receive timeout. Not
    /// supported on point-to-point links.
    fn scan_network(&mut self) -> Result<Vec<u8>, Error>;

    /// Set the addressing mode (broadcast or one specific node).
    fn set_mode(&mut self, mode: ComMode) -> Result<(), Error>;

    /// Set the receive timeout in milliseconds.
    fn set_timeout(&mut self, timeout_ms: u64) -> Result<(), Error>;

    /// The active receive timeout in milliseconds.
    fn get_timeout(&self) -> u64;

    /// Transmit one frame.
    fn send(&mut self, msg: &Msg) -> Result<(), Error>;

    /// Wait up to the receive timeout for one frame; `ComNoResponse` on
    /// timeout.
    fn recv(&mut self) -> Result<Msg, Error>;
}

// Com Simulator for Testing -----------------------------------------------------------------------

/// In-memory transport: responses are queued ahead of time and handed out
/// in order; send and receive failures can be injected once each.
pub struct ComSimulator {
    response_queue: VecDeque<Msg>,
    send_error: Option<Error>,
    recv_error: Option<Error>,
}

impl ComSimulator {
    /// The queued responses, oldest first.
    pub closed spec fn responses(self) -> Seq<Msg> {
        self.response_queue@
    }

    /// The injected send failure, if one is pending.
    pub closed spec fn send_failure(self) -> Option<Error> {
        self.send_error
    }

    /// The injected receive failure, if one is pending.
    pub closed spec fn recv_failure(self) -> Option<Error> {
        self.recv_error
    }

    /// An empty simulator: no responses, no injected failures.
    pub fn new() -> (r: Self)
        ensures
            r.responses() =~= Seq::<Msg>::empty(),
            r.send_failure() is None,
            r.recv_failure() is None,
    {
        ComSimulator { response_queue: VecDeque::new(), send_error: None, recv_error: None }
    }

    /// Queue one response behind the already queued ones.
    pub fn add_response(&mut self, msg: Msg)
        ensures
            final(self).responses() =~= old(self).responses().push(msg),
            final(self).send_failure() == old(self).send_failure(),
            final(self).recv_failure() == old(self).recv_failure(),
    {
        self.response_queue.push_back(msg);
    }

    /// Take the oldest queued response, if any is left.
    pub fn get_result(&mut self) -> (r: Option<Msg>)
        ensures
            old(self).responses().len() == 0 ==> r is None && final(self).responses()
                =~= old(self).responses(),
            old(self).responses().len() > 0 ==> r == Some(old(self).responses()[0]) && final(self).responses() =~= old(self).responses().skip(1),
            final(self).send_failure() == old(self).send_failure(),
            final(self).recv_failure() == old(self).recv_failure(),
    {
        self.response_queue.pop_front()
    }

    /// Make the next send fail with the given error.
    pub fn set_send_error(&mut self, error: Error)
        ensures
            final(self).send_failure() == Some(error),
            final(self).responses() == old(self).responses(),
            final(self).recv_failure() == old(self).recv_failure(),
    {
        self.send_error = Some(error);
    }

    /// Make the next receive fail with the given error.
    pub fn set_recv_error(&mut self, error: Error)
        ensures
            final(self).recv_failure() == Some(error),
            final(self).responses() == old(self).responses(),
            final(self).send_failure() == old(self).send_failure(),
    {
        self.recv_error = Some(error);
    }

    /// Make the next receive time out.
    pub fn set_recv_timeout_error(&mut self)
        ensures
            final(self).recv_failure() == Some(Error::ComNoResponse),
            final(self).responses() == old(self).responses(),
            final(self).send_failure() == old(self).send_failure(),
    {
        self.recv_error = Some(Error::ComNoResponse);
    }
}

impl ComInterface for ComSimulator {
    /// The simulator is constructed directly, never through `create`.
    fn create() -> Result<Self, Error> {
        Err(Error::NotSupported)
    }

    fn open(&mut self, _params: &ComConnParams) -> Result<(), Error> {
        Ok(())
    }

    /// The simulator stands for a point-to-point link.
    fn is_network() -> bool {
        false
    }

    fn scan_network(&mut self) -> Result<Vec<u8>, Error> {
        Err(Error::NotSupported)
    }

    fn set_mode(&mut self, _mode: ComMode) -> Result<(), Error> {
        Ok(())
    }

    fn set_timeout(&mut self, _timeout_ms: u64) -> Result<(), Error> {
        Ok(())
    }

    fn get_timeout(&self) -> u64 {
        0
    }

    /// Sending consumes a pending injected send failure, else succeeds.
    fn send(&mut self, _msg: &Msg) -> Result<(), Error> {
        if self.send_error.is_some() {
            let error = match &self.send_error {
                Some(e) => e.clone(),
                None => vstd::pervasive::unreached(),
            };
            self.send_error = None;
            Err(error)
        } else {
            Ok(())
        }
    }

    /// Receiving consumes a pending injected receive failure; otherwise it
    /// hands out the oldest queued response, or times out when none is left.
    fn recv(&mut self) -> Result<Msg, Error> {
        if self.recv_error.is_some() {
            let error = match &self.recv_error {
                Some(e) => e.clone(),
                None => vstd::pervasive::unreached(),
            };
            self.recv_error = None;
            Err(error)
        } else {
            match self.response_queue.pop_front() {
                Some(msg) => Ok(msg),
                None => Err(Error::ComNoResponse),
            }
        }
    }
}

} // verus!
