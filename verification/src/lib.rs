//! Host-side library for updating application firmware on devices running the
//! Frankly bootloader.
//!
//! The bootloader speaks a request/response protocol over fixed 8-byte frames.
//! This crate provides the wire-level message codec, the typed device-entry
//! layer on top of it, the flash-layout and firmware-assembly logic (sparse
//! byte map to page-aligned flash pages with CRC-32 checks), an Intel-HEX
//! reader, and the update driver that orchestrates initialization, erase,
//! flash, verification and application start over an abstract transport.

pub mod com;
pub mod device;
pub mod device_deprecated;
pub mod firmware;

use vstd::prelude::*;

verus! {

/// Progress event emitted by the update driver.
///
/// Events are emitted synchronously, on the calling thread, before the
/// emitting operation's next step; within one operation the `current` counter
/// only increases.
#[derive(Debug, PartialEq, Clone)]
pub enum ProgressUpdate {
    /// A status message.
    Message(String),
    /// `current` of `total` application pages erased.
    EraseProgress { current: u32, total: u32 },
    /// `current` of `total` firmware pages flashed.
    FlashProgress { current: u32, total: u32 },
}

/// Sink the update driver hands its progress events to.
///
/// The driver calls it synchronously; an embedder that marshals events to
/// another thread provides its own sink around that channel.
pub trait ProgressSink {
    /// Accept one progress event.
    fn on_update(&mut self, update: ProgressUpdate);
}

/// A sink that discards every event; used by drivers built without a
/// progress surface.
pub struct NoProgress {}

impl ProgressSink for NoProgress {
    fn on_update(&mut self, _update: ProgressUpdate) {
    }
}

/// A sink that keeps every event, in emission order.
pub struct ProgressLog {
    events: Vec<ProgressUpdate>,
}

impl ProgressLog {
    /// The events received so far, oldest first.
    pub closed spec fn spec_events(self) -> Seq<ProgressUpdate> {
        self.events@
    }

    /// An empty log.
    pub fn new() -> (r: Self)
        ensures
            r.spec_events() =~= Seq::<ProgressUpdate>::empty(),
    {
        ProgressLog { events: Vec::new() }
    }

    /// The events received so far, oldest first.
    pub fn get_events(&self) -> (r: &Vec<ProgressUpdate>)
        ensures
            r@ == self.spec_events(),
    {
        &self.events
    }
}

impl ProgressSink for ProgressLog {
    fn on_update(&mut self, update: ProgressUpdate) {
        self.events.push(update);
    }
}

/// Unified error taxonomy of the library.
///
/// Every fallible operation of the crate folds its failures into this sum
/// type. The variants distinguish transport timeouts, hard transport
/// failures, device-reported errors, corrupted responses, unsupported
/// operations and general errors with a human-readable description.
#[derive(Debug, PartialEq, Clone)]
pub enum Error {
    /// Receive timed out: no response from the device.
    ComNoResponse,
    /// The physical communication driver failed.
    ComError(String),
    /// The device answered with a non-success result code.
    ResultError(String),
    /// A response was received but its content does not match the request.
    MsgCorruption(String),
    /// The operation is not applicable to this transport or entry.
    NotSupported,
    /// General error with a description.
    Error(String),
}

} // verus!
