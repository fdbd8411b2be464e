//! Typed device entries.
//!
//! An entry couples a request type with an access category: `Const` values
//! are read once and cached forever, `RO` values are read fresh on every
//! read, `RW` values can also be written, and `Cmd` entries are execute-only.
//! Reads and writes go through the codec's response validation.

use crate::Error;
use crate::com::ComInterface;
use crate::com::msg::{Msg, MsgData, RequestType, ResultType};
use vstd::prelude::*;

verus! {

// EntryType --------------------------------------------------------------------------------------

/// Access category of a device entry.
#[derive(Debug, PartialEq, Eq, Clone, Copy, Structural)]
pub enum EntryType {
    /// Constant value: read once, cached forever.
    Const,
    /// Read-only value: read fresh on every read.
    RO,
    /// Readable and writeable value.
    RW,
    /// Executable command without a readable value.
    Cmd,
}

impl EntryType {
    /// True exactly for `Const`.
    pub fn is_const(&self) -> (r: bool)
        ensures
            r == (*self == EntryType::Const),
    {
        match self {
            EntryType::Const => true,
            EntryType::RO => false,
            EntryType::RW => false,
            EntryType::Cmd => false,
        }
    }

    /// True exactly for the categories whose value can be read.
    pub fn is_readable(&self) -> (r: bool)
        ensures
            r == (*self == EntryType::Const || *self == EntryType::RO || *self == EntryType::RW),
    {
        match self {
            EntryType::Const => true,
            EntryType::RO => true,
            EntryType::RW => true,
            EntryType::Cmd => false,
        }
    }

    /// True exactly for `RW`.
    pub fn is_writeable(&self) -> (r: bool)
        ensures
            r == (*self == EntryType::RW),
    {
        match self {
            EntryType::Const => false,
            EntryType::RO => false,
            EntryType::RW => true,
            EntryType::Cmd => false,
        }
    }

    /// True exactly for `Cmd`.
    pub fn is_executable(&self) -> (r: bool)
        ensures
            r == (*self == EntryType::Cmd),
    {
        match self {
            EntryType::Const => false,
            EntryType::RO => false,
            EntryType::RW => false,
            EntryType::Cmd => true,
        }
    }
}

// Entry -------------------------------------------------------------------------------------------

/// A device entry: access category, request type, and the payload last read
/// or echoed, if any.
pub struct Entry {
    entry_type: EntryType,
    request_type: RequestType,
    value: Option<MsgData>,
}

impl Entry {
    /// Access category of the entry.
    pub closed spec fn spec_entry_type(self) -> EntryType {
        self.entry_type
    }

    /// Request the entry is accessed with.
    pub closed spec fn spec_request_type(self) -> RequestType {
        self.request_type
    }

    /// The payload last read or echoed, if any.
    pub closed spec fn spec_value(self) -> Option<MsgData> {
        self.value
    }

    /// A new entry with no value yet.
    pub fn new(entry_type: EntryType, request_type: RequestType) -> (r: Self)
        ensures
            r.spec_entry_type() == entry_type,
            r.spec_request_type() == request_type,
            r.spec_value() is None,
    {
        Entry { entry_type, request_type, value: None }
    }

    /// Access category of the entry.
    pub fn get_entry_type(&self) -> (r: &EntryType)
        ensures
            *r == self.spec_entry_type(),
    {
        &self.entry_type
    }

    /// Request the entry is accessed with.
    pub fn get_request_type(&self) -> (r: &RequestType)
        ensures
            *r == self.spec_request_type(),
    {
        &self.request_type
    }

    /// The payload last read or echoed, if any.
    pub fn get_value(&self) -> (r: &Option<MsgData>)
        ensures
            *r == self.spec_value(),
    {
        &self.value
    }

    /// Read the value of the entry, from the cache or from the device.
    ///
    /// A `Const` entry whose value is cached hands the cache back and issues
    /// no request: neither the entry nor the transport is touched. Every
    /// other readable entry issues a fresh request (result `None`, packet id
    /// 0, zero payload), validates the response and caches its payload. A
    /// `Cmd` entry is not readable and fails without touching the transport.
    pub fn read_value<T: ComInterface>(&mut self, interface: &mut T) -> (r: Result<MsgData, Error>)
        ensures
            final(self).spec_entry_type() == old(self).spec_entry_type(),
            final(self).spec_request_type() == old(self).spec_request_type(),
            old(self).spec_entry_type() == EntryType::Cmd ==> {
                &&& (r matches Err(e) && e matches Error::Error(_))
                &&& *final(self) == *old(self)
                &&& *final(interface) == *old(interface)
            },
            old(self).spec_entry_type() == EntryType::Const && old(self).spec_value() is Some ==> {
                &&& r == Ok::<MsgData, Error>(old(self).spec_value()->Some_0)
                &&& *final(self) == *old(self)
                &&& *final(interface) == *old(interface)
            },
            r matches Ok(d) ==> final(self).spec_value() == Some(d),
            r is Err ==> final(self).spec_value() == old(self).spec_value(),
    {
        if self.entry_type.is_readable() {
            if self.entry_type.is_const() {
                if let Some(cached) = &self.value {
                    return Ok(*cached);
                }
            }
            self._read_from_device(interface)
        } else {
            Err(Error::Error("Device entry is not readable".to_string()))
        }
    }

    /// Write a payload to the entry on the device.
    ///
    /// Only `RW` entries are writeable; the response must be valid and must
    /// echo the written payload, which is then also cached.
    pub fn write_value<T: ComInterface>(
        &mut self,
        interface: &mut T,
        packet_id: u8,
        data: &MsgData,
    ) -> (r: Result<(), Error>)
        ensures
            final(self).spec_entry_type() == old(self).spec_entry_type(),
            final(self).spec_request_type() == old(self).spec_request_type(),
            old(self).spec_entry_type() != EntryType::RW ==> {
                &&& (r matches Err(e) && e matches Error::Error(_))
                &&& *final(self) == *old(self)
                &&& *final(interface) == *old(interface)
            },
            r is Ok ==> (final(self).spec_value() matches Some(d) && d.bytes() == data.bytes()),
            r is Err ==> final(self).spec_value() == old(self).spec_value(),
    {
        if self.entry_type.is_writeable() {
            self._write_to_device(interface, packet_id, data)
        } else {
            Err(Error::Error("Device entry is not writeable".to_string()))
        }
    }

    /// Execute the entry's command on the device with an argument word.
    ///
    /// Only `Cmd` entries are executable; the exchange uses packet id 0 and
    /// the argument as payload, and the response must echo it.
    pub fn exec<T: ComInterface>(&mut self, interface: &mut T, argument: u32) -> (r: Result<
        (),
        Error,
    >)
        ensures
            final(self).spec_entry_type() == old(self).spec_entry_type(),
            final(self).spec_request_type() == old(self).spec_request_type(),
            old(self).spec_entry_type() != EntryType::Cmd ==> {
                &&& (r matches Err(e) && e matches Error::Error(_))
                &&& *final(self) == *old(self)
                &&& *final(interface) == *old(interface)
            },
            r is Ok ==> (final(self).spec_value() matches Some(d) && d.word() == argument),
            r is Err ==> final(self).spec_value() == old(self).spec_value(),
    {
        if self.entry_type.is_executable() {
            self._write_to_device(interface, 0, &MsgData::from_word(argument))
        } else {
            Err(Error::Error("Device entry is not executable".to_string()))
        }
    }

    // Private functions --------------------------------------------------------------------------

    /// One read round-trip: send the entry's standard request, receive one
    /// response, validate it and cache its payload.
    fn _read_from_device<T: ComInterface>(&mut self, interface: &mut T) -> (r: Result<
        MsgData,
        Error,
    >)
        ensures
            final(self).spec_entry_type() == old(self).spec_entry_type(),
            final(self).spec_request_type() == old(self).spec_request_type(),
            r matches Ok(d) ==> final(self).spec_value() == Some(d),
            r is Err ==> final(self).spec_value() == old(self).spec_value(),
    {
        let request = Msg::new_std_request(self.request_type);

        match interface.send(&request) {
            Ok(_) => {},
            Err(e) => {
                return Err(e);
            },
        }
        let response = match interface.recv() {
            Ok(msg) => msg,
            Err(e) => {
                return Err(e);
            },
        };
        match request.is_response_ok(&response) {
            Ok(_) => {},
            Err(e) => {
                return Err(e);
            },
        }

        let data = *response.get_data();
        self.value = Some(data);
        Ok(data)
    }

    /// One write round-trip: send the entry's request with the given packet
    /// id and payload, receive one response, require it to be valid and to
    /// echo the payload, and cache the echo.
    fn _write_to_device<T: ComInterface>(
        &mut self,
        interface: &mut T,
        packet_id: u8,
        data: &MsgData,
    ) -> (r: Result<(), Error>)
        ensures
            final(self).spec_entry_type() == old(self).spec_entry_type(),
            final(self).spec_request_type() == old(self).spec_request_type(),
            r is Ok ==> (final(self).spec_value() matches Some(d) && d.bytes() == data.bytes()),
            r is Err ==> final(self).spec_value() == old(self).spec_value(),
    {
        let request = Msg::new(self.request_type, ResultType::NoneCode, packet_id, data);

        match interface.send(&request) {
            Ok(_) => {},
            Err(e) => {
                return Err(e);
            },
        }
        let response = match interface.recv() {
            Ok(msg) => msg,
            Err(e) => {
                return Err(e);
            },
        };
        match request.is_response_ok(&response) {
            Ok(_) => {},
            Err(e) => {
                return Err(e);
            },
        }
        match request.is_response_data_ok(&response) {
            Ok(_) => {},
            Err(e) => {
                return Err(e);
            },
        }

        self.value = Some(*response.get_data());
        Ok(())
    }
}

} // verus!
