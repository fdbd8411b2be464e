//! Device-side view of the bootloader.
//!
//! [`device`] holds the update driver, [`entry`] the typed read/write/execute
//! layer over the codec, [`flash`] the flash geometry. This module itself
//! holds the older constant-data table: a plain list of named device
//! constants read once from the device.

pub mod device;
pub mod entry;
pub mod flash;

use crate::Error;
use crate::com::msg::{Msg, RequestType, ResultType};
use crate::com::{ComError, ComInterface, com_error_of};
use vstd::prelude::*;

verus! {

// Device Entry -----------------------------------------------------------------------------------

/// One named constant of the device: a request type and the value last read.
pub struct DeviceEntry {
    name: String,
    request_type: RequestType,
    value: Option<u32>,
}

impl DeviceEntry {
    /// Display name of the entry.
    pub closed spec fn spec_name(self) -> Seq<char> {
        self.name@
    }

    /// Request the entry is read with.
    pub closed spec fn spec_request_type(self) -> RequestType {
        self.request_type
    }

    /// The value last read, if one was read.
    pub closed spec fn spec_value(self) -> Option<u32> {
        self.value
    }

    /// A new entry with no value read yet.
    pub fn new(name: &str, request_type: RequestType) -> (r: Self)
        ensures
            r.spec_name() == name@,
            r.spec_request_type() == request_type,
            r.spec_value() is None,
    {
        DeviceEntry { name: name.to_owned(), request_type, value: None }
    }

    /// Read the entry's value from the device.
    ///
    /// Sends the entry's request and waits for one response. `Ok(true)`
    /// means a valid response arrived and its payload was stored; `Ok(false)`
    /// means the receive timed out and the stored value is untouched. A
    /// response carrying the wrong request code or a result other than the
    /// success code clears the value and fails with `MsgError`; transport
    /// failures are passed on.
    pub fn read_from_device<T: ComInterface>(&mut self, interface: &mut T) -> (r: Result<
        bool,
        ComError,
    >)
        ensures
            final(self).spec_name() == old(self).spec_name(),
            final(self).spec_request_type() == old(self).spec_request_type(),
            r == Ok::<bool, ComError>(true) ==> final(self).spec_value() is Some,
            r == Ok::<bool, ComError>(false) ==> final(self).spec_value() == old(self).spec_value(),
    {
        let request = Msg::new_std_request(self.request_type);
        match interface.send(&request) {
            Ok(_) => {},
            Err(e) => {
                return Err(com_error_of(e));
            },
        }

        let response = match interface.recv() {
            Ok(msg) => msg,
            Err(Error::ComNoResponse) => {
                return Ok(false);
            },
            Err(e) => {
                return Err(com_error_of(e));
            },
        };

        let request_valid = response.get_request() == self.request_type;
        let response_valid = response.get_result() == ResultType::OkCode;
        if request_valid && response_valid {
            self.value = Some(response.get_data().to_word());
            Ok(true)
        } else {
            self.value = None;
            Err(ComError::MsgError("Device response is invalid".to_string()))
        }
    }

    /// The value last read, if one was read.
    pub fn get_value(&self) -> (r: Option<u32>)
        ensures
            r == self.spec_value(),
    {
        self.value
    }

    /// Display name of the entry.
    pub fn get_name(&self) -> (r: &str)
        ensures
            r@ == self.spec_name(),
    {
        self.name.as_str()
    }

    /// Request the entry is read with.
    pub fn get_request_type(&self) -> (r: RequestType)
        ensures
            r == self.spec_request_type(),
    {
        self.request_type
    }
}

// Device -----------------------------------------------------------------------------------------

/// The constant-data table of one device: every read-once field of the
/// bootloader, keyed by request type.
pub struct Device {
    const_data_lst: Vec<DeviceEntry>,
}

/// The first entry in `entries` read with `rt`, if any.
pub open spec fn spec_find_entry(entries: Seq<DeviceEntry>, rt: RequestType) -> Option<DeviceEntry>
    decreases entries.len(),
{
    if entries.len() == 0 {
        None
    } else if entries[0].spec_request_type() == rt {
        Some(entries[0])
    } else {
        spec_find_entry(entries.skip(1), rt)
    }
}

impl Device {
    /// The registered entries, in registration order.
    pub closed spec fn spec_entries(self) -> Seq<DeviceEntry> {
        self.const_data_lst@
    }

    /// A table holding every constant field of the bootloader, none read
    /// yet.
    pub fn new() -> (r: Self)
        ensures
            r.spec_entries().len() == 10,
            forall|i: int| 0 <= i < 10 ==> (#[trigger] r.spec_entries()[i]).spec_value() is None,
            r.spec_entries()[0].spec_request_type() == RequestType::DevInfoBootloaderVersion,
            r.spec_entries()[1].spec_request_type() == RequestType::DevInfoBootloaderCRC,
            r.spec_entries()[2].spec_request_type() == RequestType::DevInfoVID,
            r.spec_entries()[3].spec_request_type() == RequestType::DevInfoPID,
            r.spec_entries()[4].spec_request_type() == RequestType::DevInfoPRD,
            r.spec_entries()[5].spec_request_type() == RequestType::DevInfoUID,
            r.spec_entries()[6].spec_request_type() == RequestType::FlashInfoStartAddr,
            r.spec_entries()[7].spec_request_type() == RequestType::FlashInfoPageSize,
            r.spec_entries()[8].spec_request_type() == RequestType::FlashInfoNumPages,
            r.spec_entries()[9].spec_request_type() == RequestType::AppInfoPageIdx,
    {
        let mut device = Device { const_data_lst: Vec::new() };

        device.add_const_entry("Bootloader Version", RequestType::DevInfoBootloaderVersion);
        device.add_const_entry("Bootloader CRC", RequestType::DevInfoBootloaderCRC);
        device.add_const_entry("Vendor ID", RequestType::DevInfoVID);
        device.add_const_entry("Product ID", RequestType::DevInfoPID);
        device.add_const_entry("Production Date", RequestType::DevInfoPRD);
        device.add_const_entry("Unique ID", RequestType::DevInfoUID);
        device.add_const_entry("Flash Start Address", RequestType::FlashInfoStartAddr);
        device.add_const_entry("Flash Page Size", RequestType::FlashInfoPageSize);
        device.add_const_entry("Flash Number of Pages", RequestType::FlashInfoNumPages);
        device.add_const_entry("App First Page Index", RequestType::AppInfoPageIdx);

        device
    }

    /// Read every entry of the table from the device, in registration
    /// order. The first transport failure aborts the read; an entry whose
    /// read times out keeps no value.
    pub fn read_const_data<T: ComInterface>(&mut self, interface: &mut T) -> (r: Result<
        (),
        ComError,
    >)
        ensures
            final(self).spec_entries().len() == old(self).spec_entries().len(),
            forall|i: int|
                0 <= i < old(self).spec_entries().len() ==> (#[trigger] final(self).spec_entries()[i]).spec_request_type() == old(self).spec_entries()[i].spec_request_type(),
    {
        let n = self.const_data_lst.len();
        let mut i: usize = 0;
        while i < n
            invariant
                i <= n,
                n == old(self).spec_entries().len(),
                n == self.spec_entries().len(),
                forall|k: int|
                    0 <= k < n ==> (#[trigger] self.spec_entries()[k]).spec_request_type() == old(self).spec_entries()[k].spec_request_type(),
            decreases n - i,
        {
            let ghost before = self.spec_entries();
            let mut entry = self.const_data_lst.remove(i);
            let res = entry.read_from_device(interface);
            self.const_data_lst.insert(i, entry);
            proof {
                assert(self.spec_entries() =~= before.update(i as int, entry));
            }
            match res {
                Ok(_) => {},
                Err(e) => {
                    return Err(e);
                },
            }
            i = i + 1;
        }
        Ok(())
    }

    /// The table entry read with the given request, or an error when the
    /// request is not a registered constant.
    pub fn get_const_data(&self, request_type: RequestType) -> (r: Result<&DeviceEntry, String>)
        ensures
            match r {
                Ok(e) => spec_find_entry(self.spec_entries(), request_type) == Some(*e),
                Err(_) => spec_find_entry(self.spec_entries(), request_type) is None,
            },
    {
        let n = self.const_data_lst.len();
        let mut i: usize = 0;
        while i < n
            invariant
                i <= n,
                n == self.spec_entries().len(),
                spec_find_entry(self.spec_entries().take(i as int), request_type) is None,
            decreases n - i,
        {
            if self.const_data_lst[i].get_request_type() == request_type {
                proof {
                    lemma_find_entry_take(self.spec_entries(), request_type, i as int);
                }
                return Ok(&self.const_data_lst[i]);
            }
            proof {
                lemma_find_entry_take_step(self.spec_entries(), request_type, i as int);
            }
            i = i + 1;
        }
        proof {
            assert(self.spec_entries().take(n as int) =~= self.spec_entries());
        }
        Err("Entry not found!".to_string())
    }

    /// Register one constant.
    fn add_const_entry(&mut self, name: &str, request_type: RequestType)
        ensures
            final(self).spec_entries().len() == old(self).spec_entries().len() + 1,
            final(self).spec_entries().drop_last() =~= old(self).spec_entries(),
            final(self).spec_entries().last().spec_name() == name@,
            final(self).spec_entries().last().spec_request_type() == request_type,
            final(self).spec_entries().last().spec_value() is None,
    {
        self.const_data_lst.push(DeviceEntry::new(name, request_type));
    }
}

/// When the first `i` entries miss the request and entry `i` carries it, the
/// search over the whole list finds entry `i`.
proof fn lemma_find_entry_take(entries: Seq<DeviceEntry>, rt: RequestType, i: int)
    requires
        0 <= i < entries.len(),
        spec_find_entry(entries.take(i), rt) is None,
        entries[i].spec_request_type() == rt,
    ensures
        spec_find_entry(entries, rt) == Some(entries[i]),
    decreases i,
{
    if i == 0 {
    } else {
        assert(entries.take(i).skip(1) =~= entries.skip(1).take(i - 1));
        lemma_find_entry_take(entries.skip(1), rt, i - 1);
    }
}

/// When the first `i` entries miss the request and entry `i` misses it too,
/// the first `i + 1` entries miss it.
proof fn lemma_find_entry_take_step(entries: Seq<DeviceEntry>, rt: RequestType, i: int)
    requires
        0 <= i < entries.len(),
        spec_find_entry(entries.take(i), rt) is None,
        entries[i].spec_request_type() != rt,
    ensures
        spec_find_entry(entries.take(i + 1), rt) is None,
    decreases i,
{
    assert(entries.take(i + 1).skip(1) =~= entries.skip(1).take(i));
    if i == 0 {
        assert(spec_find_entry(entries.skip(1).take(0), rt) is None);
    } else {
        assert(entries.take(i).skip(1) =~= entries.skip(1).take(i - 1));
        lemma_find_entry_take_step(entries.skip(1), rt, i - 1);
    }
}

} // verus!
