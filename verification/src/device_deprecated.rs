//! Older device layer kept for compatibility.
//!
//! A plain constant-data table plus direct command and page-buffer
//! operations over a transport, superseded by the driver in
//! [`crate::device::device`].

use crate::com::msg::{Msg, MsgData, RequestType};
use crate::com::{ComError, ComInterface, handle_command_request, handle_read_data_request,
    handle_write_request};
use crate::firmware::{FirmwareDataInterface, FirmwareDataRaw, FlashPageList};
use vstd::prelude::*;

verus! {

// Device Entry -----------------------------------------------------------------------------------

/// One named constant of the device: a request type and the value last read.
pub struct DeviceEntry {
    name: String,
    request_type: RequestType,
    value: Option<u32>,
}

impl DeviceEntry {
    /// Display name of the entry.
    pub closed spec fn spec_name(self) -> Seq<char> {
        self.name@
    }

    /// Request the entry is read with.
    pub closed spec fn spec_request_type(self) -> RequestType {
        self.request_type
    }

    /// The value last read, if one was read.
    pub closed spec fn spec_value(self) -> Option<u32> {
        self.value
    }

    /// A new entry with no value read yet.
    pub fn new(name: &str, request_type: RequestType) -> (r: Self)
        ensures
            r.spec_name() == name@,
            r.spec_request_type() == request_type,
            r.spec_value() is None,
    {
        DeviceEntry { name: name.to_owned(), request_type, value: None }
    }

    /// Read the entry's value from the device.
    ///
    /// `Ok(true)` means a valid response arrived and its payload word was
    /// stored; `Ok(false)` means the receive timed out and the stored value
    /// is untouched; invalid responses and transport failures are errors.
    pub fn read_from_device<T: ComInterface>(&mut self, interface: &mut T) -> (r: Result<
        bool,
        ComError,
    >)
        ensures
            final(self).spec_name() == old(self).spec_name(),
            final(self).spec_request_type() == old(self).spec_request_type(),
            r == Ok::<bool, ComError>(true) ==> final(self).spec_value() is Some,
            r == Ok::<bool, ComError>(false) ==> final(self).spec_value() == old(self).spec_value(),
    {
        let request = Msg::new_std_request(self.request_type);
        match handle_read_data_request(interface, &request) {
            Ok(Some(value)) => {
                self.value = Some(value.to_word());
                Ok(true)
            },
            Ok(None) => Ok(false),
            Err(e) => Err(e),
        }
    }

    /// The value last read, if one was read.
    pub fn get_value(&self) -> (r: Option<u32>)
        ensures
            r == self.spec_value(),
    {
        self.value
    }

    /// Display name of the entry.
    pub fn get_name(&self) -> (r: &str)
        ensures
            r@ == self.spec_name(),
    {
        self.name.as_str()
    }

    /// Request the entry is read with.
    pub fn get_request_type(&self) -> (r: RequestType)
        ensures
            r == self.spec_request_type(),
    {
        self.request_type
    }
}

// Device -----------------------------------------------------------------------------------------

/// The first entry in `entries` read with `rt`, if any.
pub open spec fn spec_table_entry(entries: Seq<DeviceEntry>, rt: RequestType) -> Option<DeviceEntry>
    decreases entries.len(),
{
    if entries.len() == 0 {
        None
    } else if entries[0].spec_request_type() == rt {
        Some(entries[0])
    } else {
        spec_table_entry(entries.skip(1), rt)
    }
}

/// The cached value of the first entry read with `rt`, if the entry exists
/// and was read.
pub open spec fn spec_table_word(entries: Seq<DeviceEntry>, rt: RequestType) -> Option<u32> {
    match spec_table_entry(entries, rt) {
        Some(e) => e.spec_value(),
        None => None,
    }
}

/// A device as the older layer sees it: its constant-data table, plus direct
/// command and page-buffer operations that each take the transport as an
/// argument.
pub struct Device {
    const_data_lst: Vec<DeviceEntry>,
}

impl Device {
    /// The registered entries, in registration order.
    pub closed spec fn spec_entries(self) -> Seq<DeviceEntry> {
        self.const_data_lst@
    }

    /// A table holding every constant field of the bootloader, none read
    /// yet.
    pub fn new() -> (r: Self)
        ensures
            r.spec_entries().len() == 10,
            forall|i: int| 0 <= i < 10 ==> (#[trigger] r.spec_entries()[i]).spec_value() is None,
            r.spec_entries()[0].spec_request_type() == RequestType::DevInfoBootloaderVersion,
            r.spec_entries()[1].spec_request_type() == RequestType::DevInfoBootloaderCRC,
            r.spec_entries()[2].spec_request_type() == RequestType::DevInfoVID,
            r.spec_entries()[3].spec_request_type() == RequestType::DevInfoPID,
            r.spec_entries()[4].spec_request_type() == RequestType::DevInfoPRD,
            r.spec_entries()[5].spec_request_type() == RequestType::DevInfoUID,
            r.spec_entries()[6].spec_request_type() == RequestType::FlashInfoStartAddr,
            r.spec_entries()[7].spec_request_type() == RequestType::FlashInfoPageSize,
            r.spec_entries()[8].spec_request_type() == RequestType::FlashInfoNumPages,
            r.spec_entries()[9].spec_request_type() == RequestType::AppInfoPageIdx,
    {
        let mut device = Device { const_data_lst: Vec::new() };

        device.add_const_entry("Bootloader Version", RequestType::DevInfoBootloaderVersion);
        device.add_const_entry("Bootloader CRC", RequestType::DevInfoBootloaderCRC);
        device.add_const_entry("Vendor ID", RequestType::DevInfoVID);
        device.add_const_entry("Product ID", RequestType::DevInfoPID);
        device.add_const_entry("Production Date", RequestType::DevInfoPRD);
        device.add_const_entry("Unique ID", RequestType::DevInfoUID);
        device.add_const_entry("Flash Start Address", RequestType::FlashInfoStartAddr);
        device.add_const_entry("Flash Page Size", RequestType::FlashInfoPageSize);
        device.add_const_entry("Flash Number of Pages", RequestType::FlashInfoNumPages);
        device.add_const_entry("App First Page Index", RequestType::AppInfoPageIdx);

        device
    }

    /// Reset the device: one command round-trip.
    pub fn reset_device<T: ComInterface>(&mut self, interface: &mut T) -> (r: Result<
        bool,
        ComError,
    >)
        ensures
            final(self).spec_entries() == old(self).spec_entries(),
    {
        let reset_request = Msg::new_std_request(RequestType::ResetDevice);
        handle_command_request(interface, &reset_request)
    }

    /// Start the application: one command round-trip.
    pub fn start_app<T: ComInterface>(&mut self, interface: &mut T) -> (r: Result<bool, ComError>)
        ensures
            final(self).spec_entries() == old(self).spec_entries(),
    {
        let start_app_request = Msg::new_std_request(RequestType::StartApp);
        handle_command_request(interface, &start_app_request)
    }

    /// Stream a firmware into the device's page buffer, page by page.
    ///
    /// Assembles the firmware map into pages over the whole flash, rejects a
    /// page below the application start index, and writes every page
    /// word-for-word into the page buffer, the packet id rotating through
    /// 0..255. The constant-data table must have been read first.
    pub fn flash_firmware<T: ComInterface, FW: FirmwareDataInterface>(
        &mut self,
        interface: &mut T,
        firmware: &FW,
    ) -> (r: Result<(), String>)
        ensures
            final(self).spec_entries() == old(self).spec_entries(),
            (spec_table_word(old(self).spec_entries(), RequestType::FlashInfoStartAddr) is None
                || spec_table_word(old(self).spec_entries(), RequestType::FlashInfoPageSize)
                is None || spec_table_word(old(self).spec_entries(), RequestType::FlashInfoNumPages)
                is None || spec_table_word(old(self).spec_entries(), RequestType::AppInfoPageIdx)
                is None) ==> r is Err,
    {
        let firmware_data = match firmware.get_firmware_data() {
            Some(d) => d,
            None => {
                return Err("No firmware data loaded".to_string());
            },
        };
        self.flash_firmware_data(interface, firmware_data)
    }

    /// Stream a firmware byte map into the device's page buffer; the
    /// verified core of [`Device::flash_firmware`].
    ///
    /// Fails when a geometry constant was not read, when the map holds a
    /// byte outside the flash, and when it holds a byte below the
    /// application area.
    pub fn flash_firmware_data<T: ComInterface>(
        &mut self,
        interface: &mut T,
        firmware_data: &FirmwareDataRaw,
    ) -> (r: Result<(), String>)
        requires
            firmware_data.wf(),
        ensures
            final(self).spec_entries() == old(self).spec_entries(),
            (spec_table_word(old(self).spec_entries(), RequestType::FlashInfoStartAddr) is None
                || spec_table_word(old(self).spec_entries(), RequestType::FlashInfoPageSize)
                is None || spec_table_word(old(self).spec_entries(), RequestType::FlashInfoNumPages)
                is None || spec_table_word(old(self).spec_entries(), RequestType::AppInfoPageIdx)
                is None) ==> r is Err,
            (spec_table_word(
                old(self).spec_entries(),
                RequestType::FlashInfoStartAddr,
            ) matches Some(start) && spec_table_word(
                old(self).spec_entries(),
                RequestType::FlashInfoPageSize,
            ) matches Some(ps) && spec_table_word(
                old(self).spec_entries(),
                RequestType::FlashInfoNumPages,
            ) matches Some(np) && (exists|i: int|
                0 <= i < firmware_data.spec_entries().len() && ((
                #[trigger] firmware_data.spec_entries()[i]).0 < start || ps == 0 || (
                firmware_data.spec_entries()[i].0 - start) / (ps as int) >= np))) ==> r is Err,
            (spec_table_word(
                old(self).spec_entries(),
                RequestType::FlashInfoStartAddr,
            ) matches Some(start) && spec_table_word(
                old(self).spec_entries(),
                RequestType::FlashInfoPageSize,
            ) matches Some(ps) && spec_table_word(
                old(self).spec_entries(),
                RequestType::AppInfoPageIdx,
            ) matches Some(idx) && ps != 0 && (exists|i: int|
                0 <= i < firmware_data.spec_entries().len() && (
                #[trigger] firmware_data.spec_entries()[i]).0 >= start && (
                firmware_data.spec_entries()[i].0 - start) / (ps as int) < idx)) ==> r is Err,
    {
        // The geometry constants must have been read from the device
        let flash_start_address = match self.lookup_value(RequestType::FlashInfoStartAddr) {
            Some(v) => v,
            None => {
                return Err("Flash start address not read".to_string());
            },
        };
        let flash_page_size = match self.lookup_value(RequestType::FlashInfoPageSize) {
            Some(v) => v,
            None => {
                return Err("Flash page size not read".to_string());
            },
        };
        let flash_num_pages = match self.lookup_value(RequestType::FlashInfoNumPages) {
            Some(v) => v,
            None => {
                return Err("Flash page count not read".to_string());
            },
        };
        let app_start_idx = match self.lookup_value(RequestType::AppInfoPageIdx) {
            Some(v) => v,
            None => {
                return Err("Application page index not read".to_string());
            },
        };

        // Assemble the pages over the whole flash
        let flash_pages = match FlashPageList::from_firmware_data(
            firmware_data,
            flash_start_address,
            flash_page_size,
            flash_num_pages,
        ) {
            Ok(pages) => pages,
            Err(_) => {
                return Err("Firmware contains invalid address".to_string());
            },
        };

        // Stream every page into the page buffer
        let page_vec = flash_pages.get_vec();
        let num = page_vec.len();
        let mut p: usize = 0;
        while p < num
            invariant
                p <= num,
                num == page_vec@.len(),
                self.spec_entries() == old(self).spec_entries(),
                forall|k: int|
                    0 <= k < num ==> (#[trigger] page_vec@[k]).spec_bytes().len()
                        == flash_page_size,
                forall|k: int|
                    0 <= k < p ==> (#[trigger] page_vec@[k]).spec_id() >= app_start_idx,
            decreases num - p,
        {
            let page = &page_vec[p];

            // The firmware must stay out of the bootloader area
            if page.get_id() < app_start_idx {
                return Err("Firmware contains invalid address below the application".to_string());
            }

            // Clear the page buffer
            match self.clear_page_buffer(interface) {
                Ok(true) => {},
                Ok(false) => {
                    return Err("Failed to clear page buffer".to_string());
                },
                Err(_) => {
                    return Err("Failed to clear page buffer".to_string());
                },
            }

            // Write the page to the buffer, one word per message
            let words = (flash_page_size as usize) / 4;
            let byte_lst = page.get_bytes();
            let mut msg_idx: usize = 0;
            while msg_idx < words
                invariant
                    words == flash_page_size as int / 4,
                    byte_lst@.len() == flash_page_size,
                    self.spec_entries() == old(self).spec_entries(),
                decreases words - msg_idx,
            {
                let byte_offset = msg_idx * 4;
                proof {
                    vstd::arithmetic::div_mod::lemma_fundamental_div_mod(
                        flash_page_size as int,
                        4,
                    );
                    vstd::arithmetic::div_mod::lemma_mod_bound(flash_page_size as int, 4);
                }
                let data = MsgData::from_array(
                    &[
                        byte_lst[byte_offset],
                        byte_lst[byte_offset + 1],
                        byte_lst[byte_offset + 2],
                        byte_lst[byte_offset + 3],
                    ],
                );

                let packet_id = (msg_idx % 256) as u8;

                match handle_write_request(
                    interface,
                    RequestType::PageBufferWriteWord,
                    packet_id,
                    &data,
                ) {
                    Ok(true) => {},
                    Ok(false) => {
                        return Err("Failed to transmit word to page buffer: timeout".to_string());
                    },
                    Err(_) => {
                        return Err("Failed to transmit word to page buffer".to_string());
                    },
                }
                msg_idx = msg_idx + 1;
            }

            p = p + 1;
        }

        proof {
            // A firmware byte below the application area would have produced
            // a page below the application start index, and the loop refuses
            // every such page.
            let d = *firmware_data;
            if exists|i: int|
                0 <= i < d.spec_entries().len() && (#[trigger] d.spec_entries()[i]).0
                    >= flash_start_address && (d.spec_entries()[i].0 - flash_start_address) / (
                flash_page_size as int) < app_start_idx {
                let i0 = choose|i0: int|
                    0 <= i0 < d.spec_entries().len() && (#[trigger] d.spec_entries()[i0]).0
                        >= flash_start_address && (d.spec_entries()[i0].0 - flash_start_address) / (
                    flash_page_size as int) < app_start_idx;
                let q = (d.spec_entries()[i0].0 - flash_start_address) / (flash_page_size as int);
                assert(0 <= q < app_start_idx) by {
                    vstd::arithmetic::div_mod::lemma_div_is_ordered_by_denominator(
                        (d.spec_entries()[i0].0 - flash_start_address) as int,
                        flash_page_size as int,
                        flash_page_size as int,
                    );
                };
                let id_bad = q as u32;
                assert((d.spec_entries()[i0].0 - flash_start_address) / (flash_page_size as int)
                    == id_bad);
                assert(crate::firmware::spec_page_with_id(page_vec@, id_bad) is Some);
                crate::firmware::lemma_page_with_id_index(page_vec@, id_bad);
                let k0 = choose|k0: int|
                    0 <= k0 < page_vec@.len() && (#[trigger] page_vec@[k0]).spec_id() == id_bad;
                assert(false);
            }
        }
        Ok(())
    }

    /// Read every entry of the table from the device, in registration
    /// order. The first transport failure aborts the read; an entry whose
    /// read times out keeps no value.
    pub fn read_const_data<T: ComInterface>(&mut self, interface: &mut T) -> (r: Result<
        (),
        ComError,
    >)
        ensures
            final(self).spec_entries().len() == old(self).spec_entries().len(),
            forall|i: int|
                0 <= i < old(self).spec_entries().len() ==> (#[trigger] final(self).spec_entries()[i]).spec_request_type()
                    == old(self).spec_entries()[i].spec_request_type(),
    {
        let n = self.const_data_lst.len();
        let mut i: usize = 0;
        while i < n
            invariant
                i <= n,
                n == old(self).spec_entries().len(),
                n == self.spec_entries().len(),
                forall|k: int|
                    0 <= k < n ==> (#[trigger] self.spec_entries()[k]).spec_request_type() == old(self).spec_entries()[k].spec_request_type(),
            decreases n - i,
        {
            let ghost before = self.spec_entries();
            let mut entry = self.const_data_lst.remove(i);
            let res = entry.read_from_device(interface);
            self.const_data_lst.insert(i, entry);
            proof {
                assert(self.spec_entries() =~= before.update(i as int, entry));
            }
            match res {
                Ok(_) => {},
                Err(e) => {
                    return Err(e);
                },
            }
            i = i + 1;
        }
        Ok(())
    }

    /// The table entry read with the given request; the request must be a
    /// registered constant.
    pub fn get_const_data(&self, request_type: RequestType) -> (r: &DeviceEntry)
        requires
            spec_table_entry(self.spec_entries(), request_type) is Some,
        ensures
            Some(*r) == spec_table_entry(self.spec_entries(), request_type),
    {
        let n = self.const_data_lst.len();
        let mut i: usize = 0;
        while i < n
            invariant
                i <= n,
                n == self.spec_entries().len(),
                spec_table_entry(self.spec_entries().take(i as int), request_type) is None,
            decreases n - i,
        {
            if self.const_data_lst[i].get_request_type() == request_type {
                proof {
                    lemma_table_entry_take(self.spec_entries(), request_type, i as int);
                }
                return &self.const_data_lst[i];
            }
            proof {
                lemma_table_entry_take_step(self.spec_entries(), request_type, i as int);
            }
            i = i + 1;
        }
        proof {
            assert(self.spec_entries().take(n as int) =~= self.spec_entries());
        }
        vstd::pervasive::unreached()
    }

    /// The cached value of the entry read with the given request, if the
    /// entry exists and was read.
    fn lookup_value(&self, request_type: RequestType) -> (r: Option<u32>)
        ensures
            match spec_table_entry(self.spec_entries(), request_type) {
                Some(e) => r == e.spec_value(),
                None => r is None,
            },
    {
        let n = self.const_data_lst.len();
        let mut i: usize = 0;
        while i < n
            invariant
                i <= n,
                n == self.spec_entries().len(),
                spec_table_entry(self.spec_entries().take(i as int), request_type) is None,
            decreases n - i,
        {
            if self.const_data_lst[i].get_request_type() == request_type {
                proof {
                    lemma_table_entry_take(self.spec_entries(), request_type, i as int);
                }
                return self.const_data_lst[i].get_value();
            }
            proof {
                lemma_table_entry_take_step(self.spec_entries(), request_type, i as int);
            }
            i = i + 1;
        }
        proof {
            assert(self.spec_entries().take(n as int) =~= self.spec_entries());
        }
        None
    }

    /// Register one constant.
    fn add_const_entry(&mut self, name: &str, request_type: RequestType)
        ensures
            final(self).spec_entries().len() == old(self).spec_entries().len() + 1,
            final(self).spec_entries().drop_last() =~= old(self).spec_entries(),
            final(self).spec_entries().last().spec_name() == name@,
            final(self).spec_entries().last().spec_request_type() == request_type,
            final(self).spec_entries().last().spec_value() is None,
    {
        self.const_data_lst.push(DeviceEntry::new(name, request_type));
    }

    /// Clear the device's page buffer: one command round-trip.
    pub fn clear_page_buffer<T: ComInterface>(&mut self, interface: &mut T) -> (r: Result<
        bool,
        ComError,
    >)
        ensures
            final(self).spec_entries() == old(self).spec_entries(),
    {
        let clear_page_buffer_request = Msg::new_std_request(RequestType::PageBufferClear);
        handle_command_request(interface, &clear_page_buffer_request)
    }
}

/// When the first `i` entries miss the request and entry `i` carries it, the
/// search over the whole list finds entry `i`.
proof fn lemma_table_entry_take(entries: Seq<DeviceEntry>, rt: RequestType, i: int)
    requires
        0 <= i < entries.len(),
        spec_table_entry(entries.take(i), rt) is None,
        entries[i].spec_request_type() == rt,
    ensures
        spec_table_entry(entries, rt) == Some(entries[i]),
    decreases i,
{
    if i == 0 {
    } else {
        assert(entries.take(i).skip(1) =~= entries.skip(1).take(i - 1));
        lemma_table_entry_take(entries.skip(1), rt, i - 1);
    }
}

/// When the first `i` entries miss the request and entry `i` misses it too,
/// the first `i + 1` entries miss it.
proof fn lemma_table_entry_take_step(entries: Seq<DeviceEntry>, rt: RequestType, i: int)
    requires
        0 <= i < entries.len(),
        spec_table_entry(entries.take(i), rt) is None,
        entries[i].spec_request_type() != rt,
    ensures
        spec_table_entry(entries.take(i + 1), rt) is None,
    decreases i,
{
    assert(entries.take(i + 1).skip(1) =~= entries.skip(1).take(i));
    if i == 0 {
        assert(spec_table_entry(entries.skip(1).take(0), rt) is None);
    } else {
        assert(entries.take(i).skip(1) =~= entries.skip(1).take(i - 1));
        lemma_table_entry_take_step(entries.skip(1), rt, i - 1);
    }
}

} // verus!
