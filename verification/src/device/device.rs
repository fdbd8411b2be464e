//! The update driver.
//!
//! A driver owns one transport and a table of typed entries, one per request
//! the bootloader understands. `init` reads every constant entry and derives
//! the flash layout; `erase` clears the application section page by page;
//! `flash` streams a firmware image into the application section with
//! per-page and whole-image CRC checks; `reset` restarts the device.
//! Progress events flow to an optional sink.

use crate::com::ComInterface;
use crate::com::msg::{MsgData, RequestType};
use crate::device::entry::{Entry, EntryType};
use crate::device::flash::{FlashDesc, spec_find_section};
use crate::firmware::{AppFirmware, FirmwareDataInterface, FirmwareDataRaw};
use crate::{Error, NoProgress, ProgressSink, ProgressUpdate};
use vstd::prelude::*;

verus! {

// Entry list ---------------------------------------------------------------------------------------

/// The first entry in `entries` accessed with `rt`, if any.
pub open spec fn spec_entry_lookup(entries: Seq<Entry>, rt: RequestType) -> Option<Entry>
    decreases entries.len(),
{
    if entries.len() == 0 {
        None
    } else if entries[0].spec_request_type() == rt {
        Some(entries[0])
    } else {
        spec_entry_lookup(entries.skip(1), rt)
    }
}

/// The cached payload of the first entry accessed with `rt`, if both exist.
pub open spec fn spec_entry_value(entries: Seq<Entry>, rt: RequestType) -> Option<MsgData> {
    match spec_entry_lookup(entries, rt) {
        Some(e) => e.spec_value(),
        None => None,
    }
}

/// The cached payload word of the first entry accessed with `rt`, if both
/// exist.
pub open spec fn spec_entry_word(entries: Seq<Entry>, rt: RequestType) -> Option<u32> {
    match spec_entry_value(entries, rt) {
        Some(d) => Some(d.word()),
        None => None,
    }
}

/// The entry lists agree position by position — same request and category
/// everywhere, same cached value at every entry whose request is not in
/// `touched`.
pub open spec fn spec_entries_match_except(
    e1: Seq<Entry>,
    e2: Seq<Entry>,
    touched: Set<RequestType>,
) -> bool {
    &&& e1.len() == e2.len()
    &&& forall|k: int|
        0 <= k < e1.len() ==> ((#[trigger] e2[k]).spec_request_type()
            == e1[k].spec_request_type() && e2[k].spec_entry_type() == e1[k].spec_entry_type() && (
        !touched.contains(e1[k].spec_request_type()) ==> e2[k] == e1[k]))
}

/// Matching-except is transitive over one touched set.
pub proof fn lemma_match_except_trans(
    e1: Seq<Entry>,
    e2: Seq<Entry>,
    e3: Seq<Entry>,
    touched: Set<RequestType>,
)
    requires
        spec_entries_match_except(e1, e2, touched),
        spec_entries_match_except(e2, e3, touched),
    ensures
        spec_entries_match_except(e1, e3, touched),
{
}

/// Matching-except is monotone in the touched set.
pub proof fn lemma_match_except_widen(
    e1: Seq<Entry>,
    e2: Seq<Entry>,
    s1: Set<RequestType>,
    s2: Set<RequestType>,
)
    requires
        spec_entries_match_except(e1, e2, s1),
        s1.subset_of(s2),
    ensures
        spec_entries_match_except(e1, e2, s2),
{
}

/// Lists that match except at `touched` answer the same lookups for every
/// request outside `touched`.
pub proof fn lemma_lookup_match_except(
    e1: Seq<Entry>,
    e2: Seq<Entry>,
    touched: Set<RequestType>,
    rt: RequestType,
)
    requires
        spec_entries_match_except(e1, e2, touched),
        !touched.contains(rt),
    ensures
        spec_entry_lookup(e2, rt) == spec_entry_lookup(e1, rt),
    decreases e1.len(),
{
    if e1.len() == 0 {
    } else {
        assert(e2[0] == e1[0] || e1[0].spec_request_type() != rt || touched.contains(
            e1[0].spec_request_type(),
        ));
        assert(spec_entries_match_except(e1.skip(1), e2.skip(1), touched)) by {
            assert(forall|k: int|
                0 <= k < e1.skip(1).len() ==> e1.skip(1)[k] == e1[k + 1] && (#[trigger] e2.skip(
                    1,
                )[k]) == e2[k + 1]);
        }
        lemma_lookup_match_except(e1.skip(1), e2.skip(1), touched, rt);
    }
}

/// The requests the flash operation exchanges with the device.
pub open spec fn spec_flash_requests() -> Set<RequestType> {
    set![
        RequestType::PageBufferClear,
        RequestType::PageBufferWriteWord,
        RequestType::PageBufferCalcCRC,
        RequestType::FlashWriteErasePage,
        RequestType::PageBufferWriteToFlash,
        RequestType::AppInfoCRCCalc,
        RequestType::FlashWriteAppCRC,
        RequestType::StartApp,
    ]
}

/// The entries of one driver, keyed by request type.
pub struct EntryList {
    entries: Vec<Entry>,
}

impl EntryList {
    /// The entries, in registration order.
    pub closed spec fn spec_entries(self) -> Seq<Entry> {
        self.entries@
    }

    /// An empty list.
    pub fn new() -> (r: Self)
        ensures
            r.spec_entries() =~= Seq::<Entry>::empty(),
    {
        EntryList { entries: Vec::new() }
    }

    /// Number of entries.
    pub fn len(&self) -> (r: usize)
        ensures
            r == self.spec_entries().len(),
    {
        self.entries.len()
    }

    /// Append one entry.
    pub fn push(&mut self, entry: Entry)
        ensures
            final(self).spec_entries() =~= old(self).spec_entries().push(entry),
    {
        self.entries.push(entry);
    }

    /// Index of the first entry accessed with `rt`, if any.
    pub fn index_of(&self, rt: RequestType) -> (r: Option<usize>)
        ensures
            match r {
                Some(i) => i < self.spec_entries().len() && spec_entry_lookup(
                    self.spec_entries(),
                    rt,
                ) == Some(self.spec_entries()[i as int]) && self.spec_entries()[
                    i as int
                ].spec_request_type() == rt && spec_entry_lookup(
                    self.spec_entries().take(i as int),
                    rt,
                ) is None,
                None => spec_entry_lookup(self.spec_entries(), rt) is None,
            },
    {
        let n = self.entries.len();
        let mut i: usize = 0;
        while i < n
            invariant
                i <= n,
                n == self.spec_entries().len(),
                spec_entry_lookup(self.spec_entries().take(i as int), rt) is None,
            decreases n - i,
        {
            if self.entries[i].get_request_type() == &rt {
                proof {
                    lemma_entry_lookup_take(self.spec_entries(), rt, i as int);
                }
                return Some(i);
            }
            proof {
                lemma_entry_lookup_take_step(self.spec_entries(), rt, i as int);
            }
            i = i + 1;
        }
        proof {
            assert(self.spec_entries().take(n as int) =~= self.spec_entries());
        }
        None
    }

    /// The first entry accessed with `rt`; the entry must be registered.
    pub fn get_entry(&self, rt: RequestType) -> (r: &Entry)
        requires
            spec_entry_lookup(self.spec_entries(), rt) is Some,
        ensures
            Some(*r) == spec_entry_lookup(self.spec_entries(), rt),
    {
        match self.index_of(rt) {
            Some(i) => &self.entries[i],
            None => vstd::pervasive::unreached(),
        }
    }

    /// The cached payload word of the entry accessed with `rt`; the entry
    /// must be registered and must have a value.
    pub fn get_entry_value(&self, rt: RequestType) -> (r: u32)
        requires
            spec_entry_word(self.spec_entries(), rt) is Some,
        ensures
            Some(r) == spec_entry_word(self.spec_entries(), rt),
    {
        match self.get_entry(rt).get_value() {
            Some(data) => data.to_word(),
            None => vstd::pervasive::unreached(),
        }
    }

    /// The cached payload word of the entry accessed with `rt`, if the entry
    /// is registered and holds one.
    pub fn get_cached_word(&self, rt: RequestType) -> (r: Option<u32>)
        ensures
            r == spec_entry_word(self.spec_entries(), rt),
    {
        match self.index_of(rt) {
            Some(i) => match self.entries[i].get_value() {
                Some(data) => Some(data.to_word()),
                None => None,
            },
            None => None,
        }
    }

    /// Take the entry at `i` out of the list.
    pub fn remove_at(&mut self, i: usize) -> (r: Entry)
        requires
            i < old(self).spec_entries().len(),
        ensures
            r == old(self).spec_entries()[i as int],
            final(self).spec_entries() =~= old(self).spec_entries().remove(i as int),
    {
        self.entries.remove(i)
    }

    /// Put an entry back at `i`.
    pub fn insert_at(&mut self, i: usize, entry: Entry)
        requires
            i <= old(self).spec_entries().len(),
        ensures
            final(self).spec_entries() =~= old(self).spec_entries().insert(i as int, entry),
    {
        self.entries.insert(i, entry);
    }
}

/// When the first `i` entries miss the request and entry `i` carries it, the
/// lookup over the whole list finds entry `i`.
proof fn lemma_entry_lookup_take(entries: Seq<Entry>, rt: RequestType, i: int)
    requires
        0 <= i < entries.len(),
        spec_entry_lookup(entries.take(i), rt) is None,
        entries[i].spec_request_type() == rt,
    ensures
        spec_entry_lookup(entries, rt) == Some(entries[i]),
    decreases i,
{
    if i == 0 {
    } else {
        assert(entries.take(i).skip(1) =~= entries.skip(1).take(i - 1));
        lemma_entry_lookup_take(entries.skip(1), rt, i - 1);
    }
}

/// When the first `i` entries miss the request and entry `i` misses it too,
/// the first `i + 1` entries miss it.
proof fn lemma_entry_lookup_take_step(entries: Seq<Entry>, rt: RequestType, i: int)
    requires
        0 <= i < entries.len(),
        spec_entry_lookup(entries.take(i), rt) is None,
        entries[i].spec_request_type() != rt,
    ensures
        spec_entry_lookup(entries.take(i + 1), rt) is None,
    decreases i,
{
    assert(entries.take(i + 1).skip(1) =~= entries.skip(1).take(i));
    if i == 0 {
        assert(spec_entry_lookup(entries.skip(1).take(0), rt) is None);
    } else {
        assert(entries.take(i).skip(1) =~= entries.skip(1).take(i - 1));
        lemma_entry_lookup_take_step(entries.skip(1), rt, i - 1);
    }
}

// Device -------------------------------------------------------------------------------------------

/// One device under update: a transport, the entry table, the flash layout
/// derived at initialization, and an optional progress sink.
pub struct Device<I, S> {
    interface: I,
    flash_desc: FlashDesc,
    /// The registered entries of the device.
    pub entries: EntryList,
    progress: Option<S>,
}

/// The driver's registration table: for each slot, the request it is
/// accessed with and its access category. Constants cover identity and
/// flash geometry; the CRC reads are fresh on every read; the page buffer
/// word is writable; everything else is a command.
pub open spec fn spec_registration(i: int) -> (RequestType, EntryType) {
    if i == 0 {
        (RequestType::DevInfoBootloaderVersion, EntryType::Const)
    } else if i == 1 {
        (RequestType::DevInfoBootloaderCRC, EntryType::Const)
    } else if i == 2 {
        (RequestType::DevInfoVID, EntryType::Const)
    } else if i == 3 {
        (RequestType::DevInfoPID, EntryType::Const)
    } else if i == 4 {
        (RequestType::DevInfoPRD, EntryType::Const)
    } else if i == 5 {
        (RequestType::DevInfoUID, EntryType::Const)
    } else if i == 6 {
        (RequestType::DevInfoUID2, EntryType::Const)
    } else if i == 7 {
        (RequestType::DevInfoUID3, EntryType::Const)
    } else if i == 8 {
        (RequestType::DevInfoUID4, EntryType::Const)
    } else if i == 9 {
        (RequestType::FlashInfoStartAddr, EntryType::Const)
    } else if i == 10 {
        (RequestType::FlashInfoPageSize, EntryType::Const)
    } else if i == 11 {
        (RequestType::FlashInfoNumPages, EntryType::Const)
    } else if i == 12 {
        (RequestType::AppInfoPageIdx, EntryType::Const)
    } else if i == 13 {
        (RequestType::AppInfoCRCCalc, EntryType::RO)
    } else if i == 14 {
        (RequestType::AppInfoCRCStrd, EntryType::RO)
    } else if i == 15 {
        (RequestType::PageBufferClear, EntryType::Cmd)
    } else if i == 16 {
        (RequestType::PageBufferWriteWord, EntryType::RW)
    } else if i == 17 {
        (RequestType::PageBufferCalcCRC, EntryType::RO)
    } else if i == 18 {
        (RequestType::PageBufferWriteToFlash, EntryType::Cmd)
    } else if i == 19 {
        (RequestType::FlashWriteErasePage, EntryType::Cmd)
    } else if i == 20 {
        (RequestType::FlashWriteAppCRC, EntryType::Cmd)
    } else if i == 21 {
        (RequestType::StartApp, EntryType::Cmd)
    } else {
        (RequestType::ResetDevice, EntryType::Cmd)
    }
}

impl<I> Device<I, NoProgress> where I: ComInterface {
    /// A driver over `interface` without a progress surface.
    pub fn new(interface: I) -> (r: Device<I, NoProgress>)
        ensures
            r.spec_entries().len() == 23,
            forall|i: int|
                0 <= i < 23 ==> ((#[trigger] r.spec_entries()[i]).spec_value() is None
                    && r.spec_entries()[i].spec_request_type() == spec_registration(i).0
                    && r.spec_entries()[i].spec_entry_type() == spec_registration(i).1),
    {
        Device::new_with_progress(interface, None)
    }
}

impl<I, S> Device<I, S> where I: ComInterface, S: ProgressSink {
    /// The registered entries, in registration order.
    pub closed spec fn spec_entries(self) -> Seq<Entry> {
        self.entries.spec_entries()
    }

    /// The flash layout known so far.
    pub closed spec fn spec_flash_desc(self) -> FlashDesc {
        self.flash_desc
    }

    /// True once `init` has derived the flash layout: the application
    /// section exists and the layout is well-formed.
    pub open spec fn spec_initialized(self) -> bool {
        &&& self.spec_flash_desc().wf()
        &&& self.spec_flash_desc().spec_page_size() > 0
        &&& spec_find_section(self.spec_flash_desc().spec_sections(), "Application"@) is Some
    }

    /// A driver over `interface` reporting progress to `progress`.
    ///
    /// Registers every entry of the bootloader: the constant identity and
    /// flash-geometry fields, the readable CRC fields, the writable page
    /// buffer word, and the commands.
    pub fn new_with_progress(interface: I, progress: Option<S>) -> (r: Device<I, S>)
        ensures
            r.spec_entries().len() == 23,
            forall|i: int|
                0 <= i < 23 ==> ((#[trigger] r.spec_entries()[i]).spec_value() is None
                    && r.spec_entries()[i].spec_request_type() == spec_registration(i).0
                    && r.spec_entries()[i].spec_entry_type() == spec_registration(i).1),
    {
        let mut device = Device {
            interface,
            flash_desc: FlashDesc::new(0, 0, 0),
            entries: EntryList::new(),
            progress,
        };

        device._add_entry(EntryType::Const, RequestType::DevInfoBootloaderVersion);
        device._add_entry(EntryType::Const, RequestType::DevInfoBootloaderCRC);
        device._add_entry(EntryType::Const, RequestType::DevInfoVID);
        device._add_entry(EntryType::Const, RequestType::DevInfoPID);
        device._add_entry(EntryType::Const, RequestType::DevInfoPRD);
        device._add_entry(EntryType::Const, RequestType::DevInfoUID);
        device._add_entry(EntryType::Const, RequestType::DevInfoUID2);
        device._add_entry(EntryType::Const, RequestType::DevInfoUID3);
        device._add_entry(EntryType::Const, RequestType::DevInfoUID4);

        device._add_entry(EntryType::Const, RequestType::FlashInfoStartAddr);
        device._add_entry(EntryType::Const, RequestType::FlashInfoPageSize);
        device._add_entry(EntryType::Const, RequestType::FlashInfoNumPages);

        device._add_entry(EntryType::Const, RequestType::AppInfoPageIdx);
        device._add_entry(EntryType::RO, RequestType::AppInfoCRCCalc);
        device._add_entry(EntryType::RO, RequestType::AppInfoCRCStrd);

        device._add_entry(EntryType::Cmd, RequestType::PageBufferClear);
        device._add_entry(EntryType::RW, RequestType::PageBufferWriteWord);
        device._add_entry(EntryType::RO, RequestType::PageBufferCalcCRC);
        device._add_entry(EntryType::Cmd, RequestType::PageBufferWriteToFlash);

        device._add_entry(EntryType::Cmd, RequestType::FlashWriteErasePage);
        device._add_entry(EntryType::Cmd, RequestType::FlashWriteAppCRC);

        device._add_entry(EntryType::Cmd, RequestType::StartApp);
        device._add_entry(EntryType::Cmd, RequestType::ResetDevice);

        device
    }

    /// The progress log or sink handed in at construction.
    pub closed spec fn spec_progress(self) -> Option<S> {
        self.progress
    }

    /// The progress log or sink handed in at construction.
    pub fn get_progress(&self) -> (r: &Option<S>)
        ensures
            *r == self.spec_progress(),
    {
        &self.progress
    }

    /// The flash layout known so far.
    pub fn get_flash_desc(&self) -> (r: &FlashDesc)
        ensures
            *r == self.spec_flash_desc(),
    {
        &self.flash_desc
    }

    /// Initialize the driver: read every constant entry from the device and
    /// derive the flash layout.
    ///
    /// The layout holds a `Bootloader` section covering the pages below the
    /// application page index and an `Application` section covering the
    /// rest of the flash. Geometry words that do not describe a valid layout
    /// (no pages, a start address that is not page-aligned, products or sums
    /// past the address space) are rejected.
    pub fn init(&mut self) -> (r: Result<(), Error>)
        ensures
            final(self).spec_entries().len() == old(self).spec_entries().len(),
            forall|k: int|
                0 <= k < old(self).spec_entries().len() ==> ((#[trigger] final(self).spec_entries()[k]).spec_request_type()
                    == old(self).spec_entries()[k].spec_request_type() && final(self).spec_entries()[k].spec_entry_type()
                    == old(self).spec_entries()[k].spec_entry_type()),
            r is Ok ==> (forall|k: int|
                0 <= k < old(self).spec_entries().len() && old(self).spec_entries()[k].spec_entry_type()
                    == EntryType::Const ==> (#[trigger] final(self).spec_entries()[k]).spec_value() is Some),
            r is Ok ==> final(self).spec_initialized(),
            r is Ok ==> ({
                let entries = final(self).spec_entries();
                let desc = final(self).spec_flash_desc();
                spec_entry_word(entries, RequestType::FlashInfoStartAddr) is Some
                    && spec_entry_word(entries, RequestType::FlashInfoPageSize) is Some
                    && spec_entry_word(entries, RequestType::FlashInfoNumPages) is Some
                    && spec_entry_word(entries, RequestType::AppInfoPageIdx) is Some && ({
                    let start = spec_entry_word(entries, RequestType::FlashInfoStartAddr)->Some_0;
                    let ps = spec_entry_word(entries, RequestType::FlashInfoPageSize)->Some_0;
                    let np = spec_entry_word(entries, RequestType::FlashInfoNumPages)->Some_0;
                    let idx = spec_entry_word(entries, RequestType::AppInfoPageIdx)->Some_0;
                    desc.spec_address() == start && desc.spec_page_size() == ps
                        && desc.spec_size() == ps * np && idx <= np && (spec_find_section(
                        desc.spec_sections(),
                        "Bootloader"@,
                    ) matches Some(b) && b.spec_address() == start && b.spec_size() == idx * ps)
                        && (spec_find_section(
                        desc.spec_sections(),
                        "Application"@,
                    ) matches Some(a) && a.spec_address() == start + idx * ps && a.spec_size() == (
                    np - idx) * ps && a.spec_flash_page_id() == idx && a.spec_page_size() == ps)
                })
            }),
    {
        self._read_const_data()?;

        let flash_start = match self.entries.get_cached_word(RequestType::FlashInfoStartAddr) {
            Some(w) => w,
            None => {
                return Err(Error::Error("Flash start address was not read".to_string()));
            },
        };
        let flash_page_size = match self.entries.get_cached_word(RequestType::FlashInfoPageSize) {
            Some(w) => w,
            None => {
                return Err(Error::Error("Flash page size was not read".to_string()));
            },
        };
        let flash_num_pages = match self.entries.get_cached_word(RequestType::FlashInfoNumPages) {
            Some(w) => w,
            None => {
                return Err(Error::Error("Flash page count was not read".to_string()));
            },
        };
        let flash_app_page_idx = match self.entries.get_cached_word(RequestType::AppInfoPageIdx) {
            Some(w) => w,
            None => {
                return Err(Error::Error("Application page index was not read".to_string()));
            },
        };

        // The geometry must describe a layout inside the 32-bit address space
        let flash_size = match flash_page_size.checked_mul(flash_num_pages) {
            Some(s) => s,
            None => {
                return Err(Error::Error("Flash size exceeds the address space".to_string()));
            },
        };
        if flash_app_page_idx > flash_num_pages {
            return Err(Error::Error("Application page index is past the flash end".to_string()));
        }
        let bootloader_size = match flash_app_page_idx.checked_mul(flash_page_size) {
            Some(s) => s,
            None => {
                return Err(Error::Error("Bootloader area exceeds the address space".to_string()));
            },
        };
        let app_start = match flash_start.checked_add(bootloader_size) {
            Some(s) => s,
            None => {
                return Err(Error::Error("Application area exceeds the address space".to_string()));
            },
        };
        proof {
            vstd::arithmetic::mul::lemma_mul_inequality(
                flash_app_page_idx as int,
                flash_num_pages as int,
                flash_page_size as int,
            );
            vstd::arithmetic::mul::lemma_mul_is_commutative(
                flash_page_size as int,
                flash_num_pages as int,
            );
        }
        let app_size = flash_size - bootloader_size;
        proof {
            assert(app_size == (flash_num_pages - flash_app_page_idx) * flash_page_size)
                by (nonlinear_arith)
                requires
                    app_size == flash_size - bootloader_size,
                    flash_size == flash_page_size * flash_num_pages,
                    bootloader_size == flash_app_page_idx * flash_page_size,
            {
            }
        }

        let mut flash_desc = FlashDesc::new(flash_start, flash_size, flash_page_size);

        if flash_desc.add_section("Bootloader", flash_start, bootloader_size).is_err() {
            return Err(Error::Error("Failed to add bootloader section".to_string()));
        }
        if flash_desc.add_section("Application", app_start, app_size).is_err() {
            return Err(Error::Error("Failed to add application section".to_string()));
        }

        proof {
            vstd::arithmetic::div_mod::lemma_div_multiples_vanish(
                flash_app_page_idx as int,
                flash_page_size as int,
            );
            reveal_with_fuel(spec_find_section, 3);
            reveal_strlit("Bootloader");
            reveal_strlit("Application");
            let sections = flash_desc.spec_sections();
            assert(sections.len() == 2);
            assert(sections[0].spec_name() == "Bootloader"@);
            assert(sections[1].spec_name() == "Application"@);
            assert("Bootloader"@ != "Application"@);
            assert(spec_find_section(sections, "Bootloader"@) == Some(sections[0]));
            assert(sections.skip(1)[0] == sections[1]);
            assert(spec_find_section(sections.skip(1), "Application"@) == Some(sections[1]));
            assert(spec_find_section(sections, "Application"@) == Some(sections[1]));
            assert(sections[1].spec_flash_page_id() == flash_app_page_idx);
            assert(spec_entry_word(self.spec_entries(), RequestType::FlashInfoStartAddr) == Some(
                flash_start,
            ));
        }

        self.flash_desc = flash_desc;
        Ok(())
    }

    /// Erase the application section, page by page in ascending order,
    /// emitting `EraseProgress` after each page.
    ///
    /// Possible only on an initialized driver; on success the last erase
    /// command the device echoed named the last page of the application
    /// section.
    pub fn erase(&mut self) -> (r: Result<(), Error>)
        ensures
            final(self).spec_flash_desc() == old(self).spec_flash_desc(),
            spec_entries_match_except(
                old(self).spec_entries(),
                final(self).spec_entries(),
                set![RequestType::FlashWriteErasePage],
            ),
            spec_find_section(old(self).spec_flash_desc().spec_sections(), "Application"@)
                is None ==> (r matches Err(e) && e matches Error::Error(_)),
            r is Ok ==> (spec_find_section(
                old(self).spec_flash_desc().spec_sections(),
                "Application"@,
            ) matches Some(sec) && (sec.spec_num_pages() > 0 ==> spec_entry_word(
                final(self).spec_entries(),
                RequestType::FlashWriteErasePage,
            ) == Some(
                (sec.spec_flash_page_id() + sec.spec_num_pages() - 1) as u32,
            ))),
    {
        let (first_page, num_pages) = match self.flash_desc.get_section("Application") {
            Some(section) => (section.get_flash_page_id(), section.get_num_pages()),
            None => {
                return Err(Error::Error("Device is not initialized".to_string()));
            },
        };

        let mut i: u32 = 0;
        while i < num_pages
            invariant
                i <= num_pages,
                spec_find_section(old(self).spec_flash_desc().spec_sections(), "Application"@)
                    is Some,
                self.spec_flash_desc() == old(self).spec_flash_desc(),
                spec_entries_match_except(
                    old(self).spec_entries(),
                    self.spec_entries(),
                    set![RequestType::FlashWriteErasePage],
                ),
                i > 0 ==> spec_entry_word(
                    self.spec_entries(),
                    RequestType::FlashWriteErasePage,
                ) == Some((first_page + i - 1) as u32),
            decreases num_pages - i,
        {
            let flash_page_id = match first_page.checked_add(i) {
                Some(p) => p,
                None => {
                    return Err(Error::Error("Flash page id exceeds the address space".to_string()));
                },
            };
            let ghost entries_pre = self.spec_entries();
            match self._exec_entry(RequestType::FlashWriteErasePage, flash_page_id) {
                Ok(_) => {},
                Err(e) => {
                    proof {
                        lemma_match_except_trans(
                            old(self).spec_entries(),
                            entries_pre,
                            self.spec_entries(),
                            set![RequestType::FlashWriteErasePage],
                        );
                    }
                    return Err(e);
                },
            }
            proof {
                lemma_match_except_trans(
                    old(self).spec_entries(),
                    entries_pre,
                    self.spec_entries(),
                    set![RequestType::FlashWriteErasePage],
                );
            }
            i = i + 1;
            self._emit(ProgressUpdate::EraseProgress { current: i, total: num_pages });
        }
        Ok(())
    }

    /// Flash a firmware image into the application section.
    ///
    /// Assembles the provider's sparse byte map into pages (failing fast on
    /// addresses outside the application region), streams every assembled
    /// page through the device's page buffer with a per-page CRC check,
    /// verifies the whole-image CRC — erasing the pages the image left
    /// untouched and retrying once when it disagrees — commits the CRC and
    /// starts the application.
    pub fn flash<FWI: FirmwareDataInterface>(&mut self, fwi: &FWI) -> (r: Result<(), Error>)
        ensures
            final(self).spec_flash_desc() == old(self).spec_flash_desc(),
            spec_entries_match_except(
                old(self).spec_entries(),
                final(self).spec_entries(),
                spec_flash_requests(),
            ),
            spec_find_section(old(self).spec_flash_desc().spec_sections(), "Application"@)
                is None ==> (r matches Err(e) && e matches Error::Error(_)),
            r is Ok ==> (spec_entry_word(final(self).spec_entries(), RequestType::AppInfoCRCCalc)
                is Some && spec_entry_word(final(self).spec_entries(), RequestType::AppInfoCRCCalc)
                == spec_entry_word(final(self).spec_entries(), RequestType::FlashWriteAppCRC)),
    {
        let fw_data = match fwi.get_firmware_data() {
            Some(d) => d,
            None => {
                return Err(Error::Error("No firmware data loaded".to_string()));
            },
        };
        self.flash_data(fw_data)
    }

    /// Flash a firmware byte map into the application section; the verified
    /// core of [`Device::flash`].
    ///
    /// Fails on a driver that was not initialized and on a map that holds a
    /// byte outside the application region — in particular below its start —
    /// before anything is sent; on success the whole-image CRC the device
    /// computed equals the CRC committed to the stored-CRC slot.
    pub fn flash_data(&mut self, fw_data: &FirmwareDataRaw) -> (r: Result<(), Error>)
        requires
            fw_data.wf(),
        ensures
            final(self).spec_flash_desc() == old(self).spec_flash_desc(),
            spec_entries_match_except(
                old(self).spec_entries(),
                final(self).spec_entries(),
                spec_flash_requests(),
            ),
            spec_find_section(old(self).spec_flash_desc().spec_sections(), "Application"@)
                is None ==> (r matches Err(e) && e matches Error::Error(_)),
            (spec_find_section(
                old(self).spec_flash_desc().spec_sections(),
                "Application"@,
            ) matches Some(sec) && (exists|i: int|
                0 <= i < fw_data.spec_entries().len() && ((#[trigger] fw_data.spec_entries()[i]).0
                    < sec.spec_address() || sec.spec_page_size() == 0 || (
                fw_data.spec_entries()[i].0 - sec.spec_address()) / (sec.spec_page_size() as int)
                    >= sec.spec_num_pages()))) ==> r is Err,
            r is Ok ==> (spec_entry_word(final(self).spec_entries(), RequestType::AppInfoCRCCalc)
                is Some && spec_entry_word(final(self).spec_entries(), RequestType::AppInfoCRCCalc)
                == spec_entry_word(final(self).spec_entries(), RequestType::FlashWriteAppCRC)),
    {
        let app_section = match self.flash_desc.get_section("Application") {
            Some(section) => section,
            None => {
                return Err(Error::Error("Device is not initialized".to_string()));
            },
        };

        // Build the firmware image over the application section
        let mut app_fw = AppFirmware::from_section(app_section);
        match app_fw.append_firmware(fw_data) {
            Ok(_) => {},
            Err(e) => {
                return Err(e);
            },
        }

        // Transmit every page of the image to the device
        let ghost e0 = self.spec_entries();
        let pages_res = self._flash_app_pages(&app_fw);
        match pages_res {
            Ok(_) => {},
            Err(e) => {
                return Err(e);
            },
        }

        self._emit_message("Checking CRC");
        let ghost e1 = self.spec_entries();
        let check_res = self._check_app_crc(&app_fw);
        proof {
            lemma_match_except_widen(
                e1,
                self.spec_entries(),
                set![RequestType::AppInfoCRCCalc, RequestType::FlashWriteErasePage],
                spec_flash_requests(),
            );
            lemma_match_except_trans(e0, e1, self.spec_entries(), spec_flash_requests());
        }
        match check_res {
            Ok(_) => {},
            Err(e) => {
                return Err(e);
            },
        }

        self._emit_message("Flashing App CRC");
        let ghost e2 = self.spec_entries();
        let commit_res = self._flash_app_crc(app_fw.get_crc());
        proof {
            lemma_match_except_widen(
                e2,
                self.spec_entries(),
                set![RequestType::FlashWriteAppCRC],
                spec_flash_requests(),
            );
            lemma_match_except_trans(e0, e2, self.spec_entries(), spec_flash_requests());
            lemma_lookup_match_except(
                e2,
                self.spec_entries(),
                set![RequestType::FlashWriteAppCRC],
                RequestType::AppInfoCRCCalc,
            );
        }
        match commit_res {
            Ok(_) => {},
            Err(e) => {
                return Err(e);
            },
        }

        self._emit_message("Starting App");
        let ghost e3 = self.spec_entries();
        let start_res = self._exec_entry(RequestType::StartApp, 0);
        proof {
            lemma_match_except_widen(
                e3,
                self.spec_entries(),
                set![RequestType::StartApp],
                spec_flash_requests(),
            );
            lemma_match_except_trans(e0, e3, self.spec_entries(), spec_flash_requests());
            lemma_lookup_match_except(
                e3,
                self.spec_entries(),
                set![RequestType::StartApp],
                RequestType::AppInfoCRCCalc,
            );
            lemma_lookup_match_except(
                e3,
                self.spec_entries(),
                set![RequestType::StartApp],
                RequestType::FlashWriteAppCRC,
            );
        }
        match start_res {
            Ok(_) => {},
            Err(e) => {
                return Err(e);
            },
        }

        Ok(())
    }

    /// Whether the CRC the device computes
    /// Whether the CRC the device computes over its application region
    /// equals the image's whole-image CRC, read fresh from the device.
    pub fn is_app_crc_valid(&mut self, app: &AppFirmware) -> (r: Result<bool, Error>)
        ensures
            final(self).spec_flash_desc() == old(self).spec_flash_desc(),
            spec_entries_match_except(
                old(self).spec_entries(),
                final(self).spec_entries(),
                set![RequestType::AppInfoCRCCalc],
            ),
            r matches Ok(b) ==> (spec_entry_word(
                final(self).spec_entries(),
                RequestType::AppInfoCRCCalc,
            ) matches Some(w) && (b <==> w == app.spec_crc())),
    {
        let app_crc = app.get_crc();
        let dev_crc = match self.read_entry_value(RequestType::AppInfoCRCCalc) {
            Ok(d) => d.to_word(),
            Err(e) => {
                return Err(e);
            },
        };
        Ok(app_crc == dev_crc)
    }

    /// Scan the transport's network for devices and hand back the node ids
    /// that answered, in arrival order. Supported on multi-drop transports
    /// only.
    pub fn scan(&mut self) -> (r: Result<Vec<u8>, Error>)
        ensures
            final(self).spec_entries() == old(self).spec_entries(),
            final(self).spec_flash_desc() == old(self).spec_flash_desc(),
    {
        self.interface.scan_network()
    }

    /// Reset the device by executing the reset command.
    pub fn reset(&mut self) -> (r: Result<(), Error>)
        ensures
            final(self).spec_flash_desc() == old(self).spec_flash_desc(),
            spec_entries_match_except(
                old(self).spec_entries(),
                final(self).spec_entries(),
                set![RequestType::ResetDevice],
            ),
            spec_entry_lookup(old(self).spec_entries(), RequestType::ResetDevice) is None ==> (
            r matches Err(e) && e matches Error::Error(_)),
            r is Ok ==> spec_entry_word(final(self).spec_entries(), RequestType::ResetDevice)
                == Some(0u32),
    {
        let res = self._exec_entry(RequestType::ResetDevice, 0);
        if res.is_ok() {
            self._emit_message("Reset device");
        }
        res
    }

    // Getters ------------------------------------------------------------------------------------

    /// The cached value of the entry accessed with `request_type`; the entry
    /// must be registered and must have been read.
    pub fn get_entry_value(&self, request_type: RequestType) -> (r: u32)
        requires
            spec_entry_word(self.spec_entries(), request_type) is Some,
        ensures
            Some(r) == spec_entry_word(self.spec_entries(), request_type),
    {
        self.entries.get_entry_value(request_type)
    }

    /// Read the value of the entry accessed with `request_type` from cache
    /// or device, per the entry's category.
    pub fn read_entry_value(&mut self, request_type: RequestType) -> (r: Result<MsgData, Error>)
        ensures
            final(self).spec_flash_desc() == old(self).spec_flash_desc(),
            spec_entries_match_except(
                old(self).spec_entries(),
                final(self).spec_entries(),
                set![request_type],
            ),
            spec_entry_lookup(old(self).spec_entries(), request_type) is None ==> (r matches Err(e)
                && e matches Error::Error(_)),
            r matches Ok(d) ==> spec_entry_value(final(self).spec_entries(), request_type)
                == Some(d),
    {
        let idx = match self.entries.index_of(request_type) {
            Some(i) => i,
            None => {
                return Err(Error::Error("Device entry is unknown".to_string()));
            },
        };
        let ghost entries0 = self.spec_entries();
        let mut entry = self.entries.remove_at(idx);
        let res = entry.read_value(&mut self.interface);
        self.entries.insert_at(idx, entry);
        proof {
            assert(self.spec_entries() =~= entries0.update(idx as int, entry));
            if res is Ok {
                lemma_entry_lookup_update_first(entries0, request_type, idx as int, entry);
            }
        }
        res
    }

    /// The bootloader version as `major.minor.patch`, from the cached
    /// version word's low three bytes.
    pub fn get_bootloader_version(&self) -> (r: String)
        requires
            spec_entry_value(self.spec_entries(), RequestType::DevInfoBootloaderVersion) is Some,
    {
        let version = match self.entries.get_entry(
            RequestType::DevInfoBootloaderVersion,
        ).get_value() {
            Some(d) => *d,
            None => vstd::pervasive::unreached(),
        };
        let major = version.get_byte(0);
        let minor = version.get_byte(1);
        let patch = version.get_byte(2);
        format_version(major, minor, patch)
    }

    /// The cached vendor id.
    pub fn get_device_info_vid(&self) -> (r: u32)
        requires
            spec_entry_word(self.spec_entries(), RequestType::DevInfoVID) is Some,
        ensures
            Some(r) == spec_entry_word(self.spec_entries(), RequestType::DevInfoVID),
    {
        self.get_entry_value(RequestType::DevInfoVID)
    }

    /// The cached product id.
    pub fn get_device_info_pid(&self) -> (r: u32)
        requires
            spec_entry_word(self.spec_entries(), RequestType::DevInfoPID) is Some,
        ensures
            Some(r) == spec_entry_word(self.spec_entries(), RequestType::DevInfoPID),
    {
        self.get_entry_value(RequestType::DevInfoPID)
    }

    /// The cached production date.
    pub fn get_device_info_prd(&self) -> (r: u32)
        requires
            spec_entry_word(self.spec_entries(), RequestType::DevInfoPRD) is Some,
        ensures
            Some(r) == spec_entry_word(self.spec_entries(), RequestType::DevInfoPRD),
    {
        self.get_entry_value(RequestType::DevInfoPRD)
    }

    /// The cached 128-bit unique device id, assembled little-endian from its
    /// four words.
    pub fn get_device_info_uid(&self) -> (r: u128)
        requires
            spec_entry_word(self.spec_entries(), RequestType::DevInfoUID) is Some,
            spec_entry_word(self.spec_entries(), RequestType::DevInfoUID2) is Some,
            spec_entry_word(self.spec_entries(), RequestType::DevInfoUID3) is Some,
            spec_entry_word(self.spec_entries(), RequestType::DevInfoUID4) is Some,
        ensures
            ({
                let w1 = spec_entry_word(self.spec_entries(), RequestType::DevInfoUID)->Some_0;
                let w2 = spec_entry_word(self.spec_entries(), RequestType::DevInfoUID2)->Some_0;
                let w3 = spec_entry_word(self.spec_entries(), RequestType::DevInfoUID3)->Some_0;
                let w4 = spec_entry_word(self.spec_entries(), RequestType::DevInfoUID4)->Some_0;
                r == w1 + w2 * 0x1_0000_0000 + w3 * 0x1_0000_0000_0000_0000 + w4
                    * 0x1_0000_0000_0000_0000_0000_0000
            }),
    {
        let w1 = self.get_entry_value(RequestType::DevInfoUID);
        let w2 = self.get_entry_value(RequestType::DevInfoUID2);
        let w3 = self.get_entry_value(RequestType::DevInfoUID3);
        let w4 = self.get_entry_value(RequestType::DevInfoUID4);
        let r = (w1 as u128) | ((w2 as u128) << 32) | ((w3 as u128) << 64) | ((w4 as u128) << 96);
        proof {
            lemma_uid_words(w1, w2, w3, w4, r);
        }
        r
    }

    // Private Functions --------------------------------------------------------------------------

    /// Register one entry.
    fn _add_entry(&mut self, entry_type: EntryType, request_type: RequestType)
        ensures
            final(self).spec_entries().len() == old(self).spec_entries().len() + 1,
            final(self).spec_entries().drop_last() =~= old(self).spec_entries(),
            final(self).spec_entries().last().spec_entry_type() == entry_type,
            final(self).spec_entries().last().spec_request_type() == request_type,
            final(self).spec_entries().last().spec_value() is None,
            final(self).spec_flash_desc() == old(self).spec_flash_desc(),
    {
        self.entries.push(Entry::new(entry_type, request_type));
    }

    /// Read every constant entry from the device, in registration order.
    fn _read_const_data(&mut self) -> (r: Result<(), Error>)
        ensures
            final(self).spec_flash_desc() == old(self).spec_flash_desc(),
            final(self).spec_entries().len() == old(self).spec_entries().len(),
            forall|k: int|
                0 <= k < old(self).spec_entries().len() ==> ((#[trigger] final(self).spec_entries()[k]).spec_request_type()
                    == old(self).spec_entries()[k].spec_request_type() && final(self).spec_entries()[k].spec_entry_type()
                    == old(self).spec_entries()[k].spec_entry_type() && (old(self).spec_entries()[k].spec_entry_type()
                    != EntryType::Const ==> final(self).spec_entries()[k] == old(self).spec_entries()[k])),
            r is Ok ==> (forall|k: int|
                0 <= k < old(self).spec_entries().len() && old(self).spec_entries()[k].spec_entry_type()
                    == EntryType::Const ==> (#[trigger] final(self).spec_entries()[k]).spec_value() is Some),
    {
        let n = self.entries.len();
        let mut i: usize = 0;
        while i < n
            invariant
                i <= n,
                n == old(self).spec_entries().len(),
                n == self.spec_entries().len(),
                self.spec_flash_desc() == old(self).spec_flash_desc(),
                forall|k: int|
                    0 <= k < n ==> ((#[trigger] self.spec_entries()[k]).spec_request_type() == old(self).spec_entries()[k].spec_request_type()
                        && self.spec_entries()[k].spec_entry_type() == old(self).spec_entries()[k].spec_entry_type()
                        && (old(self).spec_entries()[k].spec_entry_type() != EntryType::Const ==> self.spec_entries()[k] == old(self).spec_entries()[k])),
                forall|k: int|
                    0 <= k < i && old(self).spec_entries()[k].spec_entry_type() == EntryType::Const
                        ==> (#[trigger] self.spec_entries()[k]).spec_value() is Some,
            decreases n - i,
        {
            let ghost before = self.spec_entries();
            let mut entry = self.entries.remove_at(i);
            let res = if entry.get_entry_type().is_const() {
                match entry.read_value(&mut self.interface) {
                    Ok(_) => Ok(()),
                    Err(e) => Err(e),
                }
            } else {
                Ok(())
            };
            self.entries.insert_at(i, entry);
            proof {
                assert(self.spec_entries() =~= before.update(i as int, entry));
            }
            match res {
                Ok(_) => {},
                Err(e) => {
                    return Err(e);
                },
            }
            i = i + 1;
        }
        Ok(())
    }

    /// Stream every page of the image through the device's page buffer.
    ///
    /// Per page: clear the buffer; write the page word by word, the packet
    /// id rotating through 0..255 and each word's echo checked; read the
    /// buffer CRC from the device, which must equal the page's CRC; erase
    /// the page's absolute flash page and commit the buffer to it; emit
    /// `FlashProgress`. A buffer CRC mismatch is fatal before the erase.
    fn _flash_app_pages(&mut self, app: &AppFirmware) -> (r: Result<(), Error>)
        requires
            app.wf(),
        ensures
            final(self).spec_flash_desc() == old(self).spec_flash_desc(),
            spec_entries_match_except(
                old(self).spec_entries(),
                final(self).spec_entries(),
                spec_flash_requests(),
            ),
            spec_find_section(old(self).spec_flash_desc().spec_sections(), "Application"@)
                is None ==> (r matches Err(e) && e matches Error::Error(_)),
            r is Ok && app.spec_pages().len() > 0 ==> spec_entry_word(
                final(self).spec_entries(),
                RequestType::PageBufferCalcCRC,
            ) == Some(app.spec_pages().last().spec_crc()),
    {
        let first_page = match self.flash_desc.get_section("Application") {
            Some(section) => section.get_flash_page_id(),
            None => {
                return Err(Error::Error("Device is not initialized".to_string()));
            },
        };

        let page_size = app.get_flash_page_size();
        let total = app.get_page_lst().len();
        let mut p: usize = 0;
        while p < total
            invariant
                p <= total,
                total == app.spec_pages().len(),
                app.wf(),
                page_size == app.spec_flash_page_size(),
                spec_find_section(old(self).spec_flash_desc().spec_sections(), "Application"@)
                    is Some,
                self.spec_flash_desc() == old(self).spec_flash_desc(),
                spec_entries_match_except(
                    old(self).spec_entries(),
                    self.spec_entries(),
                    spec_flash_requests(),
                ),
                p > 0 ==> spec_entry_word(
                    self.spec_entries(),
                    RequestType::PageBufferCalcCRC,
                ) == Some(app.spec_pages()[p - 1].spec_crc()),
            decreases total - p,
        {
            let (page_id, page_crc) = {
                let page = &app.get_page_lst()[p];
                (page.get_id(), page.get_crc())
            };
            let flash_page_id = match page_id.checked_add(first_page) {
                Some(id) => id,
                None => {
                    return Err(Error::Error("Flash page id exceeds the address space".to_string()));
                },
            };

            // Clear the page buffer
            let ghost e_pre = self.spec_entries();
            let clear_res = self._exec_entry(RequestType::PageBufferClear, 0);
            proof {
                lemma_match_except_widen(
                    e_pre,
                    self.spec_entries(),
                    set![RequestType::PageBufferClear],
                    spec_flash_requests(),
                );
                lemma_match_except_trans(
                    old(self).spec_entries(),
                    e_pre,
                    self.spec_entries(),
                    spec_flash_requests(),
                );
            }
            match clear_res {
                Ok(_) => {},
                Err(e) => {
                    return Err(e);
                },
            }

            // Write the page into the buffer, one word per message
            let words = (page_size as usize) / 4;
            let mut msg_idx: usize = 0;
            while msg_idx < words
                invariant
                    words == app.spec_flash_page_size() as int / 4,
                    total == app.spec_pages().len(),
                    p < total,
                    app.wf(),
                    spec_find_section(old(self).spec_flash_desc().spec_sections(), "Application"@)
                        is Some,
                    self.spec_flash_desc() == old(self).spec_flash_desc(),
                    spec_entries_match_except(
                        old(self).spec_entries(),
                        self.spec_entries(),
                        spec_flash_requests(),
                    ),
                decreases words - msg_idx,
            {
                proof {
                    vstd::arithmetic::div_mod::lemma_fundamental_div_mod(
                        app.spec_flash_page_size() as int,
                        4,
                    );
                    vstd::arithmetic::div_mod::lemma_mod_bound(
                        app.spec_flash_page_size() as int,
                        4,
                    );
                }
                let byte_offset = msg_idx * 4;
                let msg_data = {
                    let bytes = app.get_page_lst()[p].get_bytes();
                    MsgData::from_array(
                        &[
                            bytes[byte_offset],
                            bytes[byte_offset + 1],
                            bytes[byte_offset + 2],
                            bytes[byte_offset + 3],
                        ],
                    )
                };
                let packet_id = (msg_idx % 256) as u8;
                let ghost e_word = self.spec_entries();
                let write_res = self._write_entry(
                    RequestType::PageBufferWriteWord,
                    packet_id,
                    &msg_data,
                );
                proof {
                    lemma_match_except_widen(
                        e_word,
                        self.spec_entries(),
                        set![RequestType::PageBufferWriteWord],
                        spec_flash_requests(),
                    );
                    lemma_match_except_trans(
                        old(self).spec_entries(),
                        e_word,
                        self.spec_entries(),
                        spec_flash_requests(),
                    );
                }
                match write_res {
                    Ok(_) => {},
                    Err(e) => {
                        return Err(e);
                    },
                }
                msg_idx = msg_idx + 1;
            }

            // The device's CRC over the page buffer must match the page
            let ghost e_crc = self.spec_entries();
            let crc_res = self.read_entry_value(RequestType::PageBufferCalcCRC);
            proof {
                lemma_match_except_widen(
                    e_crc,
                    self.spec_entries(),
                    set![RequestType::PageBufferCalcCRC],
                    spec_flash_requests(),
                );
                lemma_match_except_trans(
                    old(self).spec_entries(),
                    e_crc,
                    self.spec_entries(),
                    spec_flash_requests(),
                );
            }
            let page_dev_crc = match crc_res {
                Ok(d) => d.to_word(),
                Err(e) => {
                    return Err(e);
                },
            };
            if page_dev_crc != page_crc {
                return Err(Error::Error("Page buffer CRC invalid".to_string()));
            }

            // Erase the target page and commit the buffer to it
            let ghost e_erase = self.spec_entries();
            let erase_res = self._exec_entry(RequestType::FlashWriteErasePage, flash_page_id);
            proof {
                lemma_match_except_widen(
                    e_erase,
                    self.spec_entries(),
                    set![RequestType::FlashWriteErasePage],
                    spec_flash_requests(),
                );
                lemma_match_except_trans(
                    old(self).spec_entries(),
                    e_erase,
                    self.spec_entries(),
                    spec_flash_requests(),
                );
                lemma_lookup_match_except(
                    e_erase,
                    self.spec_entries(),
                    set![RequestType::FlashWriteErasePage],
                    RequestType::PageBufferCalcCRC,
                );
            }
            match erase_res {
                Ok(_) => {},
                Err(e) => {
                    return Err(e);
                },
            }

            let ghost e_commit = self.spec_entries();
            let commit_res = self._exec_entry(RequestType::PageBufferWriteToFlash, flash_page_id);
            proof {
                lemma_match_except_widen(
                    e_commit,
                    self.spec_entries(),
                    set![RequestType::PageBufferWriteToFlash],
                    spec_flash_requests(),
                );
                lemma_match_except_trans(
                    old(self).spec_entries(),
                    e_commit,
                    self.spec_entries(),
                    spec_flash_requests(),
                );
                lemma_lookup_match_except(
                    e_commit,
                    self.spec_entries(),
                    set![RequestType::PageBufferWriteToFlash],
                    RequestType::PageBufferCalcCRC,
                );
            }
            match commit_res {
                Ok(_) => {},
                Err(e) => {
                    return Err(e);
                },
            }

            p = p + 1;
            self._emit(
                ProgressUpdate::FlashProgress { current: p as u32, total: total as u32 },
            );
        }
        Ok(())
    }

    /// Erase the flash pages the image holds no page for, among the first
    /// `page_lst.len()` application page ids. Stale flash the new image
    /// leaves untouched can otherwise perturb the whole-image CRC.
    fn _erase_unused_pages(&mut self, app: &AppFirmware) -> (r: Result<(), Error>)
        ensures
            final(self).spec_flash_desc() == old(self).spec_flash_desc(),
            spec_entries_match_except(
                old(self).spec_entries(),
                final(self).spec_entries(),
                set![RequestType::FlashWriteErasePage],
            ),
            spec_find_section(old(self).spec_flash_desc().spec_sections(), "Application"@)
                is None ==> (r matches Err(e) && e matches Error::Error(_)),
    {
        let first_page = match self.flash_desc.get_section("Application") {
            Some(section) => section.get_flash_page_id(),
            None => {
                return Err(Error::Error("Device is not initialized".to_string()));
            },
        };

        let count = app.get_page_lst().len();
        let mut app_page_id: usize = 0;
        while app_page_id < count
            invariant
                count == app.spec_pages().len(),
                spec_find_section(old(self).spec_flash_desc().spec_sections(), "Application"@)
                    is Some,
                self.spec_flash_desc() == old(self).spec_flash_desc(),
                spec_entries_match_except(
                    old(self).spec_entries(),
                    self.spec_entries(),
                    set![RequestType::FlashWriteErasePage],
                ),
            decreases count - app_page_id,
        {
            if app_page_id <= u32::MAX as usize && app.get_page(app_page_id as u32).is_none() {
                let flash_page_id = match (app_page_id as u32).checked_add(first_page) {
                    Some(id) => id,
                    None => {
                        return Err(
                            Error::Error("Flash page id exceeds the address space".to_string()),
                        );
                    },
                };
                let ghost e_pre = self.spec_entries();
                let erase_res = self._exec_entry(RequestType::FlashWriteErasePage, flash_page_id);
                proof {
                    lemma_match_except_trans(
                        old(self).spec_entries(),
                        e_pre,
                        self.spec_entries(),
                        set![RequestType::FlashWriteErasePage],
                    );
                }
                match erase_res {
                    Ok(_) => {},
                    Err(e) => {
                        return Err(e);
                    },
                }
            }
            app_page_id = app_page_id + 1;
        }
        Ok(())
    }

    /// Verify the whole-image CRC against the device, with one recovery
    /// pass: when the first read disagrees, erase the pages the image left
    /// untouched and read once more; a second disagreement is fatal.
    fn _check_app_crc(&mut self, app: &AppFirmware) -> (r: Result<(), Error>)
        ensures
            final(self).spec_flash_desc() == old(self).spec_flash_desc(),
            spec_entries_match_except(
                old(self).spec_entries(),
                final(self).spec_entries(),
                set![RequestType::AppInfoCRCCalc, RequestType::FlashWriteErasePage],
            ),
            r is Ok ==> spec_entry_word(final(self).spec_entries(), RequestType::AppInfoCRCCalc)
                == Some(app.spec_crc()),
    {
        let ghost e0 = self.spec_entries();
        let ghost pair = set![RequestType::AppInfoCRCCalc, RequestType::FlashWriteErasePage];
        let first_check = self.is_app_crc_valid(app);
        proof {
            lemma_match_except_widen(
                e0,
                self.spec_entries(),
                set![RequestType::AppInfoCRCCalc],
                pair,
            );
        }
        let valid = match first_check {
            Ok(b) => b,
            Err(e) => {
                return Err(e);
            },
        };
        if !valid {
            // Erase stale flash in the region the image leaves untouched and
            // check again
            let ghost e1 = self.spec_entries();
            let erase_res = self._erase_unused_pages(app);
            proof {
                lemma_match_except_widen(
                    e1,
                    self.spec_entries(),
                    set![RequestType::FlashWriteErasePage],
                    pair,
                );
                lemma_match_except_trans(e0, e1, self.spec_entries(), pair);
            }
            match erase_res {
                Ok(_) => {},
                Err(e) => {
                    return Err(e);
                },
            }
            let ghost e2 = self.spec_entries();
            let second_check = self.is_app_crc_valid(app);
            proof {
                lemma_match_except_widen(
                    e2,
                    self.spec_entries(),
                    set![RequestType::AppInfoCRCCalc],
                    pair,
                );
                lemma_match_except_trans(e0, e2, self.spec_entries(), pair);
            }
            let valid_after = match second_check {
                Ok(b) => b,
                Err(e) => {
                    return Err(e);
                },
            };
            if !valid_after {
                return Err(Error::Error("CRC check failed".to_string()));
            }
        }
        Ok(())
    }

    /// Commit the whole-image CRC into the stored-CRC slot of the
    /// application region.
    fn _flash_app_crc(&mut self, crc_value: u32) -> (r: Result<(), Error>)
        ensures
            final(self).spec_flash_desc() == old(self).spec_flash_desc(),
            spec_entries_match_except(
                old(self).spec_entries(),
                final(self).spec_entries(),
                set![RequestType::FlashWriteAppCRC],
            ),
            r is Ok ==> spec_entry_word(final(self).spec_entries(), RequestType::FlashWriteAppCRC)
                == Some(crc_value),
    {
        self._exec_entry(RequestType::FlashWriteAppCRC, crc_value)
    }

    /// Write a payload to the entry accessed with `rt`.
    fn _write_entry(&mut self, rt: RequestType, packet_id: u8, data: &MsgData) -> (r: Result<
        (),
        Error,
    >)
        ensures
            final(self).spec_flash_desc() == old(self).spec_flash_desc(),
            spec_entries_match_except(
                old(self).spec_entries(),
                final(self).spec_entries(),
                set![rt],
            ),
            spec_entry_lookup(old(self).spec_entries(), rt) is None ==> (r matches Err(e)
                && e matches Error::Error(_)),
            r is Ok ==> (spec_entry_value(final(self).spec_entries(), rt) matches Some(d)
                && d.bytes() == data.bytes()),
    {
        let idx = match self.entries.index_of(rt) {
            Some(i) => i,
            None => {
                return Err(Error::Error("Device entry is unknown".to_string()));
            },
        };
        let ghost before = self.spec_entries();
        let mut entry = self.entries.remove_at(idx);
        let res = entry.write_value(&mut self.interface, packet_id, data);
        self.entries.insert_at(idx, entry);
        proof {
            assert(self.spec_entries() =~= before.update(idx as int, entry));
            if res is Ok {
                lemma_entry_lookup_update_first(before, rt, idx as int, entry);
            }
        }
        res
    }

    /// Execute the command entry accessed with `rt`.
    fn _exec_entry(&mut self, rt: RequestType, argument: u32) -> (r: Result<(), Error>)
        ensures
            final(self).spec_flash_desc() == old(self).spec_flash_desc(),
            spec_entries_match_except(
                old(self).spec_entries(),
                final(self).spec_entries(),
                set![rt],
            ),
            spec_entry_lookup(old(self).spec_entries(), rt) is None ==> (r matches Err(e)
                && e matches Error::Error(_)),
            r is Ok ==> spec_entry_word(final(self).spec_entries(), rt) == Some(argument),
    {
        let idx = match self.entries.index_of(rt) {
            Some(i) => i,
            None => {
                return Err(Error::Error("Device entry is unknown".to_string()));
            },
        };
        let ghost before = self.spec_entries();
        let mut entry = self.entries.remove_at(idx);
        let res = entry.exec(&mut self.interface, argument);
        self.entries.insert_at(idx, entry);
        proof {
            assert(self.spec_entries() =~= before.update(idx as int, entry));
            if res is Ok {
                lemma_entry_lookup_update_first(before, rt, idx as int, entry);
            }
        }
        res
    }

    /// Hand one event to the progress sink, if one is connected.
    fn _emit(&mut self, update: ProgressUpdate)
        ensures
            final(self).spec_entries() == old(self).spec_entries(),
            final(self).spec_flash_desc() == old(self).spec_flash_desc(),
    {
        match &mut self.progress {
            Some(sink) => sink.on_update(update),
            None => {},
        }
    }

    /// Hand one status message to the progress sink, if one is connected.
    fn _emit_message(&mut self, text: &str)
        ensures
            final(self).spec_entries() == old(self).spec_entries(),
            final(self).spec_flash_desc() == old(self).spec_flash_desc(),
    {
        self._emit(ProgressUpdate::Message(text.to_owned()));
    }
}

/// Updating the first entry carrying `rt` leaves the lookup at that entry.
proof fn lemma_entry_lookup_update_first(entries: Seq<Entry>, rt: RequestType, i: int, e: Entry)
    requires
        0 <= i < entries.len(),
        spec_entry_lookup(entries.take(i), rt) is None,
        entries[i].spec_request_type() == rt,
        e.spec_request_type() == rt,
    ensures
        spec_entry_lookup(entries.update(i, e), rt) == Some(e),
    decreases i,
{
    if i == 0 {
    } else {
        assert(entries.take(i).skip(1) =~= entries.skip(1).take(i - 1));
        assert(entries.update(i, e).skip(1) =~= entries.skip(1).update(i - 1, e));
        lemma_entry_lookup_update_first(entries.skip(1), rt, i - 1, e);
    }
}

/// Little-endian assembly of four 32-bit words by shifts and ors equals the
/// arithmetic composition.
proof fn lemma_uid_words(w1: u32, w2: u32, w3: u32, w4: u32, r: u128)
    requires
        r == (w1 as u128) | ((w2 as u128) << 32) | ((w3 as u128) << 64) | ((w4 as u128) << 96),
    ensures
        r == w1 + w2 * 0x1_0000_0000 + w3 * 0x1_0000_0000_0000_0000 + w4
            * 0x1_0000_0000_0000_0000_0000_0000,
{
    assert(((w1 as u128) | ((w2 as u128) << 32) | ((w3 as u128) << 64) | ((w4 as u128) << 96)) == (
    w1 as u128) + (w2 as u128) * 0x1_0000_0000 + (w3 as u128) * 0x1_0000_0000_0000_0000 + (
    w4 as u128) * 0x1_0000_0000_0000_0000_0000_0000) by (bit_vector);
}

/// Renders a bootloader version as `major.minor.patch`; relies on the
/// `format!` macro of std for the decimal rendering.
#[verifier::external_body]
fn format_version(major: u8, minor: u8, patch: u8) -> String {
    format!("{}.{}.{}", major, minor, patch)
}

} // verus!
