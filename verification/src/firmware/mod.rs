//! Firmware image assembly.
//!
//! A firmware image arrives as a sparse map from absolute byte address to
//! byte value. The assembler folds it into page-aligned flash pages padded
//! with the erased-flash value `0xFF`, computes a CRC-32 per page, and
//! computes the whole-image CRC-32 over the complete application region —
//! missing pages counted as erased — with the last four bytes (the stored-CRC
//! slot) excluded from the hash.

pub mod flash_page;
pub mod hex_file;

use crate::Error;
use crate::device::flash::FlashSection;
pub use crate::firmware::flash_page::FlashPage;
use vstd::prelude::*;

verus! {

// CRC-32 -------------------------------------------------------------------------------------------

/// The CRC-32 of a byte sequence under the ISO-HDLC (IEEE 802.3) parameters:
/// reflected, init `0xFFFFFFFF`, xor-out `0xFFFFFFFF`. The value is a
/// function of the bytes alone; it is given by the checksum routine of the
/// crc crate.
pub uninterp spec fn crc32_of(bytes: Seq<u8>) -> u32;

/// Relies on `crc::Crc::<u32>::checksum` with the `CRC_32_ISO_HDLC`
/// algorithm: the result depends on the bytes alone.
#[verifier::external_body]
pub fn crc32(bytes: &[u8]) -> (r: u32)
    ensures
        r == crc32_of(bytes@),
{
    crc::Crc::<u32>::new(&crc::CRC_32_ISO_HDLC).checksum(bytes)
}

// Firmware data ------------------------------------------------------------------------------------

/// Value of a flash byte no record writes: the erased state.
pub const FLASH_DFT_VALUE: u8 = 0xFF;

/// The byte stored for address `a` in an address-sorted entry list, if any.
pub open spec fn spec_lookup_data(s: Seq<(u32, u8)>, a: int) -> Option<u8>
    decreases s.len(),
{
    if s.len() == 0 {
        None
    } else if s[0].0 == a {
        Some(s[0].1)
    } else {
        spec_lookup_data(s.skip(1), a)
    }
}

/// A sparse byte map: firmware bytes keyed by absolute address, kept sorted
/// by strictly ascending address.
#[derive(Debug)]
pub struct FirmwareDataRaw {
    entries: Vec<(u32, u8)>,
}

impl FirmwareDataRaw {
    /// The entries, sorted by strictly ascending address.
    pub closed spec fn spec_entries(self) -> Seq<(u32, u8)> {
        self.entries@
    }

    /// The addresses are strictly ascending (hence unique).
    pub open spec fn wf(self) -> bool {
        forall|i: int, j: int|
            0 <= i < j < self.spec_entries().len() ==> (#[trigger] self.spec_entries()[i]).0 < (
            #[trigger] self.spec_entries()[j]).0
    }

    /// The map view: every stored byte under its address.
    pub open spec fn spec_as_map(self) -> Map<u32, u8> {
        Map::new(
            |a: u32| spec_lookup_data(self.spec_entries(), a as int) is Some,
            |a: u32| spec_lookup_data(self.spec_entries(), a as int)->Some_0,
        )
    }

    /// The map is empty exactly when no entry is stored.
    pub proof fn lemma_as_map_empty(self)
        requires
            self.wf(),
        ensures
            (self.spec_entries().len() == 0) <==> (self.spec_as_map().dom() =~= Set::<
                u32,
            >::empty()),
    {
        if self.spec_entries().len() > 0 {
            lemma_lookup_at(self.spec_entries(), 0);
            assert(self.spec_as_map().dom().contains(self.spec_entries()[0].0));
        }
    }

    /// True when some entry carries address `a`.
    pub open spec fn spec_contains(self, a: u32) -> bool {
        exists|i: int| 0 <= i < self.spec_entries().len() && (#[trigger] self.spec_entries()[i]).0
            == a
    }

    /// An empty map.
    pub fn new() -> (r: Self)
        ensures
            r.spec_entries() =~= Seq::<(u32, u8)>::empty(),
            r.wf(),
    {
        FirmwareDataRaw { entries: Vec::new() }
    }

    /// Number of addressed bytes.
    pub fn len(&self) -> (r: usize)
        ensures
            r == self.spec_entries().len(),
    {
        self.entries.len()
    }

    /// True when the map holds no byte.
    pub fn is_empty(&self) -> (r: bool)
        ensures
            r == (self.spec_entries().len() == 0),
    {
        self.entries.is_empty()
    }

    /// The entry at position `i` in address order.
    pub fn entry_at(&self, i: usize) -> (r: (u32, u8))
        requires
            i < self.spec_entries().len(),
        ensures
            r == self.spec_entries()[i as int],
    {
        self.entries[i]
    }

    /// Store `value` at `address`, replacing an earlier byte at the same
    /// address.
    pub fn insert(&mut self, address: u32, value: u8)
        requires
            old(self).wf(),
        ensures
            final(self).wf(),
            final(self).spec_contains(address),
            spec_lookup_data(final(self).spec_entries(), address as int) == Some(value),
            forall|a: u32|
                a != address ==> #[trigger] spec_lookup_data(final(self).spec_entries(), a as int)
                    == spec_lookup_data(old(self).spec_entries(), a as int),
            forall|i: int|
                0 <= i < final(self).spec_entries().len() ==> ((#[trigger] final(self).spec_entries()[i]) == (address, value) || (final(self).spec_entries()[i].0
                    != address && old(self).spec_entries().contains(
                    final(self).spec_entries()[i],
                ))),
            forall|i: int|
                0 <= i < old(self).spec_entries().len() && (#[trigger] old(self).spec_entries()[i]).0 != address ==> final(self).spec_entries().contains(
                    old(self).spec_entries()[i],
                ),
    {
        let n = self.entries.len();
        let mut i: usize = 0;
        while i < n
            invariant
                i <= n,
                n == self.spec_entries().len(),
                self == old(self),
                old(self).wf(),
                forall|k: int| 0 <= k < i ==> (#[trigger] self.spec_entries()[k]).0 < address,
            decreases n - i,
        {
            let a = self.entries[i].0;
            if a == address {
                let ghost before = self.spec_entries();
                self.entries.set(i, (address, value));
                proof {
                    assert(self.spec_entries() =~= before.update(i as int, (address, value)));
                    assert forall|p: int, q: int|
                        0 <= p < q < self.spec_entries().len() implies (
                    #[trigger] self.spec_entries()[p]).0 < (#[trigger] self.spec_entries()[q]).0 by {
                        assert(before[p].0 < before[q].0);
                    }
                    lemma_lookup_at(self.spec_entries(), i as int);
                    assert forall|p: int|
                        0 <= p < before.len() && (#[trigger] before[p]).0 != address implies self.spec_entries().contains(
                        before[p],
                    ) by {
                        assert(self.spec_entries()[p] == before[p]);
                    }
                    assert forall|a2: u32| a2 != address implies spec_lookup_data(
                        self.spec_entries(),
                        a2 as int,
                    ) == spec_lookup_data(before, a2 as int) by {
                        lemma_lookup_update_samekey(before, i as int, value, a2 as int);
                    }
                }
                return ;
            }
            if a > address {
                let ghost before = self.spec_entries();
                self.entries.insert(i, (address, value));
                proof {
                    assert(self.spec_entries() =~= before.insert(i as int, (address, value)));
                    assert forall|p: int, q: int|
                        0 <= p < q < self.spec_entries().len() implies (
                    #[trigger] self.spec_entries()[p]).0 < (#[trigger] self.spec_entries()[q]).0 by {
                        if p < i && q > i {
                            assert(self.spec_entries()[p] == before[p]);
                            assert(self.spec_entries()[q] == before[q - 1]);
                            assert(before[p].0 < address);
                            assert(before[i as int].0 <= before[q - 1].0);
                        } else if p == i {
                            assert(self.spec_entries()[q] == before[q - 1]);
                            assert(before[i as int].0 <= before[q - 1].0);
                        } else if q == i {
                            assert(self.spec_entries()[p] == before[p]);
                        } else if q < i {
                            assert(self.spec_entries()[p] == before[p]);
                            assert(self.spec_entries()[q] == before[q]);
                        } else {
                            assert(self.spec_entries()[p] == before[p - 1]);
                            assert(self.spec_entries()[q] == before[q - 1]);
                        }
                    }
                    lemma_lookup_at(self.spec_entries(), i as int);
                    assert forall|p: int|
                        0 <= p < before.len() && (#[trigger] before[p]).0 != address implies self.spec_entries().contains(
                        before[p],
                    ) by {
                        if p < i {
                            assert(self.spec_entries()[p] == before[p]);
                        } else {
                            assert(self.spec_entries()[p + 1] == before[p]);
                        }
                    }
                    assert forall|a2: u32| a2 != address implies spec_lookup_data(
                        self.spec_entries(),
                        a2 as int,
                    ) == spec_lookup_data(before, a2 as int) by {
                        lemma_lookup_insert_elsewhere(
                            before,
                            i as int,
                            (address, value),
                            a2 as int,
                        );
                    }
                }
                return ;
            }
            i = i + 1;
        }
        let ghost before = self.spec_entries();
        self.entries.push((address, value));
        proof {
            assert forall|p: int, q: int|
                0 <= p < q < self.spec_entries().len() implies (
            #[trigger] self.spec_entries()[p]).0 < (#[trigger] self.spec_entries()[q]).0 by {
                if q < before.len() {
                    assert(before[p].0 < before[q].0);
                } else {
                    assert(self.spec_entries()[p] == before[p]);
                    assert(before[p].0 < address);
                }
            }
            lemma_lookup_at(self.spec_entries(), n as int);
            assert forall|p: int|
                0 <= p < before.len() && (#[trigger] before[p]).0 != address implies self.spec_entries().contains(
                before[p],
            ) by {
                assert(self.spec_entries()[p] == before[p]);
            }
            assert forall|a2: u32| a2 != address implies spec_lookup_data(
                self.spec_entries(),
                a2 as int,
            ) == spec_lookup_data(before, a2 as int) by {
                lemma_lookup_push(before, (address, value), a2 as int);
            }
        }
    }

    /// The byte stored at `address`, if any.
    pub fn get(&self, address: u32) -> (r: Option<u8>)
        ensures
            r == spec_lookup_data(self.spec_entries(), address as int),
    {
        let n = self.entries.len();
        let mut i: usize = 0;
        while i < n
            invariant
                i <= n,
                n == self.spec_entries().len(),
                spec_lookup_data(self.spec_entries().take(i as int), address as int) is None,
            decreases n - i,
        {
            if self.entries[i].0 == address {
                proof {
                    lemma_lookup_data_take(self.spec_entries(), address as int, i as int);
                }
                return Some(self.entries[i].1);
            }
            proof {
                lemma_lookup_data_take_step(self.spec_entries(), address as int, i as int);
            }
            i = i + 1;
        }
        proof {
            assert(self.spec_entries().take(n as int) =~= self.spec_entries());
        }
        None
    }
}

/// When the entries before `i` miss the address and entry `i` carries it,
/// the lookup finds entry `i`'s byte.
proof fn lemma_lookup_data_take(s: Seq<(u32, u8)>, a: int, i: int)
    requires
        0 <= i < s.len(),
        spec_lookup_data(s.take(i), a) is None,
        s[i].0 == a,
    ensures
        spec_lookup_data(s, a) == Some(s[i].1),
    decreases i,
{
    if i == 0 {
    } else {
        assert(s.take(i).skip(1) =~= s.skip(1).take(i - 1));
        lemma_lookup_data_take(s.skip(1), a, i - 1);
    }
}

/// When the entries before `i` miss the address and entry `i` misses it too,
/// the entries before `i + 1` miss it.
proof fn lemma_lookup_data_take_step(s: Seq<(u32, u8)>, a: int, i: int)
    requires
        0 <= i < s.len(),
        spec_lookup_data(s.take(i), a) is None,
        s[i].0 != a,
    ensures
        spec_lookup_data(s.take(i + 1), a) is None,
    decreases i,
{
    assert(s.take(i + 1).skip(1) =~= s.skip(1).take(i));
    if i == 0 {
        assert(spec_lookup_data(s.skip(1).take(0), a) is None);
    } else {
        assert(s.take(i).skip(1) =~= s.skip(1).take(i - 1));
        lemma_lookup_data_take_step(s.skip(1), a, i - 1);
    }
}

/// In a strictly ascending entry list the lookup finds exactly the entry
/// whose address is asked for.
pub proof fn lemma_lookup_at(s: Seq<(u32, u8)>, i: int)
    requires
        0 <= i < s.len(),
        forall|p: int, q: int| 0 <= p < q < s.len() ==> (#[trigger] s[p]).0 < (#[trigger] s[q]).0,
    ensures
        spec_lookup_data(s, s[i].0 as int) == Some(s[i].1),
    decreases i,
{
    if i == 0 {
    } else {
        lemma_lookup_at(s.skip(1), i - 1);
    }
}

/// The lookup on a sequence extended by one entry falls back to the new
/// entry only where the old entries give nothing.
proof fn lemma_lookup_push(s: Seq<(u32, u8)>, e: (u32, u8), a: int)
    ensures
        spec_lookup_data(s, a) is Some ==> spec_lookup_data(s.push(e), a) == spec_lookup_data(
            s,
            a,
        ),
        spec_lookup_data(s, a) is None && e.0 == a ==> spec_lookup_data(s.push(e), a) == Some(e.1),
        spec_lookup_data(s, a) is None && e.0 != a ==> spec_lookup_data(s.push(e), a) is None,
    decreases s.len(),
{
    reveal_with_fuel(spec_lookup_data, 3);
    if s.len() == 0 {
        assert(s.push(e)[0] == e);
        assert(s.push(e).skip(1) =~= Seq::<(u32, u8)>::empty());
        if e.0 == a {
            assert(spec_lookup_data(s.push(e), a) == Some(e.1));
        }
    } else {
        assert(s.push(e)[0] == s[0]);
        assert(s.push(e).skip(1) =~= s.skip(1).push(e));
        lemma_lookup_push(s.skip(1), e, a);
        if s[0].0 == a {
            assert(spec_lookup_data(s.push(e), a) == Some(s[0].1));
            assert(spec_lookup_data(s, a) == Some(s[0].1));
        } else {
            assert(spec_lookup_data(s.push(e), a) == spec_lookup_data(s.skip(1).push(e), a));
            assert(spec_lookup_data(s, a) == spec_lookup_data(s.skip(1), a));
        }
    }
}

/// Replacing the byte of an entry leaves every other address's lookup
/// unchanged.
proof fn lemma_lookup_update_samekey(s: Seq<(u32, u8)>, i: int, v: u8, a: int)
    requires
        0 <= i < s.len(),
        a != s[i].0,
    ensures
        spec_lookup_data(s.update(i, (s[i].0, v)), a) == spec_lookup_data(s, a),
    decreases i,
{
    let s2 = s.update(i, (s[i].0, v));
    if i == 0 {
        assert(s2.skip(1) =~= s.skip(1));
    } else {
        assert(s2[0] == s[0]);
        if s[0].0 != a {
            assert(s2.skip(1) =~= s.skip(1).update(i - 1, (s[i].0, v)));
            assert(s.skip(1)[i - 1] == s[i]);
            lemma_lookup_update_samekey(s.skip(1), i - 1, v, a);
        }
    }
}

/// Inserting an entry under a different address leaves an address's lookup
/// unchanged.
proof fn lemma_lookup_insert_elsewhere(s: Seq<(u32, u8)>, i: int, e: (u32, u8), a: int)
    requires
        0 <= i <= s.len(),
        a != e.0,
    ensures
        spec_lookup_data(s.insert(i, e), a) == spec_lookup_data(s, a),
    decreases i,
{
    let s2 = s.insert(i, e);
    if i == 0 {
        assert(s2[0] == e);
        assert(s2.skip(1) =~= s);
    } else {
        assert(s2[0] == s[0]);
        if s[0].0 != a {
            assert(s2.skip(1) =~= s.skip(1).insert(i - 1, e));
            lemma_lookup_insert_elsewhere(s.skip(1), i - 1, e, a);
        }
    }
}

/// Provider of firmware data: anything that can hand out a sparse byte map.
pub trait FirmwareDataInterface {
    /// The firmware bytes by absolute address, if any were loaded.
    fn get_firmware_data(&self) -> (r: Option<&FirmwareDataRaw>)
        ensures
            r matches Some(d) ==> d.wf(),
    ;
}

// Pages --------------------------------------------------------------------------------------------

/// The first page in `pages` carrying `id`, if any.
pub open spec fn spec_page_with_id(pages: Seq<FlashPage>, id: u32) -> Option<FlashPage>
    decreases pages.len(),
{
    if pages.len() == 0 {
        None
    } else if pages[0].spec_id() == id {
        Some(pages[0])
    } else {
        spec_page_with_id(pages.skip(1), id)
    }
}

/// When the pages before `i` miss the id and page `i` carries it, the search
/// finds page `i`.
proof fn lemma_page_with_id_take(pages: Seq<FlashPage>, id: u32, i: int)
    requires
        0 <= i < pages.len(),
        spec_page_with_id(pages.take(i), id) is None,
        pages[i].spec_id() == id,
    ensures
        spec_page_with_id(pages, id) == Some(pages[i]),
    decreases i,
{
    if i == 0 {
    } else {
        assert(pages.take(i).skip(1) =~= pages.skip(1).take(i - 1));
        lemma_page_with_id_take(pages.skip(1), id, i - 1);
    }
}

/// When the pages before `i` miss the id and page `i` misses it too, the
/// pages before `i + 1` miss it.
proof fn lemma_page_with_id_take_step(pages: Seq<FlashPage>, id: u32, i: int)
    requires
        0 <= i < pages.len(),
        spec_page_with_id(pages.take(i), id) is None,
        pages[i].spec_id() != id,
    ensures
        spec_page_with_id(pages.take(i + 1), id) is None,
    decreases i,
{
    assert(pages.take(i + 1).skip(1) =~= pages.skip(1).take(i));
    if i == 0 {
        assert(spec_page_with_id(pages.skip(1).take(0), id) is None);
    } else {
        assert(pages.take(i).skip(1) =~= pages.skip(1).take(i - 1));
        lemma_page_with_id_take_step(pages.skip(1), id, i - 1);
    }
}

/// Appending a page leaves every id the old pages answer for unchanged and
/// makes the new page the answer for a fresh id.
proof fn lemma_page_with_id_push(pages: Seq<FlashPage>, p: FlashPage, id: u32)
    ensures
        spec_page_with_id(pages, id) is Some ==> spec_page_with_id(pages.push(p), id)
            == spec_page_with_id(pages, id),
        spec_page_with_id(pages, id) is None && p.spec_id() == id ==> spec_page_with_id(
            pages.push(p),
            id,
        ) == Some(p),
        spec_page_with_id(pages, id) is None && p.spec_id() != id ==> spec_page_with_id(
            pages.push(p),
            id,
        ) is None,
    decreases pages.len(),
{
    reveal_with_fuel(spec_page_with_id, 3);
    if pages.len() == 0 {
        assert(pages.push(p)[0] == p);
        assert(pages.push(p).skip(1) =~= Seq::<FlashPage>::empty());
    } else {
        assert(pages.push(p)[0] == pages[0]);
        assert(pages.push(p).skip(1) =~= pages.skip(1).push(p));
        lemma_page_with_id_push(pages.skip(1), p, id);
        if pages[0].spec_id() == id {
            assert(spec_page_with_id(pages.push(p), id) == Some(pages[0]));
        } else {
            assert(spec_page_with_id(pages.push(p), id) == spec_page_with_id(
                pages.skip(1).push(p),
                id,
            ));
            assert(spec_page_with_id(pages, id) == spec_page_with_id(pages.skip(1), id));
        }
    }
}

/// Index of the first page carrying `id`, if any.
fn page_index_of(pages: &Vec<FlashPage>, id: u32) -> (r: Option<usize>)
    ensures
        match r {
            Some(i) => i < pages@.len() && pages@[i as int].spec_id() == id && spec_page_with_id(
                pages@,
                id,
            ) == Some(pages@[i as int]) && spec_page_with_id(pages@.take(i as int), id) is None,
            None => spec_page_with_id(pages@, id) is None,
        },
{
    let n = pages.len();
    let mut i: usize = 0;
    while i < n
        invariant
            i <= n,
            n == pages@.len(),
            spec_page_with_id(pages@.take(i as int), id) is None,
        decreases n - i,
    {
        if pages[i].get_id() == id {
            proof {
                lemma_page_with_id_take(pages@, id, i as int);
            }
            return Some(i);
        }
        proof {
            lemma_page_with_id_take_step(pages@, id, i as int);
        }
        i = i + 1;
    }
    proof {
        assert(pages@.take(n as int) =~= pages@);
    }
    None
}

// Firmware -----------------------------------------------------------------------------------------

/// The bytes of pages `[0, n)` of a region: each page's bytes where the page
/// exists, one page of `0xFF` where it does not.
pub open spec fn spec_region_bytes(pages: Seq<FlashPage>, ps: u32, n: int) -> Seq<u8>
    decreases n,
{
    if n <= 0 {
        Seq::empty()
    } else {
        spec_region_bytes(pages, ps, n - 1) + (match spec_page_with_id(pages, (n - 1) as u32) {
            Some(p) => p.spec_bytes(),
            None => Seq::new(ps as nat, |_k: int| FLASH_DFT_VALUE),
        })
    }
}

/// Application firmware: the pages assembled so far over a region of
/// `flash_num_pages` pages of `flash_page_size` bytes starting at
/// `app_start_address`, and the whole-image CRC.
pub struct AppFirmware {
    app_start_address: u32,
    flash_page_size: u32,
    flash_num_pages: u32,
    page_lst: Vec<FlashPage>,
    crc: u32,
}

impl AppFirmware {
    /// Start address of the region the image is laid out for.
    pub closed spec fn spec_app_start_address(self) -> u32 {
        self.app_start_address
    }

    /// Page size of the region.
    pub closed spec fn spec_flash_page_size(self) -> u32 {
        self.flash_page_size
    }

    /// Number of pages of the region.
    pub closed spec fn spec_flash_num_pages(self) -> u32 {
        self.flash_num_pages
    }

    /// The assembled pages, in insertion order.
    pub closed spec fn spec_pages(self) -> Seq<FlashPage> {
        self.page_lst@
    }

    /// The stored whole-image CRC.
    pub closed spec fn spec_crc(self) -> u32 {
        self.crc
    }

    /// Every page is one page long, lies in the region, carries the address
    /// of its page id, and no id repeats.
    pub open spec fn wf(self) -> bool {
        &&& forall|k: int|
            0 <= k < self.spec_pages().len() ==> {
                let p = #[trigger] self.spec_pages()[k];
                p.spec_bytes().len() == self.spec_flash_page_size() && p.spec_id()
                    < self.spec_flash_num_pages() && p.spec_address() == self.spec_app_start_address()
                    + p.spec_id() * self.spec_flash_page_size()
            }
        &&& forall|k: int, l: int|
            0 <= k < l < self.spec_pages().len() ==> (#[trigger] self.spec_pages()[k]).spec_id() != (
            #[trigger] self.spec_pages()[l]).spec_id()
    }

    /// An address lies outside the image region: below its start, or in a
    /// region without pages, or past its last page.
    pub open spec fn spec_addr_invalid(self, a: u32) -> bool {
        ||| a < self.spec_app_start_address()
        ||| self.spec_flash_page_size() == 0
        ||| (a - self.spec_app_start_address()) / (self.spec_flash_page_size() as int)
            >= self.spec_flash_num_pages()
    }

    /// The byte the assembled image holds at page `id`, offset `j`, after
    /// folding `data` over the pages `old_pages`: the mapped byte if `data`
    /// addresses it, else the byte an earlier page held, else erased flash.
    pub open spec fn spec_expected_byte(
        start: u32,
        ps: u32,
        old_pages: Seq<FlashPage>,
        data: Seq<(u32, u8)>,
        id: u32,
        j: int,
    ) -> u8 {
        match spec_lookup_data(data, start + id * ps + j) {
            Some(v) => v,
            None => match spec_page_with_id(old_pages, id) {
                Some(p) => p.spec_bytes()[j],
                None => FLASH_DFT_VALUE,
            },
        }
    }

    /// The whole-image bytes the CRC is computed over: all pages of the
    /// region in ascending id order, missing pages counted as erased, with
    /// the four bytes of the stored-CRC slot removed from the end.
    pub open spec fn spec_app_image(self) -> Seq<u8> {
        let full = spec_region_bytes(
            self.spec_pages(),
            self.spec_flash_page_size(),
            self.spec_flash_num_pages() as int,
        );
        if full.len() >= 4 {
            full.take(full.len() - 4)
        } else {
            Seq::empty()
        }
    }

    /// An empty image over a region starting at `app_start_address` with
    /// `flash_num_pages` pages of `flash_page_size` bytes.
    pub fn new(app_start_address: u32, flash_page_size: u32, flash_num_pages: u32) -> (r: Self)
        ensures
            r.spec_app_start_address() == app_start_address,
            r.spec_flash_page_size() == flash_page_size,
            r.spec_flash_num_pages() == flash_num_pages,
            r.spec_pages() =~= Seq::<FlashPage>::empty(),
            r.spec_crc() == 0,
            r.wf(),
    {
        AppFirmware {
            app_start_address,
            flash_page_size,
            flash_num_pages,
            page_lst: Vec::new(),
            crc: 0,
        }
    }

    /// An empty image laid out for a flash section.
    pub fn from_section(section: &FlashSection) -> (r: Self)
        ensures
            r.spec_app_start_address() == section.spec_address(),
            r.spec_flash_page_size() == section.spec_page_size(),
            r.spec_flash_num_pages() == section.spec_num_pages(),
            r.spec_pages() =~= Seq::<FlashPage>::empty(),
            r.spec_crc() == 0,
            r.wf(),
    {
        AppFirmware::new(section.get_address(), section.get_page_size(), section.get_num_pages())
    }

    /// Fold a sparse byte map into the image.
    ///
    /// Walks the mapped bytes in ascending address order, allocates an
    /// erased page for every page id not seen yet, places each byte at its
    /// offset within its page, and finally recomputes every per-page CRC and
    /// the whole-image CRC. Fails, possibly after placing earlier bytes,
    /// exactly when the map addresses a byte outside the image region — in
    /// particular any address below the region start.
    #[verifier::rlimit(50)]
    pub fn append_firmware(&mut self, data_raw: &FirmwareDataRaw) -> (r: Result<(), Error>)
        requires
            old(self).wf(),
            data_raw.wf(),
        ensures
            final(self).wf(),
            final(self).spec_app_start_address() == old(self).spec_app_start_address(),
            final(self).spec_flash_page_size() == old(self).spec_flash_page_size(),
            final(self).spec_flash_num_pages() == old(self).spec_flash_num_pages(),
            r is Err <==> (exists|i: int|
                0 <= i < data_raw.spec_entries().len() && old(self).spec_addr_invalid(
                    (#[trigger] data_raw.spec_entries()[i]).0,
                )),
            r matches Err(e) ==> e matches Error::Error(_),
            r is Ok ==> {
                let start = old(self).spec_app_start_address();
                let ps = old(self).spec_flash_page_size();
                &&& (forall|k: int, j: int|
                    0 <= k < final(self).spec_pages().len() && 0 <= j < ps ==> (#[trigger] final(self).spec_pages()[k].spec_bytes()[j]) == AppFirmware::spec_expected_byte(
                        start,
                        ps,
                        old(self).spec_pages(),
                        data_raw.spec_entries(),
                        final(self).spec_pages()[k].spec_id(),
                        j,
                    ))
                &&& (forall|k: int|
                    0 <= k < final(self).spec_pages().len() ==> (#[trigger] final(self).spec_pages()[k]).spec_crc() == crc32_of(
                        final(self).spec_pages()[k].spec_bytes(),
                    ))
                &&& (forall|id: u32|
                    spec_page_with_id(final(self).spec_pages(), id) is Some <==> (
                    spec_page_with_id(old(self).spec_pages(), id) is Some || exists|i: int|
                        0 <= i < data_raw.spec_entries().len() && (
                        #[trigger] data_raw.spec_entries()[i]).0 >= start && ((
                        data_raw.spec_entries()[i].0 - start) / (ps as int) == id)))
                &&& final(self).spec_crc() == crc32_of(final(self).spec_app_image())
            },
    {
        let ghost start = self.app_start_address;
        let ghost ps = self.flash_page_size;
        let ghost old_pages = self.page_lst@;
        let ghost data = data_raw.spec_entries();

        proof {
            assert forall|k: int, j: int|
                0 <= k < self.spec_pages().len() && 0 <= j < ps implies (
            #[trigger] self.spec_pages()[k].spec_bytes()[j]) == AppFirmware::spec_expected_byte(
                start,
                ps,
                old_pages,
                data.take(0),
                self.spec_pages()[k].spec_id(),
                j,
            ) by {
                lemma_page_with_id_unique(old_pages, k);
            }
        }

        let n = data_raw.len();
        let mut m: usize = 0;
        while m < n
            invariant
                m <= n,
                n == data.len(),
                data == data_raw.spec_entries(),
                data_raw.wf(),
                self.wf(),
                self.spec_app_start_address() == start,
                self.spec_flash_page_size() == ps,
                self.spec_flash_num_pages() == old(self).spec_flash_num_pages(),
                old(self).wf(),
                old(self).spec_app_start_address() == start,
                old(self).spec_flash_page_size() == ps,
                old_pages == old(self).spec_pages(),
                forall|i: int| 0 <= i < m ==> !old(self).spec_addr_invalid((#[trigger] data[i]).0),
                forall|id: u32|
                    (#[trigger] spec_page_with_id(self.spec_pages(), id)) is Some <==> (
                    spec_page_with_id(old_pages, id) is Some || exists|i: int|
                        0 <= i < m && (#[trigger] data[i]).0 >= start && ((data[i].0 - start) / (
                        ps as int) == id)),
                forall|k: int, j: int|
                    0 <= k < self.spec_pages().len() && 0 <= j < ps ==> (#[trigger] self.spec_pages()[k].spec_bytes()[j])
                        == AppFirmware::spec_expected_byte(
                        start,
                        ps,
                        old_pages,
                        data.take(m as int),
                        self.spec_pages()[k].spec_id(),
                        j,
                    ),
            decreases n - m,
        {
            let (byte_address, byte_value) = data_raw.entry_at(m);

            // The byte must lie in the image region
            if byte_address < self.app_start_address || self.flash_page_size == 0 {
                return Err(Error::Error("Firmware byte address is outside the region".to_string()));
            }
            let page_id = (byte_address - self.app_start_address) / self.flash_page_size;
            if page_id >= self.flash_num_pages {
                return Err(Error::Error("Firmware byte address is past the region end".to_string()));
            }
            let page_byte_idx = (byte_address - self.app_start_address) % self.flash_page_size;

            proof {
                vstd::arithmetic::div_mod::lemma_fundamental_div_mod(
                    (byte_address - start) as int,
                    ps as int,
                );
                vstd::arithmetic::div_mod::lemma_mod_bound((byte_address - start) as int, ps as int);
                vstd::arithmetic::mul::lemma_mul_is_commutative(ps as int, page_id as int);
                assert(byte_address == start + page_id * ps + page_byte_idx);
            }

            // Find the byte's page, allocating an erased page on first touch
            let idx = match page_index_of(&self.page_lst, page_id) {
                Some(idx) => idx,
                None => {
                    let page_address = byte_address - page_byte_idx;
                    let fill: Vec<u8> = vec![FLASH_DFT_VALUE; self.flash_page_size as usize];
                    let page = FlashPage::new(page_id, page_address, fill);
                    let ghost pages0 = self.spec_pages();
                    let i = self.page_lst.len();
                    self.page_lst.push(page);
                    proof {
                        lemma_page_with_id_index(pages0, page_id);
                        // The fresh page holds what folding the first m bytes leaves
                        // at an untouched page id: erased flash everywhere.
                        assert forall|j: int| 0 <= j < ps implies page.spec_bytes()[j]
                            == AppFirmware::spec_expected_byte(
                            start,
                            ps,
                            old_pages,
                            data.take(m as int),
                            page_id,
                            j,
                        ) by {
                            let aj = start + page_id * ps + j;
                            vstd::arithmetic::mul::lemma_mul_nonnegative(
                                page_id as int,
                                ps as int,
                            );
                            if spec_lookup_data(data.take(m as int), aj) is Some {
                                lemma_lookup_some_exists(data.take(m as int), aj);
                                let i0 = choose|i0: int|
                                    0 <= i0 < data.take(m as int).len() && (#[trigger] data.take(
                                        m as int,
                                    )[i0]).0 == aj;
                                vstd::arithmetic::div_mod::lemma_fundamental_div_mod_converse(
                                    aj - start,
                                    ps as int,
                                    page_id as int,
                                    j,
                                );
                                assert(data[i0].0 == aj && data[i0].0 >= start);
                                assert((data[i0].0 - start) / (ps as int) == page_id);
                                assert(exists|i2: int|
                                    0 <= i2 < m && (#[trigger] data[i2]).0 >= start && ((data[i2].0
                                        - start) / (ps as int) == page_id));
                                assert(spec_page_with_id(pages0, page_id) is Some);
                                assert(false);
                            }
                        }
                        // Old pages keep their bytes and the search answers
                        assert forall|id: u32| true implies #[trigger] spec_page_with_id(
                            self.spec_pages(),
                            id,
                        ) == (if id == page_id {
                            Some(page)
                        } else {
                            spec_page_with_id(pages0, id)
                        }) by {
                            lemma_page_with_id_push(pages0, page, id);
                        }
                    }
                    i
                },
            };

            let ghost pages_before = self.spec_pages();
            let ghost pb = pages_before[idx as int];

            // Place the byte
            let mut page = self.page_lst.remove(idx);
            page.set_byte(page_byte_idx as usize, byte_value);
            self.page_lst.insert(idx, page);

            proof {
                let a = byte_address;
                let v = byte_value;
                let j0 = page_byte_idx as int;
                assert(self.spec_pages() =~= pages_before.update(idx as int, page));
                assert(data.take(m + 1) =~= data.take(m as int).push(data[m as int]));
                // No earlier entry addresses this byte: the map is strictly
                // ascending.
                assert(spec_lookup_data(data.take(m as int), a as int) is None) by {
                    if spec_lookup_data(data.take(m as int), a as int) is Some {
                        lemma_lookup_some_exists(data.take(m as int), a as int);
                        let i0 = choose|i0: int|
                            0 <= i0 < m && (#[trigger] data.take(m as int)[i0]).0 == a;
                        assert(data[i0].0 < data[m as int].0);
                        assert(false);
                    }
                }
                // Content invariant after placing the byte
                assert forall|k: int, j: int|
                    0 <= k < self.spec_pages().len() && 0 <= j < ps implies (
                #[trigger] self.spec_pages()[k].spec_bytes()[j]) == AppFirmware::spec_expected_byte(
                    start,
                    ps,
                    old_pages,
                    data.take(m + 1),
                    self.spec_pages()[k].spec_id(),
                    j,
                ) by {
                    let id_k = self.spec_pages()[k].spec_id();
                    let aj = start + id_k * ps + j;
                    lemma_lookup_push(data.take(m as int), data[m as int], aj);
                    if k == idx {
                        if j != j0 {
                            assert(aj != a);
                        }
                    } else {
                        // A different page has a different id, so a different
                        // address for every offset.
                        assert(id_k != page_id);
                        if aj == a {
                            vstd::arithmetic::mul::lemma_mul_is_commutative(
                                id_k as int,
                                ps as int,
                            );
                            vstd::arithmetic::div_mod::lemma_fundamental_div_mod_converse(
                                aj - start,
                                ps as int,
                                id_k as int,
                                j,
                            );
                            vstd::arithmetic::div_mod::lemma_fundamental_div_mod_converse(
                                a - start,
                                ps as int,
                                page_id as int,
                                j0,
                            );
                            assert(false);
                        }
                    }
                }
                // The set of assembled page ids grows exactly by this byte's page
                assert forall|id: u32| true implies (#[trigger] spec_page_with_id(
                    self.spec_pages(),
                    id,
                ) is Some <==> (spec_page_with_id(old_pages, id) is Some || exists|i: int|
                    0 <= i < m + 1 && (#[trigger] data[i]).0 >= start && ((data[i].0 - start) / (
                    ps as int) == id))) by {
                    lemma_page_with_id_same_ids(pages_before, self.spec_pages(), id);
                    if id == page_id {
                        lemma_page_with_id_index(pages_before, page_id);
                        assert(data[m as int].0 >= start && ((data[m as int].0 - start) / (
                        ps as int) == page_id));
                    }
                }
            }

            m = m + 1;
        }
        proof {
            assert(data.take(n as int) =~= data);
        }

        // Recompute every per-page CRC
        let ghost pages_mid = self.spec_pages();
        let pcount = self.page_lst.len();
        let mut k: usize = 0;
        while k < pcount
            invariant
                k <= pcount,
                pcount == self.spec_pages().len(),
                pcount == pages_mid.len(),
                self.wf(),
                self.spec_app_start_address() == start,
                self.spec_flash_page_size() == ps,
                self.spec_flash_num_pages() == old(self).spec_flash_num_pages(),
                forall|l: int|
                    0 <= l < pcount ==> (#[trigger] self.spec_pages()[l]).spec_id()
                        == pages_mid[l].spec_id() && self.spec_pages()[l].spec_bytes()
                        == pages_mid[l].spec_bytes(),
                forall|l: int|
                    0 <= l < k ==> (#[trigger] self.spec_pages()[l]).spec_crc() == crc32_of(
                        self.spec_pages()[l].spec_bytes(),
                    ),
            decreases pcount - k,
        {
            let ghost pages_before = self.spec_pages();
            let mut page = self.page_lst.remove(k);
            page.calculate_crc();
            self.page_lst.insert(k, page);
            proof {
                assert(self.spec_pages() =~= pages_before.update(k as int, page));
            }
            k = k + 1;
        }
        proof {
            // Bytes and ids did not change while the CRCs were filled in
            assert forall|k2: int, j: int|
                0 <= k2 < self.spec_pages().len() && 0 <= j < ps implies (
            #[trigger] self.spec_pages()[k2].spec_bytes()[j]) == AppFirmware::spec_expected_byte(
                start,
                ps,
                old_pages,
                data,
                self.spec_pages()[k2].spec_id(),
                j,
            ) by {
                assert(pages_mid[k2].spec_bytes()[j] == AppFirmware::spec_expected_byte(
                    start,
                    ps,
                    old_pages,
                    data,
                    pages_mid[k2].spec_id(),
                    j,
                ));
            }
            assert forall|id: u32| true implies (#[trigger] spec_page_with_id(
                self.spec_pages(),
                id,
            ) is Some <==> spec_page_with_id(pages_mid, id) is Some) by {
                lemma_page_with_id_same_ids(pages_mid, self.spec_pages(), id);
            }
        }

        // Recompute the whole-image CRC
        self._calc_app_crc();

        Ok(())
    }

    // Getters ------------------------------------------------------------------------------------

    /// The whole-image CRC-32.
    pub fn get_crc(&self) -> (r: u32)
        ensures
            r == self.spec_crc(),
    {
        self.crc
    }

    /// The page carrying `page_id`, if the image holds one.
    pub fn get_page(&self, page_id: u32) -> (r: Option<&FlashPage>)
        ensures
            match r {
                Some(p) => spec_page_with_id(self.spec_pages(), page_id) == Some(*p),
                None => spec_page_with_id(self.spec_pages(), page_id) is None,
            },
    {
        match page_index_of(&self.page_lst, page_id) {
            Some(i) => Some(&self.page_lst[i]),
            None => None,
        }
    }

    /// The assembled pages, in insertion order.
    pub fn get_page_lst(&self) -> (r: &Vec<FlashPage>)
        ensures
            r@ == self.spec_pages(),
    {
        &self.page_lst
    }

    /// Start address of the region the image is laid out for.
    pub fn get_app_start_address(&self) -> (r: u32)
        ensures
            r == self.spec_app_start_address(),
    {
        self.app_start_address
    }

    /// Page size of the region.
    pub fn get_flash_page_size(&self) -> (r: u32)
        ensures
            r == self.spec_flash_page_size(),
    {
        self.flash_page_size
    }

    /// Number of pages of the region.
    pub fn get_flash_num_pages(&self) -> (r: u32)
        ensures
            r == self.spec_flash_num_pages(),
    {
        self.flash_num_pages
    }

    // Private Functions --------------------------------------------------------------------------

    /// Compute the whole-image CRC over the region bytes, missing pages
    /// counted as erased, with the last four bytes excluded.
    fn _calc_app_crc(&mut self)
        requires
            old(self).wf(),
        ensures
            final(self).spec_pages() == old(self).spec_pages(),
            final(self).spec_app_start_address() == old(self).spec_app_start_address(),
            final(self).spec_flash_page_size() == old(self).spec_flash_page_size(),
            final(self).spec_flash_num_pages() == old(self).spec_flash_num_pages(),
            final(self).wf(),
            final(self).spec_crc() == crc32_of(final(self).spec_app_image()),
    {
        let mut app_flash: Vec<u8> = Vec::new();
        let mut page_id: u32 = 0;
        while page_id < self.flash_num_pages
            invariant
                page_id <= self.spec_flash_num_pages(),
                self.wf(),
                self == old(self),
                app_flash@ =~= spec_region_bytes(
                    self.spec_pages(),
                    self.spec_flash_page_size(),
                    page_id as int,
                ),
            decreases self.spec_flash_num_pages() - page_id,
        {
            match page_index_of(&self.page_lst, page_id) {
                Some(i) => {
                    let page = &self.page_lst[i];
                    app_flash.extend_from_slice(page.get_bytes().as_slice());
                },
                None => {
                    let mut fill: Vec<u8> = vec![FLASH_DFT_VALUE; self.flash_page_size as usize];
                    proof {
                        assert(fill@ =~= Seq::new(
                            self.spec_flash_page_size() as nat,
                            |_k: int| FLASH_DFT_VALUE,
                        ));
                    }
                    app_flash.append(&mut fill);
                },
            }
            page_id = page_id + 1;
        }

        // The last four bytes of the region store the CRC itself and are not
        // part of the hash
        let total = app_flash.len();
        let keep = if total >= 4 {
            total - 4
        } else {
            0
        };
        app_flash.truncate(keep);
        proof {
            if total < 4 {
                assert(app_flash@ =~= Seq::<u8>::empty());
            }
        }

        self.crc = crc32(app_flash.as_slice());
    }
}

/// An address strictly below the start of the image region is outside it:
/// by the contract of [`AppFirmware::append_firmware`], folding a map that
/// holds such an address fails.
pub proof fn lemma_address_below_region_is_invalid(fw: AppFirmware, a: u32)
    requires
        a < fw.spec_app_start_address(),
    ensures
        fw.spec_addr_invalid(a),
{
}

/// A successful lookup names an entry of the list.
proof fn lemma_lookup_some_exists(s: Seq<(u32, u8)>, a: int)
    requires
        spec_lookup_data(s, a) is Some,
    ensures
        exists|i: int| 0 <= i < s.len() && (#[trigger] s[i]).0 == a,
    decreases s.len(),
{
    if s.len() == 0 {
    } else if s[0].0 == a {
        assert(s[0].0 == a);
    } else {
        lemma_lookup_some_exists(s.skip(1), a);
        let i0 = choose|i0: int| 0 <= i0 < s.skip(1).len() && (#[trigger] s.skip(1)[i0]).0 == a;
        assert(s[i0 + 1].0 == a);
    }
}

/// A page id is found exactly when some page of the list carries it.
pub proof fn lemma_page_with_id_index(pages: Seq<FlashPage>, id: u32)
    ensures
        spec_page_with_id(pages, id) is Some <==> exists|k: int|
            0 <= k < pages.len() && (#[trigger] pages[k]).spec_id() == id,
    decreases pages.len(),
{
    if pages.len() == 0 {
    } else if pages[0].spec_id() == id {
        assert(pages[0].spec_id() == id);
    } else {
        lemma_page_with_id_index(pages.skip(1), id);
        if spec_page_with_id(pages, id) is Some {
            let k0 = choose|k0: int|
                0 <= k0 < pages.skip(1).len() && (#[trigger] pages.skip(1)[k0]).spec_id() == id;
            assert(pages[k0 + 1].spec_id() == id);
        }
        if exists|k: int| 0 <= k < pages.len() && (#[trigger] pages[k]).spec_id() == id {
            let k0 = choose|k0: int| 0 <= k0 < pages.len() && (#[trigger] pages[k0]).spec_id() == id;
            assert(pages.skip(1)[k0 - 1].spec_id() == id);
        }
    }
}

/// With pairwise distinct page ids, the search for page `k`'s id finds page
/// `k` itself.
proof fn lemma_page_with_id_unique(pages: Seq<FlashPage>, k: int)
    requires
        0 <= k < pages.len(),
        forall|p: int, q: int|
            0 <= p < q < pages.len() ==> (#[trigger] pages[p]).spec_id() != (
            #[trigger] pages[q]).spec_id(),
    ensures
        spec_page_with_id(pages, pages[k].spec_id()) == Some(pages[k]),
    decreases k,
{
    if k == 0 {
    } else {
        assert(pages[0].spec_id() != pages[k].spec_id());
        lemma_page_with_id_unique(pages.skip(1), k - 1);
    }
}

/// Two page lists whose pages carry the same ids position by position answer
/// the same searches.
proof fn lemma_page_with_id_same_ids(p1: Seq<FlashPage>, p2: Seq<FlashPage>, id: u32)
    requires
        p1.len() == p2.len(),
        forall|l: int| 0 <= l < p1.len() ==> (#[trigger] p1[l]).spec_id() == p2[l].spec_id(),
    ensures
        spec_page_with_id(p1, id) is Some <==> spec_page_with_id(p2, id) is Some,
    decreases p1.len(),
{
    if p1.len() == 0 {
    } else if p1[0].spec_id() == id {
    } else {
        assert(forall|l: int|
            0 <= l < p1.skip(1).len() ==> (#[trigger] p1.skip(1)[l]).spec_id() == p2.skip(1)[l].spec_id());
        lemma_page_with_id_same_ids(p1.skip(1), p2.skip(1), id);
    }
}

// Flash page list ------------------------------------------------------------------------------------

/// The pages of a firmware image as a plain list, looked up by page id.
pub struct FlashPageList {
    page_vec: Vec<FlashPage>,
}

impl FlashPageList {
    /// The pages, in insertion order.
    pub closed spec fn spec_pages(self) -> Seq<FlashPage> {
        self.page_vec@
    }

    /// An empty list.
    pub fn new() -> (r: FlashPageList)
        ensures
            r.spec_pages() =~= Seq::<FlashPage>::empty(),
    {
        FlashPageList { page_vec: Vec::new() }
    }

    /// Assemble the pages of a firmware map over a flash region, with the
    /// per-page CRCs computed; the same fold as
    /// [`AppFirmware::append_firmware`] over an empty image.
    pub fn from_firmware_data(
        firmware_data: &FirmwareDataRaw,
        flash_address: u32,
        page_size: u32,
        num_pages: u32,
    ) -> (r: Result<FlashPageList, Error>)
        requires
            firmware_data.wf(),
        ensures
            r matches Err(e) ==> e matches Error::Error(_),
            r is Err <==> (exists|i: int|
                0 <= i < firmware_data.spec_entries().len() && ((
                #[trigger] firmware_data.spec_entries()[i]).0 < flash_address || page_size == 0 || (
                firmware_data.spec_entries()[i].0 - flash_address) / (page_size as int)
                    >= num_pages)),
            r matches Ok(lst) ==> (forall|k: int, l: int|
                0 <= k < l < lst.spec_pages().len() ==> (#[trigger] lst.spec_pages()[k]).spec_id()
                    != (#[trigger] lst.spec_pages()[l]).spec_id()),
            r matches Ok(lst) ==> (forall|id: u32|
                spec_page_with_id(lst.spec_pages(), id) is Some <==> exists|i: int|
                    0 <= i < firmware_data.spec_entries().len() && (
                    #[trigger] firmware_data.spec_entries()[i]).0 >= flash_address && ((
                    firmware_data.spec_entries()[i].0 - flash_address) / (page_size as int)
                        == id)),
            r matches Ok(lst) ==> (forall|k: int|
                0 <= k < lst.spec_pages().len() ==> {
                    let p = #[trigger] lst.spec_pages()[k];
                    p.spec_bytes().len() == page_size && p.spec_id() < num_pages && p.spec_address()
                        == flash_address + p.spec_id() * page_size && p.spec_crc() == crc32_of(
                        p.spec_bytes(),
                    ) && (forall|j: int|
                        0 <= j < page_size ==> (#[trigger] p.spec_bytes()[j])
                            == AppFirmware::spec_expected_byte(
                            flash_address,
                            page_size,
                            Seq::empty(),
                            firmware_data.spec_entries(),
                            p.spec_id(),
                            j,
                        ))
                }),
    {
        let mut fw = AppFirmware::new(flash_address, page_size, num_pages);
        match fw.append_firmware(firmware_data) {
            Ok(_) => Ok(FlashPageList { page_vec: fw.page_lst }),
            Err(e) => Err(e),
        }
    }

    /// The page carrying `id`, if the list holds one.
    pub fn get(&self, id: u32) -> (r: Option<&FlashPage>)
        ensures
            match r {
                Some(p) => spec_page_with_id(self.spec_pages(), id) == Some(*p),
                None => spec_page_with_id(self.spec_pages(), id) is None,
            },
    {
        match page_index_of(&self.page_vec, id) {
            Some(i) => Some(&self.page_vec[i]),
            None => None,
        }
    }

    /// Append one page.
    pub fn push(&mut self, page: FlashPage)
        ensures
            final(self).spec_pages() =~= old(self).spec_pages().push(page),
    {
        self.page_vec.push(page);
    }

    /// The pages, in insertion order.
    pub fn get_vec(&self) -> (r: &Vec<FlashPage>)
        ensures
            r@ == self.spec_pages(),
    {
        &self.page_vec
    }

    /// Number of pages.
    pub fn len(&self) -> (r: usize)
        ensures
            r == self.spec_pages().len(),
    {
        self.page_vec.len()
    }
}

} // verus!
