//! Flash geometry and named sections.
//!
//! A flash description holds the start address, total size and page size of
//! the device flash, plus a list of named sections. Sections must be
//! page-aligned, a multiple of the page size long, inside the flash, free of
//! overlap with earlier sections and uniquely named; each stores the id of
//! its first flash page.

use vstd::prelude::*;

verus! {

/// Rejection kinds of [`FlashDesc::add_section`].
#[derive(Debug, PartialEq, Eq, Clone, Copy, Structural)]
pub enum FlashDescError {
    /// The section address is below the flash or not page-aligned.
    FlashSectionAddressInvalid,
    /// The section size is not a multiple of the page size.
    FlashSectionSizeInvalid,
    /// The section extends past the end of the flash.
    FlashSectionSizeTooBig,
    /// The section overlaps a section added earlier.
    FlashAreaAlreadyUsed,
    /// The section name is already used.
    FlashNameAlreadyUsed,
}

// Flash section ------------------------------------------------------------------------------------

/// A named, page-aligned region of the flash.
pub struct FlashSection {
    name: String,
    address: u32,
    size: u32,
    page_size: u32,
    flash_page_id: u32,
}

impl FlashSection {
    /// Name of the section.
    pub closed spec fn spec_name(self) -> Seq<char> {
        self.name@
    }

    /// Absolute start address of the section.
    pub closed spec fn spec_address(self) -> u32 {
        self.address
    }

    /// Size of the section in bytes.
    pub closed spec fn spec_size(self) -> u32 {
        self.size
    }

    /// Page size of the flash the section lives in.
    pub closed spec fn spec_page_size(self) -> u32 {
        self.page_size
    }

    /// Id of the first flash page of the section.
    pub closed spec fn spec_flash_page_id(self) -> u32 {
        self.flash_page_id
    }

    /// Number of whole pages the section covers.
    pub open spec fn spec_num_pages(self) -> u32 {
        if self.spec_page_size() == 0 {
            0u32
        } else {
            (self.spec_size() / self.spec_page_size()) as u32
        }
    }

    /// A new flash section.
    pub fn new(name: &str, address: u32, size: u32, page_size: u32, flash_page_id: u32) -> (r:
        FlashSection)
        ensures
            r.spec_name() == name@,
            r.spec_address() == address,
            r.spec_size() == size,
            r.spec_page_size() == page_size,
            r.spec_flash_page_id() == flash_page_id,
    {
        FlashSection { name: name.to_owned(), address, size, page_size, flash_page_id }
    }

    /// Name of the section.
    pub fn get_name(&self) -> (r: &String)
        ensures
            r@ == self.spec_name(),
    {
        &self.name
    }

    /// Absolute start address of the section.
    pub fn get_address(&self) -> (r: u32)
        ensures
            r == self.spec_address(),
    {
        self.address
    }

    /// Size of the section in bytes.
    pub fn get_size(&self) -> (r: u32)
        ensures
            r == self.spec_size(),
    {
        self.size
    }

    /// Page size of the flash the section lives in.
    pub fn get_page_size(&self) -> (r: u32)
        ensures
            r == self.spec_page_size(),
    {
        self.page_size
    }

    /// Number of whole pages the section covers.
    pub fn get_num_pages(&self) -> (r: u32)
        ensures
            r == self.spec_num_pages(),
    {
        if self.page_size == 0 {
            0
        } else {
            self.size / self.page_size
        }
    }

    /// Id of the first flash page of the section.
    pub fn get_flash_page_id(&self) -> (r: u32)
        ensures
            r == self.spec_flash_page_id(),
    {
        self.flash_page_id
    }
}

// Flash --------------------------------------------------------------------------------------------

/// Description of the structure of the flash.
pub struct FlashDesc {
    address: u32,
    size: u32,
    page_size: u32,
    section_lst: Vec<FlashSection>,
}

/// True when `name` is already the name of a section in `sections`.
pub open spec fn spec_name_used(sections: Seq<FlashSection>, name: Seq<char>) -> bool {
    exists|i: int| 0 <= i < sections.len() && sections[i].spec_name() == name
}

/// True when the byte range `[address, address + size)` intersects a section
/// in `sections`.
pub open spec fn spec_area_overlaps(sections: Seq<FlashSection>, address: u32, size: u32) -> bool {
    exists|i: int|
        0 <= i < sections.len() && sections[i].spec_address() < address + size && address
            < sections[i].spec_address() + sections[i].spec_size()
}

/// The first section in `sections` carrying `name`, if any.
pub open spec fn spec_find_section(sections: Seq<FlashSection>, name: Seq<char>) -> Option<
    FlashSection,
>
    decreases sections.len(),
{
    if sections.len() == 0 {
        None
    } else if sections[0].spec_name() == name {
        Some(sections[0])
    } else {
        spec_find_section(sections.skip(1), name)
    }
}

impl FlashDesc {
    /// Start address of the flash.
    pub closed spec fn spec_address(self) -> u32 {
        self.address
    }

    /// Total size of the flash in bytes.
    pub closed spec fn spec_size(self) -> u32 {
        self.size
    }

    /// Size of one flash page in bytes.
    pub closed spec fn spec_page_size(self) -> u32 {
        self.page_size
    }

    /// The sections added so far, in insertion order.
    pub closed spec fn spec_sections(self) -> Seq<FlashSection> {
        self.section_lst@
    }

    /// Number of whole pages of the flash.
    pub open spec fn spec_num_pages(self) -> u32 {
        if self.spec_page_size() == 0 {
            0u32
        } else {
            (self.spec_size() / self.spec_page_size()) as u32
        }
    }

    /// What every accepted section satisfies: page-aligned, a multiple of
    /// the page size long, inside the flash, and bearing the id of its first
    /// page and the flash's page size.
    pub open spec fn spec_section_ok(self, s: FlashSection) -> bool {
        &&& self.spec_page_size() > 0
        &&& s.spec_page_size() == self.spec_page_size()
        &&& s.spec_address() >= self.spec_address()
        &&& s.spec_address() % self.spec_page_size() == 0
        &&& s.spec_size() % self.spec_page_size() == 0
        &&& s.spec_address() + s.spec_size() <= self.spec_address() + self.spec_size()
        &&& s.spec_flash_page_id() == (s.spec_address() - self.spec_address()) as u32
            / self.spec_page_size()
    }

    /// Every section of the description is well-placed.
    pub open spec fn wf(self) -> bool {
        forall|i: int|
            0 <= i < self.spec_sections().len() ==> self.spec_section_ok(#[trigger] self.spec_sections()[i])
    }

    /// A new flash description without sections.
    pub fn new(address: u32, size: u32, page_size: u32) -> (r: FlashDesc)
        ensures
            r.spec_address() == address,
            r.spec_size() == size,
            r.spec_page_size() == page_size,
            r.spec_sections() =~= Seq::<FlashSection>::empty(),
            r.wf(),
    {
        FlashDesc { address, size, page_size, section_lst: Vec::new() }
    }

    /// Add a named section.
    ///
    /// The checks run in this order, and the first failure names the
    /// rejection: duplicate name; address below the flash, not page-aligned,
    /// or a flash without pages; size not a multiple of the page size;
    /// section extending past the flash end; overlap with an earlier
    /// section. On success the section is appended with the id of its first
    /// flash page; on failure the description is unchanged.
    #[verifier::loop_isolation(false)]
    pub fn add_section(&mut self, name: &str, address: u32, size: u32) -> (r: Result<
        (),
        FlashDescError,
    >)
        requires
            old(self).wf(),
        ensures
            final(self).wf(),
            final(self).spec_address() == old(self).spec_address(),
            final(self).spec_size() == old(self).spec_size(),
            final(self).spec_page_size() == old(self).spec_page_size(),
            ({
                let c_name = spec_name_used(old(self).spec_sections(), name@);
                let c_addr = old(self).spec_page_size() == 0 || address < old(self).spec_address()
                    || address % old(self).spec_page_size() != 0;
                let c_size = !c_addr && size % old(self).spec_page_size() != 0;
                let c_big = address + size > old(self).spec_address() + old(self).spec_size();
                let c_overlap = spec_area_overlaps(old(self).spec_sections(), address, size);
                &&& (r is Ok <==> !c_name && !c_addr && !c_size && !c_big && !c_overlap)
                &&& (r == Err::<(), FlashDescError>(FlashDescError::FlashNameAlreadyUsed) <==> c_name)
                &&& (r == Err::<(), FlashDescError>(FlashDescError::FlashSectionAddressInvalid) <==> !c_name && c_addr)
                &&& (r == Err::<(), FlashDescError>(FlashDescError::FlashSectionSizeInvalid) <==> !c_name && !c_addr
                    && c_size)
                &&& (r == Err::<(), FlashDescError>(FlashDescError::FlashSectionSizeTooBig) <==> !c_name && !c_addr
                    && !c_size && c_big)
                &&& (r == Err::<(), FlashDescError>(FlashDescError::FlashAreaAlreadyUsed) <==> !c_name && !c_addr
                    && !c_size && !c_big && c_overlap)
            }),
            r is Err ==> final(self).spec_sections() == old(self).spec_sections(),
            r is Ok ==> {
                &&& final(self).spec_sections().len() == old(self).spec_sections().len() + 1
                &&& final(self).spec_sections().drop_last() =~= old(self).spec_sections()
                &&& final(self).spec_sections().last().spec_name() == name@
                &&& final(self).spec_sections().last().spec_address() == address
                &&& final(self).spec_sections().last().spec_size() == size
                &&& final(self).spec_sections().last().spec_page_size() == old(self).spec_page_size()
                &&& final(self).spec_sections().last().spec_flash_page_id() == (address - old(self).spec_address()) as u32 / old(self).spec_page_size()
            },
    {
        // Check if the section name is already used
        let name_string = name.to_owned();
        let n = self.section_lst.len();
        let mut i: usize = 0;
        while i < n
            invariant
                i <= n,
                n == self.spec_sections().len(),
                forall|k: int| 0 <= k < i ==> self.spec_sections()[k].spec_name() != name_string@,
                name_string@ == name@,
            decreases n - i,
        {
            if self.section_lst[i].get_name().eq(&name_string) {
                proof {
                    assert(spec_name_used(self.spec_sections(), name@));
                }
                return Err(FlashDescError::FlashNameAlreadyUsed);
            }
            i = i + 1;
        }

        // The section must lie in the flash and start aligned to pages
        if self.page_size == 0 || address < self.address || address % self.page_size != 0 {
            return Err(FlashDescError::FlashSectionAddressInvalid);
        }

        // The section size must be a multiple of the page size
        if size % self.page_size != 0 {
            return Err(FlashDescError::FlashSectionSizeInvalid);
        }

        // The section must not extend past the end of the flash
        if (address as u64) + (size as u64) > (self.address as u64) + (self.size as u64) {
            return Err(FlashDescError::FlashSectionSizeTooBig);
        }

        // The section must not overlap an earlier section
        let mut i: usize = 0;
        while i < n
            invariant
                i <= n,
                n == self.spec_sections().len(),
                forall|k: int|
                    0 <= k < i ==> !(self.spec_sections()[k].spec_address() < address + size
                        && address < self.spec_sections()[k].spec_address()
                        + self.spec_sections()[k].spec_size()),
            decreases n - i,
        {
            let s_addr = self.section_lst[i].get_address();
            let s_size = self.section_lst[i].get_size();
            if (s_addr as u64) < (address as u64) + (size as u64) && (address as u64) < (
            s_addr as u64) + (s_size as u64) {
                proof {
                    assert(spec_area_overlaps(self.spec_sections(), address, size));
                }
                return Err(FlashDescError::FlashAreaAlreadyUsed);
            }
            i = i + 1;
        }

        // Page id of the first page of the section
        let page_id = (address - self.address) / self.page_size;

        self.section_lst.push(
            FlashSection::new(name, address, size, self.page_size, page_id),
        );
        Ok(())
    }

    // Getters ------------------------------------------------------------------------------------

    /// Start address of the flash.
    pub fn get_address(&self) -> (r: u32)
        ensures
            r == self.spec_address(),
    {
        self.address
    }

    /// Total size of the flash in bytes.
    pub fn get_size(&self) -> (r: u32)
        ensures
            r == self.spec_size(),
    {
        self.size
    }

    /// Size of one flash page in bytes.
    pub fn get_page_size(&self) -> (r: u32)
        ensures
            r == self.spec_page_size(),
    {
        self.page_size
    }

    /// Number of whole pages of the flash.
    pub fn get_num_pages(&self) -> (r: u32)
        ensures
            r == self.spec_num_pages(),
    {
        if self.page_size == 0 {
            0
        } else {
            self.size / self.page_size
        }
    }

    /// Number of sections added so far.
    pub fn get_num_section(&self) -> (r: usize)
        ensures
            r == self.spec_sections().len(),
    {
        self.section_lst.len()
    }

    /// The section names, in insertion order.
    pub fn get_section_name_list(&self) -> (r: Vec<String>)
        ensures
            r@.len() == self.spec_sections().len(),
            forall|i: int|
                0 <= i < r@.len() ==> r@[i]@ == self.spec_sections()[i].spec_name(),
    {
        let mut name_lst: Vec<String> = Vec::new();
        let n = self.section_lst.len();
        let mut i: usize = 0;
        while i < n
            invariant
                i <= n,
                n == self.spec_sections().len(),
                name_lst@.len() == i,
                forall|k: int| 0 <= k < i ==> name_lst@[k]@ == self.spec_sections()[k].spec_name(),
            decreases n - i,
        {
            name_lst.push(self.section_lst[i].get_name().clone());
            i = i + 1;
        }
        name_lst
    }

    /// The first section with the given name, if any.
    pub fn get_section(&self, name: &str) -> (r: Option<&FlashSection>)
        ensures
            match r {
                Some(s) => spec_find_section(self.spec_sections(), name@) == Some(*s),
                None => spec_find_section(self.spec_sections(), name@) is None,
            },
    {
        let name_string = name.to_owned();
        let n = self.section_lst.len();
        let mut i: usize = 0;
        while i < n
            invariant
                i <= n,
                n == self.spec_sections().len(),
                name_string@ == name@,
                spec_find_section(self.spec_sections().take(i as int), name@) is None,
            decreases n - i,
        {
            if self.section_lst[i].get_name().eq(&name_string) {
                proof {
                    lemma_find_section_take(self.spec_sections(), name@, i as int);
                }
                return Some(&self.section_lst[i]);
            }
            proof {
                lemma_find_section_take_step(self.spec_sections(), name@, i as int);
            }
            i = i + 1;
        }
        proof {
            assert(self.spec_sections().take(n as int) =~= self.spec_sections());
        }
        None
    }

    /// Start address of the section with the given name.
    pub fn get_section_address(&self, name: &str) -> (r: Option<u32>)
        ensures
            match spec_find_section(self.spec_sections(), name@) {
                Some(s) => r == Some(s.spec_address()),
                None => r is None,
            },
    {
        match self.get_section(name) {
            Some(section) => Some(section.get_address()),
            None => None,
        }
    }

    /// Size of the section with the given name.
    pub fn get_section_size(&self, name: &str) -> (r: Option<u32>)
        ensures
            match spec_find_section(self.spec_sections(), name@) {
                Some(s) => r == Some(s.spec_size()),
                None => r is None,
            },
    {
        match self.get_section(name) {
            Some(section) => Some(section.get_size()),
            None => None,
        }
    }

    /// Id of the first flash page of the section with the given name.
    pub fn get_section_page_id(&self, name: &str) -> (r: Option<u32>)
        ensures
            match spec_find_section(self.spec_sections(), name@) {
                Some(s) => r == Some(s.spec_flash_page_id()),
                None => r is None,
            },
    {
        match self.get_section(name) {
            Some(section) => Some(section.get_flash_page_id()),
            None => None,
        }
    }

    /// Number of pages of the section with the given name.
    pub fn get_section_num_pages(&self, name: &str) -> (r: Option<u32>)
        ensures
            match spec_find_section(self.spec_sections(), name@) {
                Some(s) => r == Some(s.spec_num_pages()),
                None => r is None,
            },
    {
        match self.get_section(name) {
            Some(section) => Some(section.get_num_pages()),
            None => None,
        }
    }
}

/// When the first `i` sections miss the name and section `i` carries it, the
/// search over the whole list finds section `i`.
proof fn lemma_find_section_take(sections: Seq<FlashSection>, name: Seq<char>, i: int)
    requires
        0 <= i < sections.len(),
        spec_find_section(sections.take(i), name) is None,
        sections[i].spec_name() == name,
    ensures
        spec_find_section(sections, name) == Some(sections[i]),
    decreases i,
{
    if i == 0 {
    } else {
        assert(sections.take(i).skip(1) =~= sections.skip(1).take(i - 1));
        lemma_find_section_take(sections.skip(1), name, i - 1);
    }
}

/// When the first `i` sections miss the name and section `i` misses it too,
/// the first `i + 1` sections miss it.
proof fn lemma_find_section_take_step(sections: Seq<FlashSection>, name: Seq<char>, i: int)
    requires
        0 <= i < sections.len(),
        spec_find_section(sections.take(i), name) is None,
        sections[i].spec_name() != name,
    ensures
        spec_find_section(sections.take(i + 1), name) is None,
    decreases i,
{
    assert(sections.take(i + 1).skip(1) =~= sections.skip(1).take(i));
    if i == 0 {
        assert(spec_find_section(sections.skip(1).take(0), name) is None);
    } else {
        assert(sections.take(i).skip(1) =~= sections.skip(1).take(i - 1));
        lemma_find_section_take_step(sections.skip(1), name, i - 1);
    }
}

} // verus!
