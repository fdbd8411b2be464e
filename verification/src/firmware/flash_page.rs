//! One flash page of a firmware image.

use crate::firmware::{crc32, crc32_of};
use vstd::prelude::*;

verus! {

/// One page of the firmware image: page id, absolute flash address, exactly
/// one page of bytes, and the CRC-32 computed over them.
pub struct FlashPage {
    id: u32,
    address: u32,
    bytes: Vec<u8>,
    crc: u32,
}

impl FlashPage {
    /// Page id within the region the image is built for.
    pub closed spec fn spec_id(self) -> u32 {
        self.id
    }

    /// Absolute flash address of the page.
    pub closed spec fn spec_address(self) -> u32 {
        self.address
    }

    /// The page bytes.
    pub closed spec fn spec_bytes(self) -> Seq<u8> {
        self.bytes@
    }

    /// The stored CRC-32 of the page.
    pub closed spec fn spec_crc(self) -> u32 {
        self.crc
    }

    /// A new page; the CRC is zero until [`FlashPage::calculate_crc`] runs.
    pub fn new(id: u32, address: u32, bytes: Vec<u8>) -> (r: Self)
        ensures
            r.spec_id() == id,
            r.spec_address() == address,
            r.spec_bytes() == bytes@,
            r.spec_crc() == 0,
    {
        FlashPage { id, address, bytes, crc: 0 }
    }

    /// Compute and store the CRC-32 of the page bytes.
    pub fn calculate_crc(&mut self)
        ensures
            final(self).spec_id() == old(self).spec_id(),
            final(self).spec_address() == old(self).spec_address(),
            final(self).spec_bytes() == old(self).spec_bytes(),
            final(self).spec_crc() == crc32_of(old(self).spec_bytes()),
    {
        self.crc = crc32(self.bytes.as_slice());
    }

    /// Page id within the region the image is built for.
    pub fn get_id(&self) -> (r: u32)
        ensures
            r == self.spec_id(),
    {
        self.id
    }

    /// Absolute flash address of the page.
    pub fn get_address(&self) -> (r: u32)
        ensures
            r == self.spec_address(),
    {
        self.address
    }

    /// The page bytes.
    pub fn get_bytes(&self) -> (r: &Vec<u8>)
        ensures
            r@ == self.spec_bytes(),
    {
        &self.bytes
    }

    /// The stored CRC-32 of the page.
    pub fn get_crc(&self) -> (r: u32)
        ensures
            r == self.spec_crc(),
    {
        self.crc
    }

    /// Overwrite the byte at `idx`.
    pub fn set_byte(&mut self, idx: usize, value: u8)
        requires
            idx < old(self).spec_bytes().len(),
        ensures
            final(self).spec_id() == old(self).spec_id(),
            final(self).spec_address() == old(self).spec_address(),
            final(self).spec_bytes() == old(self).spec_bytes().update(idx as int, value),
            final(self).spec_crc() == old(self).spec_crc(),
    {
        self.bytes.set(idx, value);
    }

    /// The page bytes.
    pub fn get_byte_vec(&self) -> (r: &Vec<u8>)
        ensures
            r@ == self.spec_bytes(),
    {
        &self.bytes
    }
}

} // verus!
