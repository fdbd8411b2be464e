//! Intel-HEX reader.
//!
//! Parses ASCII HEX records into a sparse byte map. Each record starts with
//! `:` followed by a hex-encoded byte count, a 16-bit offset, a record type,
//! `byte_count` data bytes and a sum-complement checksum. Data records place
//! bytes at `(extended_address << 16 | offset) + i`; an end-of-file record
//! stops the reader; both LF and CRLF line endings are accepted.

use crate::firmware::FirmwareDataRaw;
use vstd::prelude::*;
use vstd::string::StringSliceAdditionalSpecFns;

verus! {

/// Shortest well-formed record body: byte count, offset, record type and
/// checksum, two hex digits each.
pub const HEX_LINE_MIN_CHARS: usize = 10;

// Hex File Record Type ---------------------------------------------------------------------------

/// Record types of the Intel-HEX format.
#[derive(Debug, PartialEq, Eq, Structural, Clone, Copy)]
pub enum RecordType {
    /// Data bytes at an offset
    Data,
    /// End of the file; parsing stops here
    EndOfFile,
    /// Extended segment address (ignored by the reader)
    ExtendedSegmentAddress,
    /// Start segment address (ignored by the reader)
    StartSegmentAddress,
    /// Upper 16 address bits for the following data records
    ExtendedLinearAddress,
    /// Start linear address (ignored by the reader)
    StartLinearAddress,
}

/// The record type a type byte stands for; `None` for an unknown byte.
pub open spec fn spec_record_of_byte(byte: u8) -> Option<RecordType> {
    match byte {
        0x00u8 => Some(RecordType::Data),
        0x01u8 => Some(RecordType::EndOfFile),
        0x02u8 => Some(RecordType::ExtendedSegmentAddress),
        0x03u8 => Some(RecordType::StartSegmentAddress),
        0x04u8 => Some(RecordType::ExtendedLinearAddress),
        0x05u8 => Some(RecordType::StartLinearAddress),
        _ => None,
    }
}

impl RecordType {
    /// Decode a record type byte; `None` for a byte outside the closed
    /// enumeration.
    pub fn from_byte(byte: u8) -> (r: Option<RecordType>)
        ensures
            r == spec_record_of_byte(byte),
    {
        match byte {
            0x00 => Some(RecordType::Data),
            0x01 => Some(RecordType::EndOfFile),
            0x02 => Some(RecordType::ExtendedSegmentAddress),
            0x03 => Some(RecordType::StartSegmentAddress),
            0x04 => Some(RecordType::ExtendedLinearAddress),
            0x05 => Some(RecordType::StartLinearAddress),
            _ => None,
        }
    }
}

// Hex digits ----------------------------------------------------------------------------------------

/// Value of one ASCII hex digit; `None` for any other byte.
pub open spec fn spec_hex_digit(b: u8) -> Option<u8> {
    if 0x30 <= b <= 0x39 {
        Some((b - 0x30) as u8)
    } else if 0x41 <= b <= 0x46 {
        Some((b - 0x41 + 10) as u8)
    } else if 0x61 <= b <= 0x66 {
        Some((b - 0x61 + 10) as u8)
    } else {
        None
    }
}

/// The byte encoded by the two hex digits at positions `i` and `i + 1`, if
/// both are digits.
pub open spec fn spec_hex_pair(s: Seq<u8>, i: int) -> Option<u8>
    recommends
        0 <= i,
        i + 2 <= s.len(),
{
    match (spec_hex_digit(s[i]), spec_hex_digit(s[i + 1])) {
        (Some(h), Some(l)) => Some((h * 16 + l) as u8),
        _ => None,
    }
}

/// Value of one ASCII hex digit; `None` for any other byte.
fn hex_digit(b: u8) -> (r: Option<u8>)
    ensures
        r == spec_hex_digit(b),
{
    if 0x30 <= b && b <= 0x39 {
        Some(b - 0x30)
    } else if 0x41 <= b && b <= 0x46 {
        Some(b - 0x41 + 10)
    } else if 0x61 <= b && b <= 0x66 {
        Some(b - 0x61 + 10)
    } else {
        None
    }
}

/// The byte encoded by the two hex digits at positions `i` and `i + 1`.
fn hex_pair(s: &[u8], i: usize) -> (r: Option<u8>)
    requires
        i + 2 <= s@.len(),
    ensures
        r == spec_hex_pair(s@, i as int),
{
    let h = hex_digit(s[i]);
    let l = hex_digit(s[i + 1]);
    match (h, l) {
        (Some(h), Some(l)) => Some(h * 16 + l),
        _ => None,
    }
}

// Hex File Error Type ----------------------------------------------------------------------------

/// Rejection kinds of the HEX reader.
#[derive(Debug, PartialEq, Eq, Structural, Clone, Copy)]
pub enum ErrorType {
    /// The file yielded no data byte at all.
    NoValidData,
    /// The byte count is not two hex digits.
    ByteCountParseError,
    /// The offset is not four hex digits.
    OffsetParseError,
    /// The record type is not two hex digits.
    RecordTypeParseError,
    /// A data byte is not two hex digits.
    DataParseError,
    /// The checksum is not two hex digits.
    ChecksumParseError,
    /// The line is shorter than the smallest record.
    InvalidEntryLength,
    /// The line length does not match the byte count.
    InvalidByteCount,
    /// The record type byte is outside the known record types.
    InvalidRecordType,
    /// The checksum does not complement the record's byte sum.
    InvalidChecksum,
}

// Hex File Entry ----------------------------------------------------------------------------------

/// The `k`-th data byte of a record: the hex pair at position `8 + 2k`.
pub open spec fn spec_data_byte(s: Seq<u8>, k: int) -> Option<u8> {
    spec_hex_pair(s, 8 + 2 * k)
}

/// The sum of the `count` data bytes encoded from position 8 of a record.
pub open spec fn spec_data_sum(s: Seq<u8>, count: int) -> int
    decreases count,
{
    if count <= 0 {
        0
    } else {
        spec_data_sum(s, count - 1) + spec_hex_pair(s, 8 + 2 * (count - 1))->Some_0
    }
}

/// The sum the checksum of a record must complement: byte count, both offset
/// bytes, record type byte and every data byte.
pub open spec fn spec_record_sum(s: Seq<u8>, count: int) -> int {
    spec_hex_pair(s, 0)->Some_0 + spec_hex_pair(s, 2)->Some_0 + spec_hex_pair(s, 4)->Some_0
        + spec_hex_pair(s, 6)->Some_0 + spec_data_sum(s, count)
}

/// One parsed HEX record.
#[derive(Debug, Clone, PartialEq)]
pub struct Entry {
    /// Number of data bytes of the record.
    pub byte_count: u8,
    /// 16-bit offset of the record.
    pub offset: u16,
    /// Record type.
    pub record_type: RecordType,
    /// The data bytes.
    pub data: Vec<u8>,
    /// The record checksum as read.
    pub checksum: u16,
}

impl Entry {
    /// Parse a single record line, given without its leading `:`.
    ///
    /// The checks run in this order, and the first failure names the
    /// rejection: line shorter than the smallest record; byte count not hex;
    /// line length different from `byte_count * 2 + 10`; offset not hex;
    /// record type not hex; record type unknown; a data byte not hex; the
    /// checksum not hex; the sum of all record bytes and the checksum not
    /// zero modulo 256.
    pub fn from_hex_line(line: &str) -> (r: Result<Entry, ErrorType>)
        ensures
            Entry::spec_line_result(line.spec_bytes(), r),
    {
        Entry::from_hex_bytes(line.as_bytes())
    }

    /// The rejection parsing a record body yields, `None` when it parses.
    pub open spec fn spec_line_error(s: Seq<u8>) -> Option<ErrorType> {
        if s.len() < 10 {
            Some(ErrorType::InvalidEntryLength)
        } else if spec_hex_pair(s, 0) is None {
            Some(ErrorType::ByteCountParseError)
        } else {
            let count = spec_hex_pair(s, 0)->Some_0 as int;
            if s.len() != count * 2 + 10 {
                Some(ErrorType::InvalidByteCount)
            } else if spec_hex_pair(s, 2) is None || spec_hex_pair(s, 4) is None {
                Some(ErrorType::OffsetParseError)
            } else if spec_hex_pair(s, 6) is None {
                Some(ErrorType::RecordTypeParseError)
            } else if spec_record_of_byte(spec_hex_pair(s, 6)->Some_0) is None {
                Some(ErrorType::InvalidRecordType)
            } else if exists|k: int| 0 <= k < count && (#[trigger] spec_data_byte(s, k)) is None {
                Some(ErrorType::DataParseError)
            } else if spec_hex_pair(s, 8 + 2 * count) is None {
                Some(ErrorType::ChecksumParseError)
            } else if (spec_record_sum(s, count) + spec_hex_pair(s, 8 + 2 * count)->Some_0) % 256
                != 0 {
                Some(ErrorType::InvalidChecksum)
            } else {
                None
            }
        }
    }

    /// What parsing a record body yields: the error of the first failed
    /// check, or the entry whose fields spell out the record.
    pub open spec fn spec_line_result(s: Seq<u8>, r: Result<Entry, ErrorType>) -> bool {
        match Entry::spec_line_error(s) {
            Some(et) => r == Err::<Entry, ErrorType>(et),
            None => {
                let count = spec_hex_pair(s, 0)->Some_0 as int;
                r matches Ok(e) && e.byte_count == spec_hex_pair(s, 0)->Some_0 && e.offset
                    == spec_hex_pair(s, 2)->Some_0 * 256 + spec_hex_pair(s, 4)->Some_0 && Some(
                    e.record_type,
                ) == spec_record_of_byte(spec_hex_pair(s, 6)->Some_0) && e.data@.len() == count && (
                forall|k: int|
                    0 <= k < count ==> e.data@[k] == (#[trigger] spec_data_byte(s, k))->Some_0)
                    && e.checksum == spec_hex_pair(s, 8 + 2 * count)->Some_0
            },
        }
    }

    /// Parse a single record body given as bytes.
    #[verifier::loop_isolation(false)]
    pub fn from_hex_bytes(s: &[u8]) -> (r: Result<Entry, ErrorType>)
        ensures
            Entry::spec_line_result(s@, r),
    {
        let len = s.len();
        if len < HEX_LINE_MIN_CHARS {
            return Err(ErrorType::InvalidEntryLength);
        }

        // Parse the byte count
        let byte_count = match hex_pair(s, 0) {
            Some(v) => v,
            None => {
                return Err(ErrorType::ByteCountParseError);
            },
        };

        // Check that the line length matches the byte count
        if len != (byte_count as usize) * 2 + HEX_LINE_MIN_CHARS {
            return Err(ErrorType::InvalidByteCount);
        }

        // Parse the offset
        let offset_hi = hex_pair(s, 2);
        let offset_lo = hex_pair(s, 4);
        let offset: u16 = match (offset_hi, offset_lo) {
            (Some(h), Some(l)) => (h as u16) * 256 + (l as u16),
            _ => {
                return Err(ErrorType::OffsetParseError);
            },
        };

        // Parse the record type
        let record_type_raw = match hex_pair(s, 6) {
            Some(v) => v,
            None => {
                return Err(ErrorType::RecordTypeParseError);
            },
        };
        let record_type = match RecordType::from_byte(record_type_raw) {
            Some(rt) => rt,
            None => {
                return Err(ErrorType::InvalidRecordType);
            },
        };

        // Parse the data bytes
        let mut data: Vec<u8> = Vec::new();
        let mut k: usize = 0;
        while k < byte_count as usize
            invariant
                k <= byte_count as usize,
                s@.len() == (byte_count as int) * 2 + 10,
                data@.len() == k,
                forall|k2: int| 0 <= k2 < k ==> (#[trigger] spec_data_byte(s@, k2)) is Some,
                forall|k2: int|
                    0 <= k2 < k ==> data@[k2] == (#[trigger] spec_data_byte(s@, k2))->Some_0,
            decreases byte_count as usize - k,
        {
            match hex_pair(s, 8 + 2 * k) {
                Some(v) => {
                    data.push(v);
                },
                None => {
                    proof {
                        assert(spec_data_byte(s@, k as int) is None);
                    }
                    return Err(ErrorType::DataParseError);
                },
            }
            k = k + 1;
        }

        // Parse the checksum
        let checksum: u16 = match hex_pair(s, 8 + 2 * (byte_count as usize)) {
            Some(v) => v as u16,
            None => {
                return Err(ErrorType::ChecksumParseError);
            },
        };

        // The checksum must complement the sum of all record bytes
        let mut checksum_calc: u32 = (byte_count as u32) + ((offset >> 8) as u32) + ((offset
            & 0xFF) as u32) + (record_type_raw as u32);
        proof {
            assert((offset >> 8) == offset / 256 && (offset & 0xFF) == offset % 256)
                by (bit_vector);
            assert(offset / 256 == spec_hex_pair(s@, 2)->Some_0 && offset % 256 == spec_hex_pair(
                s@,
                4,
            )->Some_0) by {
                vstd::arithmetic::div_mod::lemma_fundamental_div_mod_converse(
                    offset as int,
                    256,
                    spec_hex_pair(s@, 2)->Some_0 as int,
                    spec_hex_pair(s@, 4)->Some_0 as int,
                );
            }
        }
        let mut k: usize = 0;
        while k < byte_count as usize
            invariant
                k <= byte_count as usize,
                s@.len() == (byte_count as int) * 2 + 10,
                data@.len() == byte_count as int,
                forall|k2: int|
                    0 <= k2 < byte_count as int ==> (#[trigger] spec_data_byte(s@, k2)) is Some,
                forall|k2: int|
                    0 <= k2 < byte_count as int ==> data@[k2] == (#[trigger] spec_data_byte(
                        s@,
                        k2,
                    ))->Some_0,
                checksum_calc == spec_hex_pair(s@, 0)->Some_0 + spec_hex_pair(s@, 2)->Some_0
                    + spec_hex_pair(s@, 4)->Some_0 + spec_hex_pair(s@, 6)->Some_0 + spec_data_sum(
                    s@,
                    k as int,
                ),
                checksum_calc <= 255 * (4 + k as int),
            decreases byte_count as usize - k,
        {
            checksum_calc = checksum_calc + (data[k] as u32);
            k = k + 1;
            proof {
                reveal_with_fuel(spec_data_sum, 2);
                assert(spec_data_sum(s@, k as int) == spec_data_sum(s@, k - 1) + spec_data_byte(
                    s@,
                    k - 1,
                )->Some_0);
            }
        }

        if (checksum_calc + (checksum as u32)) % 256 != 0 {
            return Err(ErrorType::InvalidChecksum);
        }

        Ok(Entry { byte_count, offset, record_type, data, checksum })
    }
}


// Whole-file model ---------------------------------------------------------------------------------

/// A line with its trailing carriage return removed, as CRLF endings leave
/// one before the line feed.
pub open spec fn spec_strip_cr(line: Seq<u8>) -> Seq<u8> {
    if line.len() >= 2 && line[line.len() - 1] == 0x0D {
        line.drop_last()
    } else {
        line
    }
}

/// The record bodies one finished line contributes: the line after its `:`,
/// carriage return stripped, when it starts with `:`; nothing otherwise.
pub open spec fn spec_finish_line(line: Seq<u8>) -> Seq<Seq<u8>> {
    if line.len() >= 1 && line[0] == 0x3A {
        seq![spec_strip_cr(line).skip(1)]
    } else {
        Seq::empty()
    }
}

/// The record bodies of the remaining input `s`, with `line` the partial
/// line read so far: lines are separated by line feeds, and the final line
/// needs no terminator.
pub open spec fn spec_bodies_from(s: Seq<u8>, line: Seq<u8>) -> Seq<Seq<u8>>
    decreases s.len(),
{
    if s.len() == 0 {
        spec_finish_line(line)
    } else if s[0] == 0x0A {
        spec_finish_line(line) + spec_bodies_from(s.skip(1), Seq::empty())
    } else {
        spec_bodies_from(s.skip(1), line.push(s[0]))
    }
}

/// The record bodies of a whole HEX file.
pub open spec fn spec_record_bodies(s: Seq<u8>) -> Seq<Seq<u8>> {
    spec_bodies_from(s, Seq::empty())
}

/// Number of data bytes a record body declares.
pub open spec fn spec_body_count(s: Seq<u8>) -> int {
    spec_hex_pair(s, 0)->Some_0 as int
}

/// The 16-bit offset a record body declares.
pub open spec fn spec_body_offset(s: Seq<u8>) -> u16 {
    (spec_hex_pair(s, 2)->Some_0 * 256 + spec_hex_pair(s, 4)->Some_0) as u16
}

/// The record type a record body declares.
pub open spec fn spec_body_record(s: Seq<u8>) -> Option<RecordType> {
    spec_record_of_byte(spec_hex_pair(s, 6)->Some_0)
}

/// The data bytes a record body carries.
pub open spec fn spec_body_data(s: Seq<u8>) -> Seq<u8> {
    Seq::new(spec_body_count(s) as nat, |k: int| spec_data_byte(s, k)->Some_0)
}

/// `base + k` in the 32-bit address space, wrapping around its end.
pub open spec fn spec_wrap_add(base: u32, k: int) -> u32 {
    if base + k > u32::MAX {
        (base + k - 0x1_0000_0000) as u32
    } else {
        (base + k) as u32
    }
}

/// The map after placing data bytes `k..` of a record at `base + k`.
pub open spec fn spec_put_from(m: Map<u32, u8>, base: u32, data: Seq<u8>, k: int) -> Map<u32, u8>
    decreases data.len() - k,
{
    if k < 0 || k >= data.len() {
        m
    } else {
        spec_put_from(m.insert(spec_wrap_add(base, k), data[k]), base, data, k + 1)
    }
}

/// The byte map the record bodies from `j` on fold to, starting from the
/// extended linear address `ext` and the bytes `m` placed so far: data
/// records place their bytes at the extended address joined with their
/// offset, extended-linear-address records with at least two data bytes
/// replace the upper half of the address, an end-of-file record stops the
/// fold, every other record is skipped.
pub open spec fn spec_fold_from(bodies: Seq<Seq<u8>>, j: int, ext: u32, m: Map<u32, u8>) -> Map<
    u32,
    u8,
>
    decreases bodies.len() - j,
{
    if j < 0 || j >= bodies.len() {
        m
    } else {
        let s = bodies[j];
        let rt = spec_body_record(s);
        if rt == Some(RecordType::EndOfFile) {
            m
        } else if rt == Some(RecordType::ExtendedLinearAddress) {
            let ext2 = if spec_body_count(s) >= 2 {
                ((spec_body_data(s)[0] as u32) << 24) | ((spec_body_data(s)[1] as u32) << 16)
            } else {
                ext
            };
            spec_fold_from(bodies, j + 1, ext2, m)
        } else if rt == Some(RecordType::Data) {
            spec_fold_from(
                bodies,
                j + 1,
                ext,
                spec_put_from(m, ext | (spec_body_offset(s) as u32), spec_body_data(s), 0),
            )
        } else {
            spec_fold_from(bodies, j + 1, ext, m)
        }
    }
}

/// The byte map a whole HEX file's record bodies describe.
pub open spec fn spec_fold_map(bodies: Seq<Seq<u8>>) -> Map<u32, u8> {
    spec_fold_from(bodies, 0, 0, Map::empty())
}

// Hex File Representation ------------------------------------------------------------------------

/// A parsed HEX file: the sparse byte map its data records describe.
pub struct HexFile {
    data: FirmwareDataRaw,
}

impl HexFile {
    /// The byte map of a parsed file is always well-formed.
    #[verifier::type_invariant]
    pub closed spec fn type_inv(self) -> bool {
        self.data.wf()
    }

    /// The parsed bytes by absolute address.
    pub closed spec fn spec_data(self) -> FirmwareDataRaw {
        self.data
    }

    /// Parse a whole HEX file given as text.
    ///
    /// Lines are separated by LF or CRLF; every line starting with `:` is
    /// parsed as a record, other lines are skipped. Data records place their
    /// bytes at the extended linear address joined with their offset;
    /// records after an end-of-file record are ignored. A malformed record
    /// or a file that yields no data byte at all is an error.
    pub fn from_string(hex_data: &str) -> (r: Result<HexFile, String>)
        ensures
            ({
                let bodies = spec_record_bodies(hex_data.spec_bytes());
                &&& (r is Ok <==> ((forall|j: int|
                    0 <= j < bodies.len() ==> (#[trigger] Entry::spec_line_error(
                        bodies[j],
                    )) is None) && !(spec_fold_map(bodies).dom() =~= Set::<u32>::empty())))
                &&& (r matches Ok(h) ==> h.spec_data().wf() && h.spec_data().spec_as_map()
                    == spec_fold_map(bodies) && h.spec_data().spec_entries().len() > 0)
            }),
    {
        match parse_hex_file(hex_data) {
            Ok(map) => Ok(HexFile { data: map }),
            Err(_) => Err("Hex file parse error".to_string()),
        }
    }

    /// The parsed bytes by absolute address.
    pub fn get_data(&self) -> (r: &FirmwareDataRaw)
        ensures
            *r == self.spec_data(),
            r.wf(),
    {
        proof {
            use_type_invariant(self);
        }
        &self.data
    }
}

/// Parse a whole HEX file given as text into a sparse byte map.
///
/// Same grammar as [`HexFile::from_string`], reporting the rejection kind of
/// the first malformed record, or `NoValidData` for a file that yields no
/// data byte. Succeeds exactly when every record line parses and the data
/// records, cut at the first end-of-file record, place at least one byte;
/// the returned map holds exactly those bytes.
pub fn parse_hex_file(hex_file: &str) -> (r: Result<FirmwareDataRaw, ErrorType>)
    ensures
        ({
            let bodies = spec_record_bodies(hex_file.spec_bytes());
            &&& (r is Ok <==> ((forall|j: int|
                0 <= j < bodies.len() ==> (#[trigger] Entry::spec_line_error(bodies[j])) is None)
                && !(spec_fold_map(bodies).dom() =~= Set::<u32>::empty())))
            &&& (r matches Ok(map) ==> map.wf() && map.spec_entries().len() > 0
                && map.spec_as_map() == spec_fold_map(bodies))
            &&& (r matches Err(et) ==> (et == ErrorType::NoValidData || exists|j: int|
                0 <= j < bodies.len() && (#[trigger] Entry::spec_line_error(bodies[j])) == Some(
                    et,
                )))
            &&& (r == Err::<FirmwareDataRaw, ErrorType>(ErrorType::NoValidData) ==> (
            spec_fold_map(bodies).dom() =~= Set::<u32>::empty()))
        }),
{
    let bytes = hex_file.as_bytes();
    let len = bytes.len();
    let ghost bodies = spec_record_bodies(bytes@);

    // Split into lines and parse every record line
    let mut entries: Vec<Entry> = Vec::new();
    let ghost mut done: Seq<Seq<u8>> = Seq::empty();
    let mut line: Vec<u8> = Vec::new();
    let mut line_has_record = false;
    let mut i: usize = 0;
    proof {
        assert(bytes@.skip(0) =~= bytes@);
        assert(Seq::<Seq<u8>>::empty() + spec_bodies_from(bytes@, Seq::empty())
            =~= spec_bodies_from(bytes@, Seq::empty()));
    }
    while i < len
        invariant
            i <= len,
            len == bytes@.len(),
            bytes@ == hex_file.spec_bytes(),
            bodies == spec_record_bodies(bytes@),
            bodies == done + spec_bodies_from(bytes@.skip(i as int), line@),
            line_has_record == (line@.len() >= 1 && line@[0] == 0x3A),
            entries@.len() == done.len(),
            forall|j: int|
                0 <= j < done.len() ==> Entry::spec_line_result(
                    #[trigger] done[j],
                    Ok(entries@[j]),
                ),
        decreases len - i,
    {
        let b = bytes[i];
        proof {
            assert(bytes@.skip(i as int)[0] == b);
            assert(bytes@.skip(i as int).skip(1) =~= bytes@.skip(i + 1));
        }
        if b == 0x0A {
            if line_has_record {
                let body_end = if line.len() >= 2 && line[line.len() - 1] == 0x0D {
                    line.len() - 1
                } else {
                    line.len()
                };
                let body = vstd::slice::slice_subrange(line.as_slice(), 1, body_end);
                proof {
                    assert(body@ =~= spec_strip_cr(line@).skip(1));
                }
                match Entry::from_hex_bytes(body) {
                    Ok(e) => {
                        entries.push(e);
                        proof {
                            done = done.push(body@);
                            assert(bodies == done + spec_bodies_from(
                                bytes@.skip(i + 1),
                                Seq::empty(),
                            ));
                        }
                    },
                    Err(e) => {
                        proof {
                            assert(bodies[done.len() as int] == body@);
                        }
                        return Err(e);
                    },
                }
            }
            line = Vec::new();
            line_has_record = false;
        } else {
            if line.len() == 0 && b == 0x3A {
                line_has_record = true;
            }
            line.push(b);
        }
        i = i + 1;
    }

    // The final line needs no terminator
    proof {
        assert(bytes@.skip(len as int) =~= Seq::<u8>::empty());
    }
    if line_has_record {
        let body_end = if line.len() >= 2 && line[line.len() - 1] == 0x0D {
            line.len() - 1
        } else {
            line.len()
        };
        let body = vstd::slice::slice_subrange(line.as_slice(), 1, body_end);
        proof {
            assert(body@ =~= spec_strip_cr(line@).skip(1));
        }
        match Entry::from_hex_bytes(body) {
            Ok(e) => {
                entries.push(e);
                proof {
                    done = done.push(body@);
                    assert(bodies =~= done);
                }
            },
            Err(e) => {
                proof {
                    assert(bodies[done.len() as int] == body@);
                }
                return Err(e);
            },
        }
    } else {
        proof {
            assert(bodies =~= done);
        }
    }

    // Fold the records into the byte map
    let mut firmware_map = FirmwareDataRaw::new();
    let mut address_extended: u32 = 0;
    let mut finished = false;
    let n = entries.len();
    let mut e: usize = 0;
    proof {
        assert(firmware_map.spec_as_map() =~= Map::<u32, u8>::empty());
    }
    while e < n && !finished
        invariant
            e <= n,
            n == entries@.len(),
            n == bodies.len(),
            firmware_map.wf(),
            forall|j: int|
                0 <= j < bodies.len() ==> Entry::spec_line_result(
                    #[trigger] bodies[j],
                    Ok(entries@[j]),
                ),
            !finished ==> spec_fold_map(bodies) == spec_fold_from(
                bodies,
                e as int,
                address_extended,
                firmware_map.spec_as_map(),
            ),
            finished ==> spec_fold_map(bodies) == firmware_map.spec_as_map(),
        decreases n - e + (if finished {
            0int
        } else {
            1int
        }),
    {
        let ghost body = bodies[e as int];
        let entry = &entries[e];
        proof {
            assert(Some(entry.record_type) == spec_body_record(body));
            assert(entry.byte_count == spec_hex_pair(body, 0)->Some_0);
            assert(entry.data@.len() == spec_body_count(body));
            assert(entry.data@ =~= spec_body_data(body));
        }
        match entry.record_type {
            RecordType::ExtendedLinearAddress => {
                // The two data bytes hold the upper 16 address bits
                if entry.data.len() >= 2 {
                    address_extended = ((entry.data[0] as u32) << 24) | ((entry.data[1] as u32)
                        << 16);
                }
            },
            RecordType::Data => {
                let base = address_extended | (entry.offset as u32);
                proof {
                    assert(entry.offset == spec_body_offset(body));
                }
                let count = entry.data.len();
                let ghost m0 = firmware_map.spec_as_map();
                let mut k: usize = 0;
                while k < count
                    invariant
                        k <= count,
                        count == entry.data@.len(),
                        count <= 255,
                        firmware_map.wf(),
                        spec_put_from(m0, base, entry.data@, 0) == spec_put_from(
                            firmware_map.spec_as_map(),
                            base,
                            entry.data@,
                            k as int,
                        ),
                    decreases count - k,
                {
                    let ghost m_pre = firmware_map.spec_as_map();
                    let address = base.wrapping_add(k as u32);
                    firmware_map.insert(address, entry.data[k]);
                    proof {
                        assert(address == spec_wrap_add(base, k as int));
                        assert(firmware_map.spec_as_map() =~= m_pre.insert(
                            address,
                            entry.data@[k as int],
                        ));
                    }
                    k = k + 1;
                }
            },
            RecordType::EndOfFile => {
                finished = true;
            },
            _ => {},
        }
        if !finished {
            e = e + 1;
        }
    }
    proof {
        if !finished {
            assert(spec_fold_from(
                bodies,
                n as int,
                address_extended,
                firmware_map.spec_as_map(),
            ) == firmware_map.spec_as_map());
        }
        assert(spec_fold_map(bodies) == firmware_map.spec_as_map());
        firmware_map.lemma_as_map_empty();
    }

    if firmware_map.is_empty() {
        return Err(ErrorType::NoValidData);
    }
    proof {
        assert(firmware_map.spec_as_map().dom().contains(firmware_map.spec_entries()[0].0)) by {
            crate::firmware::lemma_lookup_at(firmware_map.spec_entries(), 0);
        }
    }
    Ok(firmware_map)
}

impl crate::firmware::FirmwareDataInterface for HexFile {
    /// A parsed HEX file always has firmware data.
    fn get_firmware_data(&self) -> (r: Option<&FirmwareDataRaw>) {
        proof {
            use_type_invariant(self);
        }
        Some(&self.data)
    }
}

} // verus!
