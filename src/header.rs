//! Entry descriptors and the records written from them.
use vstd::prelude::*;
use vstd::utf8::{encode_utf8, is_ascii_chars};

use crate::format::{
    clamp32, clamp_u32, le16, le32, le64, push_bytes, push_u16, push_u32, push_u64, u32_bytes,
};

verus! {

/// The largest value a 32-bit size or offset field holds.
pub const MAX_U32_FIELD: u64 = 0xFFFF_FFFF;

/// The largest path, in bytes, that a 16-bit name length can describe.
pub const MAX_PATH_LEN: usize = 0xFFFF;

/// "Version needed to extract" and "version made by": 4.5, for ZIP64.
pub const VERSION: u16 = 0x2D;

pub const LOCAL_HEADER_SIGNATURE: u32 = 0x04034b50;

pub const DATA_DESCRIPTOR_SIGNATURE: u32 = 0x08074b50;

pub const CENTRAL_HEADER_SIGNATURE: u32 = 0x02014b50;

/// Tag of the ZIP64 extended information extra field.
pub const ZIP64_EXTRA_TAG: u16 = 0x0001;

/// Fixed part of a local header: everything but the name and the extra field.
pub const LOCAL_HEADER_FIXED_LEN: u64 = 30;

/// Length of the ZIP64 extra field that every local header carries.
pub const LOCAL_EXTRA_LEN: u16 = 20;

/// Fixed part of a central directory record.
pub const CENTRAL_RECORD_FIXED_LEN: u64 = 46;

/// A calendar date and a time of day.
#[derive(Debug, Clone, Copy, PartialEq, Eq, Structural)]
pub struct DateTime {
    pub year: i32,
    /// 1 to 12.
    pub month: u8,
    /// 1 to 31.
    pub day: u8,
    pub hour: u8,
    pub minute: u8,
    pub second: u8,
}

impl DateTime {
    /// MS-DOS packed time: seconds halved in bits 0-4, minutes in bits 5-10,
    /// hours in bits 11-15.
    pub open spec fn dos_time(self) -> u16 {
        ((self.second / 2) as u16) | ((self.minute as u16) << 5u16) | ((self.hour as u16) << 11u16)
    }

    /// MS-DOS packed date: day in bits 0-4, month in bits 5-8, years since 1980
    /// in bits 9-15.
    pub open spec fn dos_date(self) -> u16 {
        (self.day as u16) | ((self.month as u16) << 5u16) | (((self.year - 1980) as u16) << 9u16)
    }

    pub fn to_dos_time(&self) -> (r: u16)
        ensures
            r == self.dos_time(),
    {
        ((self.second / 2) as u16) | ((self.minute as u16) << 5u16) | ((self.hour as u16) << 11u16)
    }

    pub fn to_dos_date(&self) -> (r: u16)
        ensures
            r == self.dos_date(),
    {
        let years = self.year as i64 - 1980;
        (self.day as u16) | ((self.month as u16) << 5u16) | ((years as u16) << 9u16)
    }
}

/// The date and time in UTC of a Unix timestamp.
pub uninterp spec fn utc_date_time_of(unix_seconds: i64) -> DateTime;

/// The earliest timestamp whose UTC date the calendar conversion covers in
/// every configuration: early in the year -9999.
pub const MIN_UTC_TIMESTAMP: i64 = -377_705_116_800;

/// The latest timestamp whose UTC date the calendar conversion covers in every
/// configuration: 9999-12-31 23:59:59.
pub const MAX_UTC_TIMESTAMP: i64 = 253_402_300_799;

/// Relies on time's OffsetDateTime::from_unix_timestamp: the date and time in
/// UTC of a timestamp, which depend on the timestamp alone. It fails only for
/// a timestamp outside years -9999 to 9999 (wider with its `large-dates`
/// feature), so it succeeds from `MIN_UTC_TIMESTAMP` to `MAX_UTC_TIMESTAMP`.
/// The time of day comes from the timestamp's Euclidean remainder by a day.
#[verifier::external_body]
pub(crate) fn utc_date_time(unix_seconds: i64) -> (r: Option<DateTime>)
    ensures
        r is Some ==> r->Some_0 == utc_date_time_of(unix_seconds),
        MIN_UTC_TIMESTAMP <= unix_seconds <= MAX_UTC_TIMESTAMP ==> r is Some,
        r is Some ==> {
            let in_day = unix_seconds as int % 86400;
            &&& r->Some_0.hour as int == in_day / 3600
            &&& r->Some_0.minute as int == (in_day % 3600) / 60
            &&& r->Some_0.second as int == in_day % 60
        },
{
    match time::OffsetDateTime::from_unix_timestamp(unix_seconds) {
        Ok(t) => Some(
            DateTime {
                year: t.year(),
                month: t.month() as u8,
                day: t.day(),
                hour: t.hour(),
                minute: t.minute(),
                second: t.second(),
            },
        ),
        Err(_) => None,
    }
}

/// Number of bytes of `path` in UTF-8.
pub open spec fn path_len_of(path: String) -> nat {
    encode_utf8(path@).len()
}

/// What is known of one entry: set when it starts, completed when it closes, and
/// kept for the central directory.
#[derive(Debug)]
pub struct Header {
    /// ZIP method code (0 stored, 8 deflate).
    pub compression_id: u16,
    /// The entry's name, stored byte for byte.
    pub path: String,
    /// MS-DOS packed time.
    pub modification_time: u16,
    /// MS-DOS packed date.
    pub modification_date: u16,
    pub compressed_size: u64,
    pub uncompressed_size: u64,
    pub crc32: u32,
    /// Offset of the entry's local header from the start of the archive.
    pub offset: u64,
}

/// Options of an entry before it is started.
#[derive(Debug)]
pub struct HeaderBuilder {
    pub path: Option<String>,
    pub modification_time: Option<u16>,
    pub modification_date: Option<u16>,
}

impl Header {
    /// The name as it is written: the UTF-8 bytes of the path.
    pub open spec fn name_bytes(self) -> Seq<u8> {
        encode_utf8(self.path@)
    }

    /// Whether the path fits a 16-bit name length.
    pub open spec fn path_fits(self) -> bool {
        self.name_bytes().len() <= MAX_PATH_LEN
    }

    /// General purpose flags: bit 3 (sizes in the data descriptor) always, bit 11
    /// (UTF-8 name) when the path holds a non-ASCII character.
    pub open spec fn flags(self) -> u16 {
        if is_ascii_chars(self.path@) {
            0x0008
        } else {
            0x0808
        }
    }

    /// The local file header: sizes left to the data descriptor, with a ZIP64
    /// extra field of two zeroed sizes.
    #[verifier::opaque]
    pub open spec fn local_record(self) -> Seq<u8> {
        le32(LOCAL_HEADER_SIGNATURE) + le16(VERSION) + le16(self.flags()) + le16(
            self.compression_id,
        ) + le16(self.modification_time) + le16(self.modification_date) + le32(0) + le32(
            0xFFFF_FFFF,
        ) + le32(0xFFFF_FFFF) + le16(self.name_bytes().len() as u16) + le16(LOCAL_EXTRA_LEN)
            + self.name_bytes() + le16(ZIP64_EXTRA_TAG) + le16(16) + le64(0) + le64(0)
    }

    /// Whether both sizes fit in 32 bits.
    pub open spec fn sizes_fit(self) -> bool {
        self.uncompressed_size <= MAX_U32_FIELD && self.compressed_size <= MAX_U32_FIELD
    }

    /// The data descriptor: signature, CRC-32, then the uncompressed and the
    /// compressed size, as 32-bit fields when both fit, else as 64-bit fields.
    #[verifier::opaque]
    pub open spec fn descriptor_record(self) -> Seq<u8> {
        if self.sizes_fit() {
            le32(DATA_DESCRIPTOR_SIGNATURE) + le32(self.crc32) + le32(
                self.uncompressed_size as u32,
            ) + le32(self.compressed_size as u32)
        } else {
            le32(DATA_DESCRIPTOR_SIGNATURE) + le32(self.crc32) + le64(self.uncompressed_size)
                + le64(self.compressed_size)
        }
    }

    /// Number of fields that overflow their 32-bit central directory slot.
    pub open spec fn overflow_count(self) -> nat {
        (if self.uncompressed_size > MAX_U32_FIELD { 1nat } else { 0nat }) + (
        if self.compressed_size > MAX_U32_FIELD {
            1nat
        } else {
            0nat
        }) + (if self.offset > MAX_U32_FIELD { 1nat } else { 0nat })
    }

    /// Declared length of the central record's extra field.
    pub open spec fn central_extra_len(self) -> nat {
        if self.overflow_count() == 0 {
            0
        } else {
            4 + 8 * self.overflow_count()
        }
    }

    /// The ZIP64 extra field of the central record: only the overflowing
    /// values, in the order uncompressed size, compressed size, offset.
    #[verifier::opaque]
    pub open spec fn central_extra(self) -> Seq<u8> {
        if self.overflow_count() == 0 {
            Seq::empty()
        } else {
            le16(ZIP64_EXTRA_TAG) + le16((8 * self.overflow_count()) as u16) + (
            if self.uncompressed_size > MAX_U32_FIELD {
                le64(self.uncompressed_size)
            } else {
                Seq::empty()
            }) + (if self.compressed_size > MAX_U32_FIELD {
                le64(self.compressed_size)
            } else {
                Seq::empty()
            }) + (if self.offset > MAX_U32_FIELD {
                le64(self.offset)
            } else {
                Seq::empty()
            })
        }
    }

    /// The central directory record, with sizes and offset clamped to 32 bits.
    #[verifier::opaque]
    pub open spec fn central_record(self) -> Seq<u8> {
        le32(CENTRAL_HEADER_SIGNATURE) + le16(VERSION) + le16(VERSION) + le16(self.flags())
            + le16(self.compression_id) + le16(self.modification_time) + le16(
            self.modification_date,
        ) + le32(self.crc32) + le32(clamp32(self.compressed_size)) + le32(
            clamp32(self.uncompressed_size),
        ) + le16(self.name_bytes().len() as u16) + le16(self.central_extra_len() as u16) + le16(
            0,
        ) + le16(0) + le16(0) + le32(0) + le32(clamp32(self.offset)) + self.name_bytes()
            + self.central_extra()
    }

    /// Length of the local header, counted field by field.
    pub open spec fn local_len(self) -> nat {
        (LOCAL_HEADER_FIXED_LEN + self.name_bytes().len() + LOCAL_EXTRA_LEN) as nat
    }

    /// Length of the data descriptor, counted field by field.
    pub open spec fn descriptor_len(self) -> nat {
        if self.sizes_fit() {
            16
        } else {
            24
        }
    }

    /// Length of the central record, counted field by field.
    pub open spec fn central_len(self) -> nat {
        (CENTRAL_RECORD_FIXED_LEN + self.name_bytes().len() + self.central_extra_len()) as nat
    }

    pub fn builder() -> (r: HeaderBuilder)
        ensures
            r.path is None,
            r.modification_time is None,
            r.modification_date is None,
    {
        HeaderBuilder { path: None, modification_date: None, modification_time: None }
    }

    pub fn path_str(&self) -> (r: &str)
        ensures
            r@ == self.path@,
    {
        self.path.as_str()
    }

    pub fn path_bytes(&self) -> (r: &[u8])
        ensures
            r@ == self.name_bytes(),
    {
        self.path_str().as_bytes()
    }

    fn flags_exec(&self) -> (r: u16)
        ensures
            r == self.flags(),
    {
        if self.path_str().is_ascii() {
            0x0008
        } else {
            0x0808
        }
    }

    /// The local file header of this entry.
    pub fn local_header_bytes(&self) -> (r: Vec<u8>)
        requires
            self.path_fits(),
        ensures
            r@ == self.local_record(),
            r@.len() == self.local_len(),
    {
        reveal(Header::local_record);
        let name = self.path_bytes();
        let mut buf = u32_bytes(LOCAL_HEADER_SIGNATURE);
        push_u16(&mut buf, VERSION);
        push_u16(&mut buf, self.flags_exec());
        push_u16(&mut buf, self.compression_id);
        push_u16(&mut buf, self.modification_time);
        push_u16(&mut buf, self.modification_date);
        push_u32(&mut buf, 0);
        push_u32(&mut buf, 0xFFFF_FFFF);
        push_u32(&mut buf, 0xFFFF_FFFF);
        push_u16(&mut buf, name.len() as u16);
        push_u16(&mut buf, LOCAL_EXTRA_LEN);
        push_bytes(&mut buf, name);
        push_u16(&mut buf, ZIP64_EXTRA_TAG);
        push_u16(&mut buf, 16);
        push_u64(&mut buf, 0);
        push_u64(&mut buf, 0);
        buf
    }

    /// The data descriptor of this entry.
    pub fn data_descriptor_bytes(&self) -> (r: Vec<u8>)
        ensures
            r@ == self.descriptor_record(),
            r@.len() == self.descriptor_len(),
    {
        reveal(Header::descriptor_record);
        let mut buf = u32_bytes(DATA_DESCRIPTOR_SIGNATURE);
        push_u32(&mut buf, self.crc32);
        if self.uncompressed_size <= MAX_U32_FIELD && self.compressed_size <= MAX_U32_FIELD {
            push_u32(&mut buf, self.uncompressed_size as u32);
            push_u32(&mut buf, self.compressed_size as u32);
        } else {
            push_u64(&mut buf, self.uncompressed_size);
            push_u64(&mut buf, self.compressed_size);
        }
        buf
    }

    /// The central directory record of this entry.
    pub fn central_record_bytes(&self) -> (r: Vec<u8>)
        requires
            self.path_fits(),
        ensures
            r@ == self.central_record(),
            r@.len() == self.central_len(),
    {
        reveal(Header::central_record);
        reveal(Header::central_extra);
        let big_uncompressed = self.uncompressed_size > MAX_U32_FIELD;
        let big_compressed = self.compressed_size > MAX_U32_FIELD;
        let big_offset = self.offset > MAX_U32_FIELD;
        let overflow: u16 = (if big_uncompressed { 1u16 } else { 0u16 }) + (if big_compressed {
            1u16
        } else {
            0u16
        }) + (if big_offset { 1u16 } else { 0u16 });
        let extra_len: u16 = if overflow > 0 { 4 + 8 * overflow } else { 0 };
        let name = self.path_bytes();
        let mut buf = u32_bytes(CENTRAL_HEADER_SIGNATURE);
        push_u16(&mut buf, VERSION);
        push_u16(&mut buf, VERSION);
        push_u16(&mut buf, self.flags_exec());
        push_u16(&mut buf, self.compression_id);
        push_u16(&mut buf, self.modification_time);
        push_u16(&mut buf, self.modification_date);
        push_u32(&mut buf, self.crc32);
        push_u32(&mut buf, clamp_u32(self.compressed_size));
        push_u32(&mut buf, clamp_u32(self.uncompressed_size));
        push_u16(&mut buf, name.len() as u16);
        push_u16(&mut buf, extra_len);
        push_u16(&mut buf, 0);
        push_u16(&mut buf, 0);
        push_u16(&mut buf, 0);
        push_u32(&mut buf, 0);
        push_u32(&mut buf, clamp_u32(self.offset));
        push_bytes(&mut buf, name);
        let ghost fixed = buf@;
        if overflow > 0 {
            push_u16(&mut buf, ZIP64_EXTRA_TAG);
            push_u16(&mut buf, 8 * overflow);
            if big_uncompressed {
                push_u64(&mut buf, self.uncompressed_size);
            }
            if big_compressed {
                push_u64(&mut buf, self.compressed_size);
            }
            if big_offset {
                push_u64(&mut buf, self.offset);
            }
        }
        assert(buf@ =~= fixed + self.central_extra());
        buf
    }
}

/// Each record is as long as its fields add up to.
pub proof fn lemma_record_lens(h: Header)
    ensures
        h.local_record().len() == h.local_len(),
        h.descriptor_record().len() == h.descriptor_len(),
        h.central_record().len() == h.central_len(),
{
    reveal(Header::local_record);
    reveal(Header::descriptor_record);
    reveal(Header::central_record);
    reveal(Header::central_extra);
}

/// The local header depends on the name, method, time and date alone, not on
/// the sizes, CRC or offset.
pub proof fn lemma_local_record_fields(a: Header, b: Header)
    requires
        a.path == b.path,
        a.compression_id == b.compression_id,
        a.modification_time == b.modification_time,
        a.modification_date == b.modification_date,
    ensures
        a.local_record() == b.local_record(),
{
    reveal(Header::local_record);
}

impl HeaderBuilder {
    /// The header of a fresh entry: sizes, CRC and offset zero, time and date
    /// zero where unset.
    pub fn build(self, compression_id: u16) -> (r: Header)
        requires
            self.path is Some,
        ensures
            r.path == self.path->Some_0,
            r.compression_id == compression_id,
            r.modification_time == (match self.modification_time {
                Some(t) => t,
                None => 0u16,
            }),
            r.modification_date == (match self.modification_date {
                Some(d) => d,
                None => 0u16,
            }),
            r.compressed_size == 0,
            r.uncompressed_size == 0,
            r.crc32 == 0,
            r.offset == 0,
    {
        let path = self.path.unwrap();
        let modification_time = match self.modification_time {
            Some(t) => t,
            None => 0,
        };
        let modification_date = match self.modification_date {
            Some(d) => d,
            None => 0,
        };
        Header {
            compression_id,
            path,
            modification_date,
            modification_time,
            compressed_size: 0,
            uncompressed_size: 0,
            crc32: 0,
            offset: 0,
        }
    }
}

} // verus!
