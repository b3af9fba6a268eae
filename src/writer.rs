//! The archive writer: entry lifecycle, central directory and end records.
use vstd::prelude::*;

use crate::compressor::{
    extends, zip_crc, Compressor, CompressorConfig, EntryData, HashWriteWrapper,
    StoreConfig,
};
use crate::format::{
    clamp32, clamp_u32, lemma_slice_len_bound, le16, le32, le64, push_u16,
    push_u32, push_u64, u32_bytes,
};
use crate::header::{
    lemma_local_record_fields, lemma_record_lens, path_len_of, utc_date_time, utc_date_time_of, DateTime, Header,
    HeaderBuilder, LOCAL_EXTRA_LEN, LOCAL_HEADER_FIXED_LEN, MAX_PATH_LEN, MAX_U32_FIELD,
    MAX_UTC_TIMESTAMP, MIN_UTC_TIMESTAMP, VERSION,
};
use crate::ZipError;

verus! {

pub const ZIP64_EOCD_SIGNATURE: u32 = 0x06064b50;

pub const ZIP64_LOCATOR_SIGNATURE: u32 = 0x07064b50;

pub const EOCD_SIGNATURE: u32 = 0x06054b50;

/// Size of the ZIP64 end-of-central-directory record after its first 12 bytes.
pub const ZIP64_EOCD_REMAINING_LEN: u64 = 44;

/// Total length of the three end records: 56 + 20 + 22 bytes.
pub const END_RECORDS_LEN: u64 = 98;

/// One entry as it stands in the stream: local header, payload, data descriptor.
pub open spec fn entry_record(h: Header, payload: Seq<u8>) -> Seq<u8> {
    h.local_record() + payload + h.descriptor_record()
}

/// The stream of closed entries, in the order they were added.
pub open spec fn entries_stream(hs: Seq<Header>, ps: Seq<Seq<u8>>) -> Seq<u8>
    decreases hs.len(),
{
    if hs.len() == 0 || ps.len() != hs.len() {
        Seq::empty()
    } else {
        entries_stream(hs.drop_last(), ps.drop_last()) + entry_record(hs.last(), ps.last())
    }
}

/// What holds of one closed entry whose local header starts at `offset`, with
/// `payload` the bytes that followed its header and `data` the bytes written to it.
pub open spec fn entry_ok(h: Header, payload: Seq<u8>, data: Seq<u8>, offset: int) -> bool {
    &&& h.offset == offset
    &&& h.path_fits()
    &&& h.compressed_size == payload.len()
    &&& h.uncompressed_size == data.len()
    &&& h.compression_id == 0 || h.compression_id == 8
    &&& h.compression_id == 0 ==> payload == data
}

/// Every entry of the list is well formed at the offset where the stream put it.
pub open spec fn entries_ok(hs: Seq<Header>, ps: Seq<Seq<u8>>, ds: Seq<Seq<u8>>) -> bool
    decreases hs.len(),
{
    &&& hs.len() == ps.len()
    &&& hs.len() == ds.len()
    &&& hs.len() > 0 ==> {
        &&& entries_ok(hs.drop_last(), ps.drop_last(), ds.drop_last())
        &&& entry_ok(
            hs.last(),
            ps.last(),
            ds.last(),
            entries_stream(hs.drop_last(), ps.drop_last()).len() as int,
        )
    }
}

/// The central directory: one record per entry, in the order they were added.
pub open spec fn central_directory(hs: Seq<Header>) -> Seq<u8>
    decreases hs.len(),
{
    if hs.len() == 0 {
        Seq::empty()
    } else {
        central_directory(hs.drop_last()) + hs.last().central_record()
    }
}

/// The central directory's size, summed record by record from the field widths.
pub open spec fn central_directory_size(hs: Seq<Header>) -> nat
    decreases hs.len(),
{
    if hs.len() == 0 {
        0
    } else {
        central_directory_size(hs.drop_last()) + hs.last().central_len()
    }
}

/// ZIP64 end-of-central-directory record.
#[verifier::opaque]
pub open spec fn zip64_eocd_record(count: u64, cd_size: u64, cd_offset: u64) -> Seq<u8> {
    le32(ZIP64_EOCD_SIGNATURE) + le64(ZIP64_EOCD_REMAINING_LEN) + le16(VERSION) + le16(VERSION)
        + le32(0) + le32(0) + le64(count) + le64(count) + le64(cd_size) + le64(cd_offset)
}

/// ZIP64 end-of-central-directory locator, pointing at the record above.
#[verifier::opaque]
pub open spec fn zip64_locator_record(eocd_offset: u64) -> Seq<u8> {
    le32(ZIP64_LOCATOR_SIGNATURE) + le32(0) + le64(eocd_offset) + le32(1)
}

/// Classic end-of-central-directory record: counts truncated to 16 bits, size
/// and offset clamped to 32 bits, no comment.
#[verifier::opaque]
pub open spec fn eocd_record(count: u64, cd_size: u64, cd_offset: u64) -> Seq<u8> {
    le32(EOCD_SIGNATURE) + le16(0) + le16(0) + le16(count as u16) + le16(count as u16) + le32(
        clamp32(cd_size),
    ) + le32(clamp32(cd_offset)) + le16(0)
}

/// The three records that close an archive whose central directory of
/// `cd_size` bytes starts at `cd_offset`.
pub open spec fn end_records(count: u64, cd_size: u64, cd_offset: u64) -> Seq<u8> {
    zip64_eocd_record(count, cd_size, cd_offset) + zip64_locator_record(
        (cd_offset + cd_size) as u64,
    ) + eocd_record(count, cd_size, cd_offset)
}

/// The closing records of an archive: central directory, then end records.
pub open spec fn archive_tail(hs: Seq<Header>, cd_offset: u64) -> Seq<u8> {
    central_directory(hs) + end_records(
        hs.len() as u64,
        central_directory(hs).len() as u64,
        cd_offset,
    )
}

/// The bytes of `chunks`, one after another.
pub open spec fn concat_chunks(chunks: Seq<Seq<u8>>) -> Seq<u8>
    decreases chunks.len(),
{
    if chunks.len() == 0 {
        Seq::empty()
    } else {
        concat_chunks(chunks.drop_last()) + chunks.last()
    }
}

/// The contents of each buffer.
pub open spec fn chunk_views(chunks: Seq<Vec<u8>>) -> Seq<Seq<u8>> {
    chunks.map_values(|c: Vec<u8>| c@)
}

/// The header of a stored entry named `path`, started at `offset`, once `data`
/// was written to it with the given CRC-32.
pub open spec fn stored_header(path: String, offset: u64, data: Seq<u8>, crc: u32) -> Header {
    Header {
        compression_id: 0,
        path: path,
        modification_time: 0,
        modification_date: 0,
        compressed_size: data.len() as u64,
        uncompressed_size: data.len() as u64,
        crc32: crc,
        offset: offset,
    }
}

/// Length of an entry in the stream: local header, payload, data descriptor.
pub open spec fn entry_len(h: Header) -> nat {
    (h.local_len() + h.compressed_size + h.descriptor_len()) as nat
}

/// A header completed with the sizes and CRC known once its entry closes.
pub open spec fn closed_header(h: Header, uncompressed: u64, compressed: u64, crc: u32) -> Header {
    Header { uncompressed_size: uncompressed, compressed_size: compressed, crc32: crc, ..h }
}

/// Writes a ZIP archive entry after entry. The bytes it emits wait in a buffer
/// until `take_output` hands them on, so a caller can forward them to any sink
/// as they come.
pub struct ZipWriter {
    write: Vec<u8>,
    flushed: Ghost<Seq<u8>>,
    position: u64,
    entries: Vec<Header>,
    payloads: Ghost<Seq<Seq<u8>>>,
    contents: Ghost<Seq<Seq<u8>>>,
}

impl ZipWriter {
    /// Every byte emitted so far, taken out or not.
    pub closed spec fn output(&self) -> Seq<u8> {
        self.flushed@ + self.write@
    }

    /// The emitted bytes not yet taken out.
    pub closed spec fn pending(&self) -> Seq<u8> {
        self.write@
    }

    /// Offset of the next byte.
    pub closed spec fn position(&self) -> u64 {
        self.position
    }

    /// Descriptors of the closed entries, in the order they were added.
    pub closed spec fn entries(&self) -> Seq<Header> {
        self.entries@
    }

    /// For each closed entry, the bytes between its local header and its data
    /// descriptor.
    pub closed spec fn payloads(&self) -> Seq<Seq<u8>> {
        self.payloads@
    }

    /// For each closed entry, the uncompressed bytes written to it.
    pub closed spec fn contents(&self) -> Seq<Seq<u8>> {
        self.contents@
    }

    pub closed spec fn wf(&self) -> bool {
        &&& self.position == self.output().len()
        &&& self.output() == entries_stream(self.entries@, self.payloads@)
        &&& entries_ok(self.entries@, self.payloads@, self.contents@)
    }

    /// This writer is `before` with one more closed entry `h`, whose payload is
    /// `payload` and whose uncompressed data is `data`.
    pub open spec fn added_entry(
        &self,
        before: ZipWriter,
        h: Header,
        payload: Seq<u8>,
        data: Seq<u8>,
    ) -> bool {
        &&& self.entries() == before.entries().push(h)
        &&& self.payloads() == before.payloads().push(payload)
        &&& self.contents() == before.contents().push(data)
        &&& self.output() == before.output() + entry_record(h, payload)
        &&& self.pending() == before.pending() + entry_record(h, payload)
        &&& self.position() == self.output().len()
        &&& self.position() == before.position() + entry_len(h)
    }

    /// Whether one more entry of `len` bytes keeps every offset below 2^64.
    pub open spec fn has_room(&self, len: nat) -> bool {
        self.position() + len <= u64::MAX
    }

    /// The complete archive that `finish` produces.
    pub open spec fn finished(&self) -> Seq<u8> {
        self.output() + archive_tail(self.entries(), self.position())
    }

    /// `position` once the archive is finished, counted as the writer counts it:
    /// central record lengths and the fixed end records added to the position.
    pub open spec fn finished_position(&self) -> nat {
        (self.position() + central_directory_size(self.entries()) + END_RECORDS_LEN) as nat
    }

    pub fn new() -> (r: ZipWriter)
        ensures
            r.wf(),
            r.output() == Seq::<u8>::empty(),
            r.pending() == Seq::<u8>::empty(),
            r.position() == 0,
            r.entries() == Seq::<Header>::empty(),
    {
        ZipWriter {
            write: Vec::new(),
            flushed: Ghost(Seq::empty()),
            position: 0,
            entries: Vec::new(),
            payloads: Ghost(Seq::empty()),
            contents: Ghost(Seq::empty()),
        }
    }

    /// The options of a new entry named `path`: stored, no modification time.
    pub fn start_file(path: String) -> (r: ZipEntryBuilder)
        ensures
            r.options().path == Some(path),
            r.options().modification_time is None,
            r.options().modification_date is None,
            r.config() is Store,
    {
        ZipEntryBuilder {
            header: HeaderBuilder {
                path: Some(path),
                modification_time: None,
                modification_date: None,
            },
            compressor_config: CompressorConfig::Store(StoreConfig),
        }
    }

    /// The options of a new stored entry named `path`, holding this writer until
    /// the entry is opened. Nothing is written yet.
    pub fn start_file_writer(self, path: String) -> (r: OwnedEntryBuilder)
        ensures
            r.zip() == self,
            r.builder().options().path == Some(path),
            r.builder().options().modification_time is None,
            r.builder().options().modification_date is None,
            r.builder().config() is Store,
    {
        OwnedEntryBuilder { builder: ZipWriter::start_file(path), zip: self }
    }

    /// Adds a stored entry named `path` holding `data`. A refused entry leaves
    /// the writer as it was.
    pub fn append_data(&mut self, path: String, data: &[u8]) -> (r: Result<(), ZipError>)
        requires
            old(self).wf(),
        ensures
            final(self).wf(),
            r is Err ==> *final(self) == *old(self),
            path_len_of(path) > MAX_PATH_LEN ==> r == Err::<(), ZipError>(ZipError::PathTooLong),
            path_len_of(path) <= MAX_PATH_LEN ==> {
                let h = stored_header(
                    path,
                    old(self).position(),
                    data@,
                    zip_crc(data@),
                );
                &&& r is Ok <==> old(self).has_room(entry_len(h))
                &&& r is Err ==> r == Err::<(), ZipError>(ZipError::ArchiveTooLarge)
                &&& r is Ok ==> final(self).added_entry(*old(self), h, data@, data@)
            },
    {
        ZipWriter::start_file(path).write_all(self, data)
    }

    /// Adds a stored entry named `path` whose data arrives in `chunks`, one
    /// after another. A refused entry leaves the writer as it was.
    pub fn append(&mut self, path: String, chunks: &Vec<Vec<u8>>) -> (r: Result<(), ZipError>)
        requires
            old(self).wf(),
            concat_chunks(chunk_views(chunks@)).len() <= u64::MAX,
        ensures
            final(self).wf(),
            r is Err ==> *final(self) == *old(self),
            path_len_of(path) > MAX_PATH_LEN ==> r == Err::<(), ZipError>(ZipError::PathTooLong),
            path_len_of(path) <= MAX_PATH_LEN ==> {
                let h = stored_header(
                    path,
                    old(self).position(),
                    concat_chunks(chunk_views(chunks@)),
                    zip_crc(concat_chunks(chunk_views(chunks@))),
                );
                let data = concat_chunks(chunk_views(chunks@));
                &&& r is Ok <==> old(self).has_room(entry_len(h))
                &&& r is Err ==> r == Err::<(), ZipError>(ZipError::ArchiveTooLarge)
                &&& r is Ok ==> final(self).added_entry(*old(self), h, data, data)
            },
    {
        let name_len = path.as_str().as_bytes().len();
        if name_len > MAX_PATH_LEN {
            return Err(ZipError::PathTooLong);
        }
        let ghost views = chunk_views(chunks@);
        let total = chunks_len(chunks);
        if !self.room_for_stored(name_len, total) {
            return Err(ZipError::ArchiveTooLarge);
        }
        let mut taken = ZipWriter::new();
        std::mem::swap(self, &mut taken);
        let ghost start = taken;
        let builder = ZipWriter::start_file(path);
        let ghost h0 = builder.opened_header(start.position());
        proof {
            lemma_wf_output(&start);
            reveal(Header::local_record);
        }
        let mut fw = match builder.writer(taken) {
            Ok(fw) => fw,
            Err((e, back)) => {
                *self = back;
                return Err(e);
            },
        };
        proof {
            assert(views.take(0) =~= Seq::<Seq<u8>>::empty());
        }
        let mut i: usize = 0;
        while i < chunks.len()
            invariant
                fw.wf(),
                0 <= i <= chunks@.len(),
                views == chunk_views(chunks@),
                concat_chunks(views).len() == total,
                fw.prior_entries() == start.entries(),
                fw.prior_payloads() == start.payloads(),
                fw.prior_contents() == start.contents(),
                fw.prior_output() == start.output(),
                fw.pending() == start.pending() + h0.local_record() + fw.payload(),
                fw.header() == h0,
                fw.is_store(),
                fw.chunks() == views.take(i as int),
                fw.data() == concat_chunks(views.take(i as int)),
                fw.payload() == fw.data(),
                fw.position() == start.position() + h0.local_len() + fw.data().len(),
                start.position() + h0.local_len() + total + (if total <= MAX_U32_FIELD {
                    16int
                } else {
                    24int
                }) <= u64::MAX,
            decreases chunks@.len() - i,
        {
            proof {
                assert(views.take(i + 1).drop_last() =~= views.take(i as int));
                lemma_concat_prefix_len(views, i + 1);
            }
            match fw.write_all(chunks[i].as_slice()) {
                Ok(()) => {},
                Err(e) => {
                    return Err(e);
                },
            }
            proof {
                assert(views.take(i + 1) =~= views.take(i as int).push(views[i as int]));
            }
            i = i + 1;
        }
        proof {
            assert(views.take(i as int) =~= views);
        }
        let ghost written = fw;
        match fw.finish() {
            Ok(w) => {
                proof {
                    let h = w.entries().last();
                    lemma_local_record_fields(h, h0);
                    assert(w.pending() =~= start.pending() + entry_record(h, w.payloads().last()));
                }
                *self = w;
                Ok(())
            },
            Err(e) => Err(e),
        }
    }

    /// Whether a stored entry with a name of `name_len` bytes and `data_len`
    /// bytes of data keeps every offset below 2^64.
    fn room_for_stored(&self, name_len: usize, data_len: u64) -> (r: bool)
        requires
            self.wf(),
            name_len <= MAX_PATH_LEN,
        ensures
            r <==> self.position() + LOCAL_HEADER_FIXED_LEN + name_len + LOCAL_EXTRA_LEN + data_len
                + (if data_len <= MAX_U32_FIELD {
                16int
            } else {
                24int
            }) <= u64::MAX,
    {
        let descriptor_len: u64 = if data_len <= MAX_U32_FIELD {
            16
        } else {
            24
        };
        let fixed = LOCAL_HEADER_FIXED_LEN + name_len as u64 + LOCAL_EXTRA_LEN as u64
            + descriptor_len;
        self.position <= u64::MAX - fixed && data_len <= u64::MAX - fixed - self.position
    }

    /// Hands on the bytes emitted since the last call.
    pub fn take_output(&mut self) -> (r: Vec<u8>)
        requires
            old(self).wf(),
        ensures
            final(self).wf(),
            r@ == old(self).pending(),
            final(self).pending() == Seq::<u8>::empty(),
            final(self).output() == old(self).output(),
            final(self).position() == old(self).position(),
            final(self).entries() == old(self).entries(),
            final(self).payloads() == old(self).payloads(),
            final(self).contents() == old(self).contents(),
    {
        let mut taken: Vec<u8> = Vec::new();
        std::mem::swap(&mut self.write, &mut taken);
        proof {
            self.flushed@ = self.flushed@ + taken@;
            assert(self.output() =~= old(self).output());
        }
        taken
    }

    /// Writes the central directory and the end records, and returns the
    /// bytes not yet taken out, which end the archive. Refused, with
    /// `ArchiveTooLarge`, when the archive would reach 2^64 bytes.
    pub fn finish(self) -> (r: Result<Vec<u8>, ZipError>)
        requires
            self.wf(),
        ensures
            r is Ok <==> self.finished_position() <= u64::MAX,
            r is Err ==> r == Err::<Vec<u8>, ZipError>(ZipError::ArchiveTooLarge),
            r is Ok ==> r->Ok_0@ == self.pending() + archive_tail(self.entries(), self.position()),
    {
        self.write_central_directory()
    }

    /// The bytes emitted and not yet taken out; the archive is complete only
    /// after `finish`.
    pub fn into_inner(self) -> (r: Vec<u8>)
        ensures
            r@ == self.pending(),
    {
        self.write
    }

    /// Writes the central directory, one record per entry in the order the
    /// entries were added, and the end records; the same as `finish`.
    pub fn write_central_directory(self) -> (r: Result<Vec<u8>, ZipError>)
        requires
            self.wf(),
        ensures
            r is Ok <==> self.finished_position() <= u64::MAX,
            r is Err ==> r == Err::<Vec<u8>, ZipError>(ZipError::ArchiveTooLarge),
            r is Ok ==> r->Ok_0@ == self.pending() + archive_tail(self.entries(), self.position()),
    {
        let mut zip = self;
        let ghost hs = zip.entries@;
        let ghost start = zip.write@;
        proof {
            lemma_entries_ok_paths_fit(zip.entries@, zip.payloads@, zip.contents@);
        }
        if zip.position > u64::MAX - END_RECORDS_LEN {
            return Err(ZipError::ArchiveTooLarge);
        }
        let room = u64::MAX - END_RECORDS_LEN - zip.position;
        let entries_count = zip.entries.len() as u64;
        let central_directory_offset = zip.position;
        let mut cd_size: u64 = 0;
        let mut i: usize = 0;
        while i < zip.entries.len()
            invariant
                zip.entries@ == hs,
                self.entries() == hs,
                self.position() == central_directory_offset,
                0 <= i <= hs.len(),
                forall|j: int| 0 <= j < hs.len() ==> (#[trigger] hs[j]).path_fits(),
                zip.position == central_directory_offset,
                room == u64::MAX - END_RECORDS_LEN - central_directory_offset,
                zip.write@ == start + central_directory(hs.take(i as int)),
                cd_size == central_directory(hs.take(i as int)).len(),
                cd_size == central_directory_size(hs.take(i as int)),
                cd_size <= room,
            decreases hs.len() - i,
        {
            let mut record = zip.entries[i].central_record_bytes();
            let record_len = record.len();
            proof {
                assert(hs.take(i + 1).drop_last() =~= hs.take(i as int));
                assert(hs.take(i + 1).last() == hs[i as int]);
                assert(central_directory_size(hs.take(i + 1)) == cd_size + record_len);
                lemma_central_directory_size_prefix(hs, i + 1);
            }
            if record_len as u64 > room - cd_size {
                return Err(ZipError::ArchiveTooLarge);
            }
            zip.write.append(&mut record);
            proof {
                assert(zip.write@ =~= start + central_directory(hs.take(i + 1)));
            }
            cd_size = cd_size + record_len as u64;
            i = i + 1;
        }
        proof {
            assert(hs.take(hs.len() as int) =~= hs);
        }
        zip.position = zip.position + cd_size;
        let mut tail = end_records_bytes(entries_count, cd_size, central_directory_offset);
        zip.write.append(&mut tail);
        Ok(zip.write)
    }
}

/// The options of one entry: its header fields and its compression method.
pub struct ZipEntryBuilder {
    header: HeaderBuilder,
    compressor_config: CompressorConfig,
}

impl ZipEntryBuilder {
    #[verifier::type_invariant]
    spec fn inv(self) -> bool {
        self.header.path is Some
    }

    pub closed spec fn options(self) -> HeaderBuilder {
        self.header
    }

    pub closed spec fn config(self) -> CompressorConfig {
        self.compressor_config
    }

    /// The header that starting this entry at `offset` writes.
    pub open spec fn opened_header(self, offset: u64) -> Header {
        Header {
            compression_id: if self.config() is Store {
                0
            } else {
                8
            },
            path: self.options().path->Some_0,
            modification_time: match self.options().modification_time {
                Some(t) => t,
                None => 0,
            },
            modification_date: match self.options().modification_date {
                Some(d) => d,
                None => 0,
            },
            compressed_size: 0,
            uncompressed_size: 0,
            crc32: 0,
            offset: offset,
        }
    }

    /// Chooses the compression method.
    pub fn compression(self, compressor_config: CompressorConfig) -> (r: ZipEntryBuilder)
        ensures
            r.options() == self.options(),
            r.config() == compressor_config,
    {
        proof {
            use_type_invariant(&self);
        }
        ZipEntryBuilder { compressor_config, header: self.header }
    }

    /// Renames the entry.
    pub fn path(self, path: String) -> (r: ZipEntryBuilder)
        ensures
            r.options() == (HeaderBuilder { path: Some(path), ..self.options() }),
            r.config() == self.config(),
    {
        ZipEntryBuilder {
            header: HeaderBuilder {
                path: Some(path),
                modification_time: self.header.modification_time,
                modification_date: self.header.modification_date,
            },
            compressor_config: self.compressor_config,
        }
    }

    /// Sets the modification time and date.
    pub fn modification_date_time(self, date_time: DateTime) -> (r: ZipEntryBuilder)
        ensures
            r.options() == (HeaderBuilder {
                modification_time: Some(date_time.dos_time()),
                modification_date: Some(date_time.dos_date()),
                ..self.options()
            }),
            r.config() == self.config(),
    {
        proof {
            use_type_invariant(&self);
        }
        ZipEntryBuilder {
            header: HeaderBuilder {
                path: self.header.path,
                modification_time: Some(date_time.to_dos_time()),
                modification_date: Some(date_time.to_dos_date()),
            },
            compressor_config: self.compressor_config,
        }
    }

    /// Sets the modification time and date from a Unix timestamp, read in UTC.
    /// A timestamp beyond the years the calendar conversion covers may leave
    /// them as they were.
    pub fn modification(self, unix_seconds: i64) -> (r: ZipEntryBuilder)
        ensures
            r.config() == self.config(),
            MIN_UTC_TIMESTAMP <= unix_seconds <= MAX_UTC_TIMESTAMP ==> r.options() == (
            HeaderBuilder {
                modification_time: Some(utc_date_time_of(unix_seconds).dos_time()),
                modification_date: Some(utc_date_time_of(unix_seconds).dos_date()),
                ..self.options()
            }),
            r.options() == self.options() || r.options() == (HeaderBuilder {
                modification_time: Some(utc_date_time_of(unix_seconds).dos_time()),
                modification_date: Some(utc_date_time_of(unix_seconds).dos_date()),
                ..self.options()
            }),
    {
        match utc_date_time(unix_seconds) {
            Some(date_time) => self.modification_date_time(date_time),
            None => self,
        }
    }

    /// Starts the entry on an owned writer: writes its local header and returns
    /// the writer of its data.
    /// A refused entry hands `zip` back unchanged with the error.
    pub fn writer(self, zip: ZipWriter) -> (r: Result<ZipFileWriter, (ZipError, ZipWriter)>)
        requires
            zip.wf(),
        ensures
            r is Err ==> r->Err_0.1 == zip,
            path_len_of(self.options().path->Some_0) > MAX_PATH_LEN ==> r is Err && r->Err_0.0
                == ZipError::PathTooLong,
            path_len_of(self.options().path->Some_0) <= MAX_PATH_LEN ==> {
                let h = self.opened_header(zip.position());
                &&& r is Ok <==> zip.has_room(h.local_len())
                &&& r is Err ==> r->Err_0.0 == ZipError::ArchiveTooLarge
                &&& r is Ok ==> r->Ok_0.opened_from(zip, h, self.config() is Store)
            },
            r is Ok && self.config() is Deflate ==> r->Ok_0.level()
                == self.config()->Deflate_0.spec_level(),
    {
        proof {
            use_type_invariant(&self);
        }
        let compressor = Compressor::new(self.compressor_config);
        let id = compressor.compression_id();
        let mut header = self.header.build(id);
        let name_len = header.path_bytes().len();
        if name_len > MAX_PATH_LEN {
            return Err((ZipError::PathTooLong, zip));
        }
        let mut zip = zip;
        let ghost zip0 = zip;
        header.offset = zip.position;
        let mut local = header.local_header_bytes();
        let local_len = local.len();
        if local_len as u64 > u64::MAX - zip.position {
            return Err((ZipError::ArchiveTooLarge, zip));
        }
        let ghost local_record = local@;
        zip.write.append(&mut local);
        zip.position = zip.position + local_len as u64;
        proof {
            assert(zip.output() =~= zip0.output() + local_record);
            assert(Seq::<u8>::empty() + local_record =~= local_record);
            assert(zip.output() =~= entries_stream(zip.entries@, zip.payloads@) + header.local_record()
                + Seq::<u8>::empty());
        }
        let payload_start = zip.position;
        Ok(
            ZipFileWriter {
                zip,
                inner: HashWriteWrapper::new(compressor),
                header,
                payload_start,
                payload: Ghost(Seq::empty()),
            },
        )
    }

    /// Writes a whole entry holding `data` into `zip`. A stored entry that is
    /// refused leaves `zip` as it was; after any other failure `zip` is empty.
    pub fn write_all(self, zip: &mut ZipWriter, data: &[u8]) -> (r: Result<(), ZipError>)
        requires
            old(zip).wf(),
        ensures
            final(zip).wf(),
            path_len_of(self.options().path->Some_0) > MAX_PATH_LEN ==> r == Err::<(), ZipError>(
                ZipError::PathTooLong,
            ) && *final(zip) == *old(zip),
            path_len_of(self.options().path->Some_0) <= MAX_PATH_LEN && self.config() is Store ==> {
                let h = closed_header(
                    self.opened_header(old(zip).position()),
                    data@.len() as u64,
                    data@.len() as u64,
                    zip_crc(data@),
                );
                &&& r is Ok <==> old(zip).has_room(entry_len(h))
                &&& r is Err ==> r == Err::<(), ZipError>(ZipError::ArchiveTooLarge) && *final(zip)
                    == *old(zip)
            },
            path_len_of(self.options().path->Some_0) <= MAX_PATH_LEN && !old(zip).has_room(
                self.opened_header(old(zip).position()).local_len(),
            ) ==> r == Err::<(), ZipError>(ZipError::ArchiveTooLarge) && *final(zip) == *old(zip),
            path_len_of(self.options().path->Some_0) <= MAX_PATH_LEN && r is Err ==> r == Err::<
                (),
                ZipError,
            >(ZipError::CompressorFailure) || r == Err::<(), ZipError>(ZipError::ArchiveTooLarge),
            r is Ok ==> {
                let p = final(zip).payloads().last();
                let h = closed_header(
                    self.opened_header(old(zip).position()),
                    data@.len() as u64,
                    p.len() as u64,
                    zip_crc(data@),
                );
                &&& final(zip).added_entry(*old(zip), h, p, data@)
                &&& self.config() is Store ==> p == data@
            },
    {
        proof {
            use_type_invariant(&self);
            lemma_slice_len_bound(data);
        }
        let name_len = match &self.header.path {
            Some(p) => p.as_str().as_bytes().len(),
            None => 0,
        };
        if name_len > MAX_PATH_LEN {
            return Err(ZipError::PathTooLong);
        }
        let is_store = match self.compressor_config {
            CompressorConfig::Store(_) => true,
            CompressorConfig::Deflate(_) => false,
        };
        if is_store && !zip.room_for_stored(name_len, data.len() as u64) {
            return Err(ZipError::ArchiveTooLarge);
        }
        let mut taken = ZipWriter::new();
        std::mem::swap(zip, &mut taken);
        let ghost start = taken;
        proof {
            lemma_wf_output(&start);
            reveal(Header::local_record);
        }
        let mut fw = match self.writer(taken) {
            Ok(fw) => fw,
            Err((e, back)) => {
                *zip = back;
                return Err(e);
            },
        };
        let ghost opened = fw;
        proof {
            assert(Seq::<u8>::empty() + data@ =~= data@);
            assert(Seq::<Seq<u8>>::empty().push(data@) =~= seq![data@]);
        }
        match fw.write_all(data) {
            Ok(()) => {},
            Err(e) => {
                return Err(e);
            },
        }
        let ghost written = fw;
        match fw.finish() {
            Ok(w) => {
                proof {
                    lemma_closed_pending(start, opened, written, w);
                }
                *zip = w;
                Ok(())
            },
            Err(e) => Err(e),
        }
    }
}

/// The options of one entry together with the archive writer it will be
/// started on. Nothing is written until `writer` opens the entry, so the writer
/// can only be reached again through the entry it opens.
pub struct OwnedEntryBuilder {
    builder: ZipEntryBuilder,
    zip: ZipWriter,
}

impl OwnedEntryBuilder {
    /// The entry's options.
    pub closed spec fn builder(self) -> ZipEntryBuilder {
        self.builder
    }

    /// The writer the entry will be started on.
    pub closed spec fn zip(self) -> ZipWriter {
        self.zip
    }

    /// Chooses the compression method.
    pub fn compression(self, compressor_config: CompressorConfig) -> (r: OwnedEntryBuilder)
        ensures
            r.zip() == self.zip(),
            r.builder().options() == self.builder().options(),
            r.builder().config() == compressor_config,
    {
        OwnedEntryBuilder { builder: self.builder.compression(compressor_config), zip: self.zip }
    }

    /// Renames the entry.
    pub fn path(self, path: String) -> (r: OwnedEntryBuilder)
        ensures
            r.zip() == self.zip(),
            r.builder().options() == (HeaderBuilder { path: Some(path), ..self.builder().options() }),
            r.builder().config() == self.builder().config(),
    {
        OwnedEntryBuilder { builder: self.builder.path(path), zip: self.zip }
    }

    /// Sets the modification time and date.
    pub fn modification_date_time(self, date_time: DateTime) -> (r: OwnedEntryBuilder)
        ensures
            r.zip() == self.zip(),
            r.builder().options() == (HeaderBuilder {
                modification_time: Some(date_time.dos_time()),
                modification_date: Some(date_time.dos_date()),
                ..self.builder().options()
            }),
            r.builder().config() == self.builder().config(),
    {
        OwnedEntryBuilder { builder: self.builder.modification_date_time(date_time), zip: self.zip }
    }

    /// Sets the modification time and date from a Unix timestamp, read in UTC.
    pub fn modification(self, unix_seconds: i64) -> (r: OwnedEntryBuilder)
        ensures
            r.zip() == self.zip(),
            r.builder().config() == self.builder().config(),
            MIN_UTC_TIMESTAMP <= unix_seconds <= MAX_UTC_TIMESTAMP ==> r.builder().options() == (
            HeaderBuilder {
                modification_time: Some(utc_date_time_of(unix_seconds).dos_time()),
                modification_date: Some(utc_date_time_of(unix_seconds).dos_date()),
                ..self.builder().options()
            }),
            r.builder().options() == self.builder().options() || r.builder().options() == (
            HeaderBuilder {
                modification_time: Some(utc_date_time_of(unix_seconds).dos_time()),
                modification_date: Some(utc_date_time_of(unix_seconds).dos_date()),
                ..self.builder().options()
            }),
    {
        OwnedEntryBuilder { builder: self.builder.modification(unix_seconds), zip: self.zip }
    }

    /// Opens the entry: writes its local header and returns the writer of its
    /// data. A refused entry hands the archive writer back unchanged.
    pub fn writer(self) -> (r: Result<ZipFileWriter, (ZipError, ZipWriter)>)
        requires
            self.zip().wf(),
        ensures
            r is Err ==> r->Err_0.1 == self.zip(),
            path_len_of(self.builder().options().path->Some_0) > MAX_PATH_LEN ==> r is Err
                && r->Err_0.0 == ZipError::PathTooLong,
            path_len_of(self.builder().options().path->Some_0) <= MAX_PATH_LEN ==> {
                let h = self.builder().opened_header(self.zip().position());
                &&& r is Ok <==> self.zip().has_room(h.local_len())
                &&& r is Err ==> r->Err_0.0 == ZipError::ArchiveTooLarge
                &&& r is Ok ==> r->Ok_0.opened_from(
                    self.zip(),
                    h,
                    self.builder().config() is Store,
                )
            },
            r is Ok && self.builder().config() is Deflate ==> r->Ok_0.level()
                == self.builder().config()->Deflate_0.spec_level(),
    {
        self.builder.writer(self.zip)
    }
}

/// Writes the data of one open entry. It owns the archive writer until
/// `finish` hands it back, so nothing else can reach the archive meanwhile.
pub struct ZipFileWriter {
    zip: ZipWriter,
    inner: HashWriteWrapper,
    header: Header,
    payload_start: u64,
    payload: Ghost<Seq<u8>>,
}

impl ZipFileWriter {
    /// Every byte emitted so far, the open entry's included.
    pub closed spec fn output(&self) -> Seq<u8> {
        self.zip.output()
    }

    /// The emitted bytes not yet taken out.
    pub closed spec fn pending(&self) -> Seq<u8> {
        self.zip.write@
    }

    /// Offset of the next byte.
    pub closed spec fn position(&self) -> u64 {
        self.zip.position
    }

    /// The entries closed before this one.
    pub closed spec fn prior_entries(&self) -> Seq<Header> {
        self.zip.entries@
    }

    pub closed spec fn prior_payloads(&self) -> Seq<Seq<u8>> {
        self.zip.payloads@
    }

    pub closed spec fn prior_contents(&self) -> Seq<Seq<u8>> {
        self.zip.contents@
    }

    /// The stream as it stood before this entry started.
    pub open spec fn prior_output(&self) -> Seq<u8> {
        entries_stream(self.prior_entries(), self.prior_payloads())
    }

    /// The header written when the entry started.
    pub closed spec fn header(&self) -> Header {
        self.header
    }

    /// Compressed bytes emitted since the local header.
    pub closed spec fn payload(&self) -> Seq<u8> {
        self.payload@
    }

    /// Uncompressed bytes taken in so far.
    pub closed spec fn data(&self) -> Seq<u8> {
        self.inner.data()
    }

    /// The chunks taken in so far, in order.
    pub closed spec fn chunks(&self) -> Seq<Seq<u8>> {
        self.inner.chunks()
    }

    pub closed spec fn is_store(&self) -> bool {
        self.inner.is_store()
    }

    /// The deflate level the entry is compressed with; 0 for a stored entry.
    pub closed spec fn level(&self) -> u32 {
        self.inner.level()
    }

    pub closed spec fn wf(&self) -> bool {
        &&& self.zip.position == self.zip.output().len()
        &&& self.zip.output() == entries_stream(self.zip.entries@, self.zip.payloads@)
            + self.header.local_record() + self.payload@
        &&& entries_ok(self.zip.entries@, self.zip.payloads@, self.zip.contents@)
        &&& self.header.offset == entries_stream(self.zip.entries@, self.zip.payloads@).len()
        &&& self.header.path_fits()
        &&& self.inner.wf()
        &&& self.payload_start + self.payload@.len() == self.zip.position
        &&& self.header.compression_id == (if self.inner.is_store() {
            0u16
        } else {
            8u16
        })
        &&& self.inner.is_store() ==> self.payload@ == self.inner.data()
    }

    /// This writer has just started the entry `h` on `zip`.
    pub open spec fn opened_from(&self, zip: ZipWriter, h: Header, store: bool) -> bool {
        &&& self.wf()
        &&& self.prior_entries() == zip.entries()
        &&& self.prior_payloads() == zip.payloads()
        &&& self.prior_contents() == zip.contents()
        &&& self.prior_output() == zip.output()
        &&& self.header() == h
        &&& self.is_store() == store
        &&& self.chunks() == Seq::<Seq<u8>>::empty()
        &&& self.data() == Seq::<u8>::empty()
        &&& self.payload() == Seq::<u8>::empty()
        &&& self.output() == zip.output() + h.local_record()
        &&& self.pending() == zip.pending() + h.local_record()
        &&& self.position() == zip.position() + h.local_len()
    }

    /// This writer is `before` after `buf` was written to it.
    pub open spec fn wrote(&self, before: &ZipFileWriter, buf: Seq<u8>) -> bool {
        let fresh = self.payload().subrange(
            before.payload().len() as int,
            self.payload().len() as int,
        );
        &&& self.wf()
        &&& self.same_entry(before)
        &&& self.chunks() == before.chunks().push(buf)
        &&& self.data() == before.data() + buf
        &&& extends(self.payload(), before.payload())
        &&& before.is_store() ==> self.payload() == before.payload() + buf
        &&& self.pending() == before.pending() + fresh
        &&& self.position() == before.position() + fresh.len()
    }

    /// `w` is what closing this entry hands back: the entry, completed with its
    /// sizes and CRC, follows the ones closed before it.
    pub open spec fn closed_into(&self, w: ZipWriter) -> bool {
        let p = w.payloads().last();
        let h = closed_header(
            self.header(),
            self.data().len() as u64,
            p.len() as u64,
            zip_crc(self.data()),
        );
        &&& w.wf()
        &&& w.payloads() == self.prior_payloads().push(p)
        &&& extends(p, self.payload())
        &&& self.is_store() ==> p == self.payload()
        &&& w.entries() == self.prior_entries().push(h)
        &&& w.contents() == self.prior_contents().push(self.data())
        &&& w.output() == self.prior_output() + entry_record(h, p)
        &&& w.pending() == self.pending() + p.subrange(self.payload().len() as int, p.len() as int)
            + h.descriptor_record()
        &&& w.position() == w.output().len()
        &&& w.position() == self.position() + (p.len() - self.payload().len()) + h.descriptor_len()
    }

    /// Everything but the data and payload is as in `other`.
    pub open spec fn same_entry(&self, other: &ZipFileWriter) -> bool {
        &&& self.prior_entries() == other.prior_entries()
        &&& self.prior_payloads() == other.prior_payloads()
        &&& self.prior_contents() == other.prior_contents()
        &&& self.header() == other.header()
        &&& self.is_store() == other.is_store()
    }

    /// Hands on the bytes emitted since the last call.
    pub fn take_output(&mut self) -> (r: Vec<u8>)
        requires
            old(self).wf(),
        ensures
            final(self).wf(),
            final(self).same_entry(old(self)),
            r@ == old(self).pending(),
            final(self).pending() == Seq::<u8>::empty(),
            final(self).output() == old(self).output(),
            final(self).position() == old(self).position(),
            final(self).payload() == old(self).payload(),
            final(self).data() == old(self).data(),
            final(self).chunks() == old(self).chunks(),
    {
        let mut taken: Vec<u8> = Vec::new();
        std::mem::swap(&mut self.zip.write, &mut taken);
        proof {
            self.zip.flushed@ = self.zip.flushed@ + taken@;
            assert(self.zip.output() =~= old(self).zip.output());
        }
        taken
    }

    /// Appends `buf` to the entry's data: it is hashed, compressed, and the
    /// compressed bytes go to the archive.
    pub fn write_all(&mut self, buf: &[u8]) -> (r: Result<(), ZipError>)
        requires
            old(self).wf(),
            old(self).data().len() + buf@.len() <= u64::MAX,
        ensures
            r is Ok ==> final(self).wrote(old(self), buf@),
            r is Err ==> r == Err::<(), ZipError>(ZipError::CompressorFailure) || r == Err::<
                (),
                ZipError,
            >(ZipError::ArchiveTooLarge),
            old(self).is_store() ==> (r is Ok <==> old(self).position() + buf@.len()
                <= u64::MAX),
            old(self).is_store() && r is Err ==> r == Err::<(), ZipError>(
                ZipError::ArchiveTooLarge,
            ),
    {
        let produced = match self.inner.write_all(buf) {
            Ok(produced) => produced,
            Err(e) => {
                return Err(e);
            },
        };
        let ghost fresh = produced@;
        let ghost old_payload = self.payload@;
        let ghost old_output = self.zip.output();
        match emit(&mut self.zip, produced) {
            Ok(()) => {},
            Err(e) => {
                return Err(e);
            },
        }
        proof {
            self.payload@ = self.payload@ + fresh;
            assert(self.payload@.subrange(0, old_payload.len() as int) =~= old_payload);
            assert(self.payload@.subrange(old_payload.len() as int, self.payload@.len() as int)
                =~= fresh);
            assert(self.zip.output() =~= old_output + fresh);
            assert(self.zip.output() =~= entries_stream(self.zip.entries@, self.zip.payloads@)
                + self.header.local_record() + self.payload@);
        }
        Ok(())
    }

    /// Closes the entry: flushes the compressor, writes the data descriptor,
    /// records the entry, and hands the archive writer back.
    pub fn finish(self) -> (r: Result<ZipWriter, ZipError>)
        requires
            self.wf(),
        ensures
            r is Ok ==> self.closed_into(r->Ok_0),
            r is Err ==> r == Err::<ZipWriter, ZipError>(ZipError::CompressorFailure) || r
                == Err::<ZipWriter, ZipError>(ZipError::ArchiveTooLarge),
            self.is_store() ==> {
                let h = closed_header(
                    self.header(),
                    self.data().len() as u64,
                    self.data().len() as u64,
                    zip_crc(self.data()),
                );
                &&& r is Ok <==> self.position() + h.descriptor_len() <= u64::MAX
                &&& r is Err ==> r == Err::<ZipWriter, ZipError>(ZipError::ArchiveTooLarge)
            },
    {
        let ZipFileWriter { zip, inner, header, payload_start, payload } = self;
        let ghost data = inner.data();
        let (crc, uncompressed, rest) = match inner.finish() {
            Ok(done) => done,
            Err(e) => {
                return Err(e);
            },
        };
        let ghost tail = rest@;
        let r = close_entry(zip, header, payload_start, crc, uncompressed, rest, payload, Ghost(data));
        proof {
            let p = payload@ + tail;
            assert(p.subrange(0, payload@.len() as int) =~= payload@);
            assert(p.subrange(payload@.len() as int, p.len() as int) =~= tail);
            if header.compression_id == 0 {
                assert(p =~= payload@);
            }
        }
        r
    }
}

/// Appends compressed bytes to the archive. Refused, with `ArchiveTooLarge`
/// and nothing written, exactly when the archive would pass 2^64 bytes.
fn emit(zip: &mut ZipWriter, produced: Vec<u8>) -> (r: Result<(), ZipError>)
    requires
        old(zip).position == old(zip).output().len(),
    ensures
        r is Ok <==> old(zip).position + produced@.len() <= u64::MAX,
        r is Err ==> r == Err::<(), ZipError>(ZipError::ArchiveTooLarge) && *final(zip) == *old(zip),
        r is Ok ==> {
            &&& final(zip).write@ == old(zip).write@ + produced@
            &&& final(zip).output() == old(zip).output() + produced@
            &&& final(zip).position == old(zip).position + produced@.len()
            &&& final(zip).position == final(zip).output().len()
            &&& final(zip).entries@ == old(zip).entries@
            &&& final(zip).payloads@ == old(zip).payloads@
            &&& final(zip).contents@ == old(zip).contents@
        },
{
    let produced_len = produced.len();
    if produced_len as u64 > u64::MAX - zip.position {
        return Err(ZipError::ArchiveTooLarge);
    }
    let mut produced = produced;
    let ghost bytes = produced@;
    zip.write.append(&mut produced);
    zip.position = zip.position + produced_len as u64;
    proof {
        assert(zip.output() =~= old(zip).output() + bytes);
    }
    Ok(())
}

/// Closes an entry once its compressor handed back its last bytes `rest`:
/// writes them and the data descriptor, and records the entry. Refused, with
/// `ArchiveTooLarge`, exactly when the archive would pass 2^64 bytes.
fn close_entry(
    zip: ZipWriter,
    header: Header,
    payload_start: u64,
    crc: u32,
    uncompressed: u64,
    rest: Vec<u8>,
    payload: Ghost<Seq<u8>>,
    data: Ghost<Seq<u8>>,
) -> (r: Result<ZipWriter, ZipError>)
    requires
        zip.position == zip.output().len(),
        zip.output() == entries_stream(zip.entries@, zip.payloads@) + header.local_record()
            + payload@,
        entries_ok(zip.entries@, zip.payloads@, zip.contents@),
        header.offset == entries_stream(zip.entries@, zip.payloads@).len(),
        header.path_fits(),
        header.compression_id == 0 || header.compression_id == 8,
        header.compression_id == 0 ==> payload@ == data@ && rest@ == Seq::<u8>::empty(),
        payload_start + payload@.len() == zip.position,
        uncompressed == data@.len(),
    ensures
        ({
            let p = payload@ + rest@;
            let h = closed_header(header, uncompressed, p.len() as u64, crc);
            &&& r is Ok <==> zip.position + rest@.len() + h.descriptor_len() <= u64::MAX
            &&& r is Err ==> r == Err::<ZipWriter, ZipError>(ZipError::ArchiveTooLarge)
            &&& r is Ok ==> {
                let w = r->Ok_0;
                &&& w.wf()
                &&& w.entries() == zip.entries@.push(h)
                &&& w.payloads() == zip.payloads@.push(p)
                &&& w.contents() == zip.contents@.push(data@)
                &&& w.output() == entries_stream(zip.entries@, zip.payloads@) + entry_record(h, p)
                &&& w.pending() == zip.write@ + rest@ + h.descriptor_record()
                &&& w.position() == zip.position + rest@.len() + h.descriptor_len()
            }
        }),
{
    let mut zip = zip;
    let rest_len = rest.len();
    if rest_len as u64 > u64::MAX - zip.position {
        return Err(ZipError::ArchiveTooLarge);
    }
    let sizes = EntryData {
        uncompressed_size: uncompressed,
        compressed_size: (zip.position - payload_start) + rest_len as u64,
    };
    let ghost opened = header;
    let mut header = header;
    header.uncompressed_size = sizes.uncompressed_size;
    header.compressed_size = sizes.compressed_size;
    header.crc32 = crc;
    let mut descriptor = header.data_descriptor_bytes();
    let descriptor_len = descriptor.len();
    if descriptor_len as u64 > u64::MAX - zip.position - rest_len as u64 {
        return Err(ZipError::ArchiveTooLarge);
    }
    let mut rest = rest;
    let ghost fresh = rest@;
    let ghost p = payload@ + fresh;
    let ghost old_output = zip.output();
    let ghost old_pending = zip.write@;
    zip.write.append(&mut rest);
    zip.position = zip.position + rest_len as u64;
    proof {
        assert(p.subrange(0, payload@.len() as int) =~= payload@);
        if header.compression_id == 0 {
            assert(p =~= payload@);
        }
        assert(zip.output() =~= old_output + fresh);
    }
    let ghost desc = descriptor@;
    zip.write.append(&mut descriptor);
    zip.position = zip.position + descriptor_len as u64;
    let ghost old_entries = zip.entries@;
    let ghost old_payloads = zip.payloads@;
    let ghost old_contents = zip.contents@;
    zip.entries.push(header);
    proof {
        zip.payloads@ = zip.payloads@.push(p);
        zip.contents@ = zip.contents@.push(data@);
        assert(zip.entries@.drop_last() =~= old_entries);
        assert(zip.payloads@.drop_last() =~= old_payloads);
        assert(zip.contents@.drop_last() =~= old_contents);
        lemma_local_record_fields(opened, zip.entries@.last());
        assert(zip.output() =~= old_output + fresh + desc);
        assert(zip.output() =~= entries_stream(old_entries, old_payloads) + entry_record(
            zip.entries@.last(),
            p,
        ));
        assert(zip.output() =~= entries_stream(zip.entries@, zip.payloads@));
        assert(zip.write@ =~= old_pending + fresh + desc);
    }
    Ok(zip)
}

/// A well-formed writer's output is the stream of its entries.
pub proof fn lemma_wf_output(w: &ZipWriter)
    requires
        w.wf(),
    ensures
        w.output() == entries_stream(w.entries(), w.payloads()),
        w.position() == w.output().len(),
        entries_ok(w.entries(), w.payloads(), w.contents()),
{
}

/// Every entry of a well-formed list has a path that fits.
proof fn lemma_entries_ok_paths_fit(hs: Seq<Header>, ps: Seq<Seq<u8>>, ds: Seq<Seq<u8>>)
    requires
        entries_ok(hs, ps, ds),
    ensures
        forall|j: int| 0 <= j < hs.len() ==> (#[trigger] hs[j]).path_fits(),
    decreases hs.len(),
{
    if hs.len() > 0 {
        lemma_entries_ok_paths_fit(hs.drop_last(), ps.drop_last(), ds.drop_last());
        assert forall|j: int| 0 <= j < hs.len() implies (#[trigger] hs[j]).path_fits() by {
            if j < hs.len() - 1 {
                assert(hs.drop_last()[j] == hs[j]);
            }
        }
    }
}


/// The central directory of the first `k` entries is no larger than that of
/// all of them.
proof fn lemma_central_directory_size_prefix(hs: Seq<Header>, k: int)
    requires
        0 <= k <= hs.len(),
    ensures
        central_directory_size(hs.take(k)) <= central_directory_size(hs),
    decreases hs.len(),
{
    if k == hs.len() {
        assert(hs.take(k) =~= hs);
    } else {
        assert(hs.drop_last().take(k) =~= hs.take(k));
        lemma_central_directory_size_prefix(hs.drop_last(), k);
    }
}

/// Total number of bytes in `chunks`.
fn chunks_len(chunks: &Vec<Vec<u8>>) -> (r: u64)
    requires
        concat_chunks(chunk_views(chunks@)).len() <= u64::MAX,
    ensures
        r == concat_chunks(chunk_views(chunks@)).len(),
{
    let ghost views = chunk_views(chunks@);
    let mut total: u64 = 0;
    let mut i: usize = 0;
    while i < chunks.len()
        invariant
            0 <= i <= chunks@.len(),
            views == chunk_views(chunks@),
            concat_chunks(views).len() <= u64::MAX,
            total == concat_chunks(views.take(i as int)).len(),
        decreases chunks@.len() - i,
    {
        proof {
            assert(views.take(i + 1).drop_last() =~= views.take(i as int));
            lemma_concat_prefix_len(views, i + 1);
        }
        total = total + chunks[i].len() as u64;
        i = i + 1;
    }
    proof {
        assert(views.take(i as int) =~= views);
    }
    total
}

/// After an entry was opened, written to and closed, the bytes waiting are
/// those waiting before followed by the whole entry, and the position moved on
/// by the entry's length.
pub proof fn lemma_closed_pending(
    zip: ZipWriter,
    opened: ZipFileWriter,
    written: ZipFileWriter,
    closed: ZipWriter,
)
    requires
        opened.pending() == zip.pending() + opened.header().local_record(),
        opened.payload() == Seq::<u8>::empty(),
        extends(written.payload(), opened.payload()),
        written.header() == opened.header(),
        written.pending() == opened.pending() + written.payload().subrange(
            opened.payload().len() as int,
            written.payload().len() as int,
        ),
        written.closed_into(closed),
        opened.position() == zip.position() + opened.header().local_len(),
        written.position() == opened.position() + written.payload().len(),
    ensures
        closed.pending() == zip.pending() + entry_record(
            closed.entries().last(),
            closed.payloads().last(),
        ),
        closed.position() == zip.position() + entry_len(closed.entries().last()),
{
    let p = closed.payloads().last();
    let h = closed.entries().last();
    let wp = written.payload();
    assert(closed.entries().last() == closed_header(
        written.header(),
        written.data().len() as u64,
        p.len() as u64,
        zip_crc(written.data()),
    ));
    lemma_local_record_fields(h, opened.header());
    lemma_record_lens(h);
    lemma_record_lens(opened.header());
    assert(wp.subrange(0, wp.len() as int) =~= wp);
    assert(p =~= wp + p.subrange(wp.len() as int, p.len() as int));
    assert(closed.pending() =~= zip.pending() + entry_record(h, p));
}

/// The bytes of the first `k` chunks are no more than those of all chunks.
proof fn lemma_concat_prefix_len(s: Seq<Seq<u8>>, k: int)
    requires
        0 <= k <= s.len(),
    ensures
        concat_chunks(s.take(k)).len() <= concat_chunks(s).len(),
    decreases s.len(),
{
    if k == s.len() {
        assert(s.take(k) =~= s);
    } else {
        assert(s.drop_last().take(k) =~= s.take(k));
        lemma_concat_prefix_len(s.drop_last(), k);
    }
}


/// The three end records.
fn end_records_bytes(count: u64, cd_size: u64, cd_offset: u64) -> (r: Vec<u8>)
    requires
        cd_offset + cd_size <= u64::MAX,
    ensures
        r@ == end_records(count, cd_size, cd_offset),
        r@.len() == END_RECORDS_LEN,
{
    reveal(zip64_eocd_record);
    reveal(zip64_locator_record);
    reveal(eocd_record);
    let mut zip64_eocd = u32_bytes(ZIP64_EOCD_SIGNATURE);
    push_u64(&mut zip64_eocd, ZIP64_EOCD_REMAINING_LEN);
    push_u16(&mut zip64_eocd, VERSION);
    push_u16(&mut zip64_eocd, VERSION);
    push_u32(&mut zip64_eocd, 0);
    push_u32(&mut zip64_eocd, 0);
    push_u64(&mut zip64_eocd, count);
    push_u64(&mut zip64_eocd, count);
    push_u64(&mut zip64_eocd, cd_size);
    push_u64(&mut zip64_eocd, cd_offset);

    let mut locator = u32_bytes(ZIP64_LOCATOR_SIGNATURE);
    push_u32(&mut locator, 0);
    push_u64(&mut locator, cd_offset + cd_size);
    push_u32(&mut locator, 1);

    let mut eocd = u32_bytes(EOCD_SIGNATURE);
    push_u16(&mut eocd, 0);
    push_u16(&mut eocd, 0);
    push_u16(&mut eocd, count as u16);
    push_u16(&mut eocd, count as u16);
    push_u32(&mut eocd, clamp_u32(cd_size));
    push_u32(&mut eocd, clamp_u32(cd_offset));
    push_u16(&mut eocd, 0);

    zip64_eocd.append(&mut locator);
    zip64_eocd.append(&mut eocd);
    zip64_eocd
}

} // verus!
