//! Properties of the archives this crate writes.
use vstd::prelude::*;

use crate::compressor::{extends, zip_crc};
use crate::format::{clamp32, le16, le32, le64};
use crate::header::{lemma_record_lens, Header, MAX_U32_FIELD};
use vstd::utf8::is_ascii_chars;
use crate::writer::{
    central_directory, central_directory_size, end_records,
    entries_ok, entries_stream, entry_ok, entry_record, eocd_record, lemma_closed_pending,
    lemma_wf_output,
    stored_header, zip64_eocd_record, zip64_locator_record, ZipFileWriter, ZipWriter,
    END_RECORDS_LEN,
};

verus! {

/// The central directory of the first `k` entries begins the central directory
/// of all of them.
proof fn lemma_central_directory_prefix(hs: Seq<Header>, k: int)
    requires
        0 <= k <= hs.len(),
    ensures
        extends(central_directory(hs), central_directory(hs.take(k))),
    decreases hs.len(),
{
    if k == hs.len() {
        assert(hs.take(k) =~= hs);
        assert(central_directory(hs).subrange(0, central_directory(hs).len() as int)
            =~= central_directory(hs));
    } else {
        assert(hs.drop_last().take(k) =~= hs.take(k));
        lemma_central_directory_prefix(hs.drop_last(), k);
        let whole = central_directory(hs);
        let front = central_directory(hs.drop_last());
        let part = central_directory(hs.take(k));
        assert(whole == front + hs.last().central_record());
        assert(whole.subrange(0, part.len() as int) =~= front.subrange(0, part.len() as int));
    }
}

/// Entry order is kept: in the finished archive, the central record of the
/// `i`-th entry added comes right after the records of the entries added before
/// it.
pub proof fn lemma_central_directory_order(w: ZipWriter, i: int)
    requires
        w.wf(),
        0 <= i < w.entries().len(),
    ensures
        ({
            let hs = w.entries();
            let start = w.position() + central_directory(hs.take(i)).len();
            w.finished().subrange(start, start + hs[i].central_record().len())
                == hs[i].central_record()
        }),
{
    lemma_wf_output(&w);
    let hs = w.entries();
    let before = central_directory(hs.take(i));
    let rec = hs[i].central_record();
    assert(hs.take(i + 1).drop_last() =~= hs.take(i));
    assert(central_directory(hs.take(i + 1)) == before + rec);
    lemma_central_directory_prefix(hs, i + 1);
    let cd = central_directory(hs);
    let start = w.position() + before.len();
    let pre = central_directory(hs.take(i + 1));
    assert(cd.subrange(0, pre.len() as int) == pre);
    let fin = w.finished();
    let out_len = w.output().len() as int;
    assert(w.position() == out_len);
    assert forall|j: int| 0 <= j < rec.len() implies #[trigger] fin.subrange(
        start as int,
        start + rec.len(),
    )[j] == rec[j] by {
        assert(fin[start + j] == cd[before.len() + j]);
        assert(cd[before.len() + j] == cd.subrange(0, pre.len() as int)[before.len() + j]);
        assert(pre[before.len() + j] == rec[j]);
    }
    assert(fin.subrange(start as int, start + rec.len()) =~= rec);
}

/// The central directory is as long as its records add up to.
proof fn lemma_central_directory_len(hs: Seq<Header>)
    ensures
        central_directory(hs).len() == central_directory_size(hs),
    decreases hs.len(),
{
    if hs.len() > 0 {
        lemma_central_directory_len(hs.drop_last());
        lemma_record_lens(hs.last());
    }
}

/// The end records take 98 bytes whatever they hold.
proof fn lemma_end_records_len(count: u64, cd_size: u64, cd_offset: u64)
    ensures
        end_records(count, cd_size, cd_offset).len() == END_RECORDS_LEN,
{
    reveal(zip64_eocd_record);
    reveal(zip64_locator_record);
    reveal(eocd_record);
}

/// The position that the writer counts up to when finishing, from the lengths
/// of the records it emits, is the length of the archive it produces.
pub proof fn lemma_finished_position(w: ZipWriter)
    requires
        w.wf(),
    ensures
        w.finished().len() == w.finished_position(),
{
    lemma_wf_output(&w);
    let hs = w.entries();
    lemma_central_directory_len(hs);
    lemma_end_records_len(
        hs.len() as u64,
        central_directory(hs).len() as u64,
        w.position(),
    );
}

/// Adding a stored entry in one call leaves the same archive as starting it,
/// writing the same data to it in one piece, and closing it.
pub proof fn lemma_append_data_matches_streaming(
    w: ZipWriter,
    path: String,
    data: Seq<u8>,
    opened: ZipFileWriter,
    written: ZipFileWriter,
    closed: ZipWriter,
)
    requires
        w.wf(),
        opened.opened_from(w, stored_header(path, w.position(), Seq::empty(), 0), true),
        written.wrote(&opened, data),
        written.closed_into(closed),
    ensures
        closed.added_entry(
            w,
            stored_header(path, w.position(), data, zip_crc(data)),
            data,
            data,
        ),
{
    lemma_wf_output(&w);
    lemma_closed_pending(w, opened, written, closed);
    assert(Seq::<u8>::empty() + data =~= data);
    assert(Seq::<Seq<u8>>::empty().push(data) =~= seq![data]);
    assert(written.payload() == data);
    assert(written.data() == data);
}

/// What a well-formed entry list says of each of its entries.
proof fn lemma_entries_ok_index(hs: Seq<Header>, ps: Seq<Seq<u8>>, ds: Seq<Seq<u8>>, i: int)
    requires
        entries_ok(hs, ps, ds),
        0 <= i < hs.len(),
    ensures
        entry_ok(hs[i], ps[i], ds[i], entries_stream(hs.take(i), ps.take(i)).len() as int),
    decreases hs.len(),
{
    let n = hs.len() - 1;
    if i == n {
        assert(hs.take(i) =~= hs.drop_last());
        assert(ps.take(i) =~= ps.drop_last());
    } else {
        lemma_entries_ok_index(hs.drop_last(), ps.drop_last(), ds.drop_last(), i);
        assert(hs.drop_last().take(i) =~= hs.take(i));
        assert(ps.drop_last().take(i) =~= ps.take(i));
    }
}

/// The stream of the first `k` entries begins the stream of all of them.
proof fn lemma_entries_stream_prefix(hs: Seq<Header>, ps: Seq<Seq<u8>>, k: int)
    requires
        hs.len() == ps.len(),
        0 <= k <= hs.len(),
    ensures
        extends(entries_stream(hs, ps), entries_stream(hs.take(k), ps.take(k))),
    decreases hs.len(),
{
    let whole = entries_stream(hs, ps);
    if k == hs.len() {
        assert(hs.take(k) =~= hs);
        assert(ps.take(k) =~= ps);
        assert(whole.subrange(0, whole.len() as int) =~= whole);
    } else {
        assert(hs.drop_last().take(k) =~= hs.take(k));
        assert(ps.drop_last().take(k) =~= ps.take(k));
        lemma_entries_stream_prefix(hs.drop_last(), ps.drop_last(), k);
        let front = entries_stream(hs.drop_last(), ps.drop_last());
        let part = entries_stream(hs.take(k), ps.take(k));
        assert(whole == front + entry_record(hs.last(), ps.last()));
        assert(whole.subrange(0, part.len() as int) =~= front.subrange(0, part.len() as int));
    }
}

/// Every entry reads back from the finished archive: its local header stands at
/// its recorded offset, its payload of `compressed_size` bytes follows, then its
/// data descriptor. A stored entry's payload is the data written to it,
/// verbatim.
pub proof fn lemma_entry_reads_back(w: ZipWriter, i: int)
    requires
        w.wf(),
        0 <= i < w.entries().len(),
    ensures
        ({
            let h = w.entries()[i];
            let p = w.payloads()[i];
            let data_start = h.offset + h.local_record().len();
            let data_end = data_start + h.compressed_size;
            &&& w.finished().subrange(h.offset as int, data_start) == h.local_record()
            &&& w.finished().subrange(data_start, data_end) == p
            &&& w.finished().subrange(data_end, data_end + h.descriptor_record().len())
                == h.descriptor_record()
            &&& h.uncompressed_size == w.contents()[i].len()
            &&& h.compression_id == 0 ==> p == w.contents()[i]
        }),
{
    lemma_wf_output(&w);
    let hs = w.entries();
    let ps = w.payloads();
    let ds = w.contents();
    let h = hs[i];
    lemma_entries_ok_index(hs, ps, ds, i);
    assert(hs.take(i + 1).drop_last() =~= hs.take(i));
    assert(ps.take(i + 1).drop_last() =~= ps.take(i));
    let before = entries_stream(hs.take(i), ps.take(i));
    let rec = entry_record(h, ps[i]);
    let pre = entries_stream(hs.take(i + 1), ps.take(i + 1));
    assert(pre == before + rec);
    lemma_entries_stream_prefix(hs, ps, i + 1);
    let out = w.output();
    let fin = w.finished();
    assert(out.subrange(0, pre.len() as int) == pre);
    let local = h.local_record();
    let desc = h.descriptor_record();
    let data_start = h.offset + local.len();
    let data_end = data_start + h.compressed_size;
    assert forall|j: int| 0 <= j < rec.len() implies #[trigger] fin[h.offset + j] == rec[j] by {
        assert(fin[h.offset + j] == out[h.offset + j]);
        assert(out[h.offset + j] == out.subrange(0, pre.len() as int)[h.offset + j]);
        assert(pre[before.len() + j] == rec[j]);
    }
    assert forall|j: int| 0 <= j < local.len() implies #[trigger] fin.subrange(
        h.offset as int,
        data_start,
    )[j] == local[j] by {
        assert(fin[h.offset + j] == rec[j]);
    }
    assert(fin.subrange(h.offset as int, data_start) =~= local);
    assert forall|j: int| 0 <= j < ps[i].len() implies #[trigger] fin.subrange(
        data_start,
        data_end,
    )[j] == ps[i][j] by {
        assert(fin[h.offset + (local.len() + j)] == rec[local.len() + j]);
    }
    assert(fin.subrange(data_start, data_end) =~= ps[i]);
    assert forall|j: int| 0 <= j < desc.len() implies #[trigger] fin.subrange(
        data_end,
        data_end + desc.len(),
    )[j] == desc[j] by {
        assert(fin[h.offset + (local.len() + ps[i].len() + j)] == rec[local.len() + ps[i].len()
            + j]);
    }
    assert(fin.subrange(data_end, data_end + desc.len()) =~= desc);
}

/// The end records locate what they describe: in the finished archive the
/// central directory starts at the offset they record and is as long as they
/// say, the ZIP64 end record follows it, and the locator after that records the
/// ZIP64 end record's own offset.
pub proof fn lemma_end_records_locate_directory(w: ZipWriter)
    requires
        w.wf(),
        w.finished_position() <= u64::MAX,
    ensures
        ({
            let hs = w.entries();
            let cd = central_directory(hs);
            let cd_at = w.position() as int;
            let eocd_at = cd_at + cd.len();
            let count = hs.len() as u64;
            let fin = w.finished();
            &&& fin.len() == eocd_at + END_RECORDS_LEN
            &&& fin.subrange(cd_at, eocd_at) == cd
            &&& fin.subrange(eocd_at, eocd_at + 56) == zip64_eocd_record(
                count,
                cd.len() as u64,
                w.position(),
            )
            &&& fin.subrange(eocd_at + 56, eocd_at + 76) == zip64_locator_record(eocd_at as u64)
            &&& fin.subrange(eocd_at + 76, eocd_at + 98) == eocd_record(
                count,
                cd.len() as u64,
                w.position(),
            )
        }),
{
    lemma_wf_output(&w);
    let hs = w.entries();
    let cd = central_directory(hs);
    lemma_central_directory_len(hs);
    let count = hs.len() as u64;
    let z = zip64_eocd_record(count, cd.len() as u64, w.position());
    let loc = zip64_locator_record((w.position() + cd.len()) as u64);
    let e = eocd_record(count, cd.len() as u64, w.position());
    reveal(zip64_eocd_record);
    reveal(zip64_locator_record);
    reveal(eocd_record);
    assert(z.len() == 56 && loc.len() == 20 && e.len() == 22);
    let fin = w.finished();
    let out = w.output();
    let cd_at = w.position() as int;
    assert(fin == out + cd + (z + loc + e));
    let eocd_at = cd_at + cd.len();
    assert(fin.subrange(cd_at, eocd_at) =~= cd);
    assert(fin.subrange(eocd_at, eocd_at + 56) =~= z);
    assert(fin.subrange(eocd_at + 56, eocd_at + 76) =~= loc);
    assert(fin.subrange(eocd_at + 76, eocd_at + 98) =~= e);
}

/// Where the fields of a central record stand: the flags at bytes 8..10 (bit 11
/// set exactly when the name has a non-ASCII character), the clamped compressed
/// and uncompressed sizes at 20..24 and 24..28, the extra field's length at
/// 30..32, the clamped offset at 42..46, the name from byte 46, and the ZIP64
/// extra after it.
pub proof fn lemma_central_record_fields(h: Header)
    ensures
        ({
            let r = h.central_record();
            let n = h.name_bytes().len() as int;
            &&& r.subrange(8, 10) == le16(h.flags())
            &&& h.flags() == (if is_ascii_chars(h.path@) {
                0x0008u16
            } else {
                0x0808u16
            })
            &&& r.subrange(20, 24) == le32(clamp32(h.compressed_size))
            &&& r.subrange(24, 28) == le32(clamp32(h.uncompressed_size))
            &&& r.subrange(30, 32) == le16(h.central_extra_len() as u16)
            &&& r.subrange(42, 46) == le32(clamp32(h.offset))
            &&& r.subrange(46, 46 + n) == h.name_bytes()
            &&& r.subrange(46 + n, r.len() as int) == h.central_extra()
        }),
{
    reveal(Header::central_record);
    let r = h.central_record();
    let n = h.name_bytes().len() as int;
    assert(r.subrange(8, 10) =~= le16(h.flags()));
    assert(r.subrange(20, 24) =~= le32(clamp32(h.compressed_size)));
    assert(r.subrange(24, 28) =~= le32(clamp32(h.uncompressed_size)));
    assert(r.subrange(30, 32) =~= le16(h.central_extra_len() as u16));
    assert(r.subrange(42, 46) =~= le32(clamp32(h.offset)));
    assert(r.subrange(46, 46 + n) =~= h.name_bytes());
    assert(r.subrange(46 + n, r.len() as int) =~= h.central_extra());
}

/// An entry whose two sizes reach 2^32 and whose offset does not gets a ZIP64
/// extra of 20 bytes: tag 1, data size 16, then the true uncompressed and
/// compressed sizes; both 32-bit size fields read 0xFFFFFFFF.
pub proof fn lemma_central_record_zip64_sizes(h: Header)
    requires
        h.uncompressed_size > MAX_U32_FIELD,
        h.compressed_size > MAX_U32_FIELD,
        h.offset <= MAX_U32_FIELD,
    ensures
        h.central_extra_len() == 20,
        h.central_extra() == le16(1) + le16(16) + le64(h.uncompressed_size) + le64(
            h.compressed_size,
        ),
        clamp32(h.uncompressed_size) == 0xFFFF_FFFFu32,
        clamp32(h.compressed_size) == 0xFFFF_FFFFu32,
        clamp32(h.offset) == h.offset,
{
    reveal(Header::central_extra);
    assert(h.overflow_count() == 2);
    assert(h.central_extra() =~= le16(1) + le16(16) + le64(h.uncompressed_size) + le64(
        h.compressed_size,
    ));
}

/// A local header's flags stand at bytes 6..8.
pub proof fn lemma_local_record_flags(h: Header)
    ensures
        h.local_record().subrange(6, 8) == le16(h.flags()),
{
    reveal(Header::local_record);
    assert(h.local_record().subrange(6, 8) =~= le16(h.flags()));
}

} // verus!
