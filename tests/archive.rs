use std::io::{Cursor, Read};

use zip_stream::{
    Compressor, CompressorConfig, DateTime, DeflateConfig, HashWriteWrapper, Header,
    StoreConfig, ZipError, ZipWriter,
};

const SIMPLE: &[u8] = b"Simple Test";

fn read_back(bytes: Vec<u8>) -> Vec<(String, Vec<u8>)> {
    let mut archive = zip::ZipArchive::new(Cursor::new(bytes)).unwrap();
    let mut entries = Vec::new();
    for i in 0..archive.len() {
        let mut file = archive.by_index(i).unwrap();
        let name = file.name().unwrap().to_string();
        let mut data = Vec::new();
        file.read_to_end(&mut data).unwrap();
        entries.push((name, data));
    }
    entries
}

fn names(archive: &zip::ZipArchive<Cursor<Vec<u8>>>) -> Vec<String> {
    archive.file_names().map(|n| n.unwrap().to_string()).collect()
}

fn u16_at(bytes: &[u8], at: usize) -> u16 {
    u16::from_le_bytes([bytes[at], bytes[at + 1]])
}

fn u32_at(bytes: &[u8], at: usize) -> u32 {
    u32::from_le_bytes([bytes[at], bytes[at + 1], bytes[at + 2], bytes[at + 3]])
}

fn u64_at(bytes: &[u8], at: usize) -> u64 {
    let mut b = [0u8; 8];
    b.copy_from_slice(&bytes[at..at + 8]);
    u64::from_le_bytes(b)
}

fn simple_store_archive() -> Vec<u8> {
    let mut writer = ZipWriter::new();
    writer.append("test".to_string(), &vec![SIMPLE.to_vec()]).unwrap();
    writer.finish().unwrap()
}

fn simple_deflate_archive() -> Vec<u8> {
    let mut writer = ZipWriter::new();
    ZipWriter::start_file("test".to_string())
        .compression(CompressorConfig::Deflate(DeflateConfig::best()))
        .write_all(&mut writer, SIMPLE)
        .unwrap();
    writer.finish().unwrap()
}

fn check_single_simple_entry(out: Vec<u8>) {
    let mut archive = zip::ZipArchive::new(Cursor::new(out)).unwrap();
    {
        let mut file_names = archive.file_names();
        assert_eq!(file_names.next().map(|n| n.unwrap().to_string()), Some("test".to_string()));
        assert!(file_names.next().is_none());
    }
    let file = archive.by_index(0).unwrap();
    assert!(file.bytes().map(Result::unwrap).eq(SIMPLE.iter().cloned()));
}

#[test]
fn lib_simple_archive2() {
    check_single_simple_entry(simple_store_archive());
}

#[test]
fn writer_simple_archive2() {
    let mut writer = ZipWriter::new();
    writer.append("test".to_string(), &vec![SIMPLE.to_vec()]).unwrap();
    check_single_simple_entry(writer.finish().unwrap());
}

#[test]
fn lib_simple_archive_deflate() {
    check_single_simple_entry(simple_deflate_archive());
}

#[test]
fn writer_simple_archive_deflate() {
    let writer = ZipWriter::new();
    let mut file_writer = ZipWriter::start_file("test".to_string())
        .compression(CompressorConfig::Deflate(DeflateConfig::best()))
        .writer(writer)
        .ok()
        .unwrap();
    file_writer.write_all(SIMPLE).unwrap();
    check_single_simple_entry(file_writer.finish().unwrap().finish().unwrap());
}

#[test]
fn file_writer() {
    let out1 = {
        let writer = ZipWriter::new();
        let mut file_writer = writer.start_file_writer("test".to_string()).writer().ok().unwrap();
        file_writer.write_all(SIMPLE).unwrap();
        file_writer.finish().unwrap().finish().unwrap()
    };
    let out2 = {
        let mut writer = ZipWriter::new();
        writer.append_data("test".to_string(), SIMPLE).unwrap();
        writer.finish().unwrap()
    };
    assert_eq!(out1, out2);
}

#[test]
fn empty_archive_is_only_end_records() {
    let out = ZipWriter::new().finish().unwrap();
    assert_eq!(out.len(), 98);
    assert_eq!(&out[0..4], &[0x50, 0x4B, 0x06, 0x06]);
    assert_eq!(&out[76..80], &[0x50, 0x4B, 0x05, 0x06]);
    assert_eq!(&out[80..], &[0u8; 18]);
    assert_eq!(read_back(out).len(), 0);
}

#[test]
fn stored_entry_crc_and_sizes() {
    let out = simple_store_archive();
    let mut archive = zip::ZipArchive::new(Cursor::new(out)).unwrap();
    let file = archive.by_index(0).unwrap();
    assert_eq!(file.crc32(), 0x2AB2_4B42);
    assert_eq!(file.size(), 11);
    assert_eq!(file.compressed_size(), 11);
}

#[test]
fn stored_archive_layout_and_length() {
    let out = simple_store_archive();
    // local header 30 + 4 + 20, data 11, descriptor 16, central record 46 + 4,
    // end records 98
    assert_eq!(out.len(), 54 + 11 + 16 + 50 + 98);
    assert_eq!(u32_at(&out, 0), 0x04034b50);
    assert_eq!(u16_at(&out, 4), 0x2D);
    assert_eq!(u16_at(&out, 6), 0x0008);
    assert_eq!(u16_at(&out, 8), 0);
    assert_eq!(u32_at(&out, 14), 0);
    assert_eq!(u32_at(&out, 18), 0xFFFF_FFFF);
    assert_eq!(u32_at(&out, 22), 0xFFFF_FFFF);
    assert_eq!(u16_at(&out, 26), 4);
    assert_eq!(u16_at(&out, 28), 20);
    assert_eq!(&out[30..34], b"test");
    assert_eq!(u16_at(&out, 34), 1);
    assert_eq!(u16_at(&out, 36), 16);
    assert_eq!(u64_at(&out, 38), 0);
    assert_eq!(u64_at(&out, 46), 0);
    assert_eq!(&out[54..65], SIMPLE);
    assert_eq!(u32_at(&out, 65), 0x08074b50);
    assert_eq!(u32_at(&out, 69), 0x2AB2_4B42);
    assert_eq!(u32_at(&out, 73), 11);
    assert_eq!(u32_at(&out, 77), 11);
    let cd = 81;
    assert_eq!(u32_at(&out, cd), 0x02014b50);
    assert_eq!(u32_at(&out, cd + 16), 0x2AB2_4B42);
    assert_eq!(u16_at(&out, cd + 30), 0);
    assert_eq!(u32_at(&out, cd + 42), 0);
    let end = cd + 50;
    assert_eq!(u32_at(&out, end), 0x06064b50);
    assert_eq!(u64_at(&out, end + 4), 44);
    assert_eq!(u64_at(&out, end + 24), 1);
    assert_eq!(u64_at(&out, end + 32), 1);
    assert_eq!(u64_at(&out, end + 40), 50);
    assert_eq!(u64_at(&out, end + 48), 81);
    assert_eq!(u32_at(&out, end + 56), 0x07064b50);
    assert_eq!(u64_at(&out, end + 64), 131);
    assert_eq!(u32_at(&out, end + 72), 1);
    assert_eq!(u32_at(&out, end + 76), 0x06054b50);
    assert_eq!(u16_at(&out, end + 84), 1);
    assert_eq!(u16_at(&out, end + 86), 1);
    assert_eq!(u32_at(&out, end + 88), 50);
    assert_eq!(u32_at(&out, end + 92), 81);
}

#[test]
fn many_small_entries_keep_order() {
    let mut writer = ZipWriter::new();
    for n in 0..10000 {
        let s = n.to_string();
        writer.append_data(s.clone(), s.as_bytes()).unwrap();
    }
    let out = writer.finish().unwrap();
    let archive = zip::ZipArchive::new(Cursor::new(out.clone())).unwrap();
    let listed = names(&archive);
    assert_eq!(listed.len(), 10000);
    for (n, name) in listed.iter().enumerate() {
        assert_eq!(name, &n.to_string());
    }
    for (n, (name, data)) in read_back(out).into_iter().enumerate() {
        assert_eq!(name, n.to_string());
        assert_eq!(data, n.to_string().into_bytes());
    }
}

#[test]
fn many_entries_truncate_classic_count() {
    let mut writer = ZipWriter::new();
    for n in 0..65537u32 {
        writer.append_data(n.to_string(), b"").unwrap();
    }
    let out = writer.finish().unwrap();
    let end = out.len() - 22;
    assert_eq!(u32_at(&out, end), 0x06054b50);
    assert_eq!(u16_at(&out, end + 8), 1);
    assert_eq!(u16_at(&out, end + 10), 1);
    let zip64_end = out.len() - 98;
    assert_eq!(u64_at(&out, zip64_end + 24), 65537);
}

#[test]
fn non_ascii_path_sets_utf8_flag() {
    let path = "snow\u{2603}man".to_string();
    let mut writer = ZipWriter::new();
    writer.append_data(path.clone(), b"cold").unwrap();
    let out = writer.finish().unwrap();
    assert_eq!(&out[30..30 + path.len()], path.as_bytes());
    assert_eq!(&out[34..37], &[0xE2, 0x98, 0x83]);
    assert_eq!(u16_at(&out, 6), 0x0808);
    let cd = 30 + path.len() + 20 + 4 + 16;
    assert_eq!(u32_at(&out, cd), 0x02014b50);
    assert_eq!(u16_at(&out, cd + 8), 0x0808);
    let entries = read_back(out);
    assert_eq!(entries, vec![(path, b"cold".to_vec())]);
}

fn big_header(size: u64, offset: u64) -> Header {
    let mut header = Header::builder();
    header.path = Some("big".to_string());
    let mut h = header.build(0);
    h.uncompressed_size = size;
    h.compressed_size = size;
    h.crc32 = 0xDEAD_BEEF;
    h.offset = offset;
    h
}

#[test]
fn zip64_sizes_in_central_record() {
    let size = (1u64 << 32) + 5;
    let h = big_header(size, 7);
    let rec = h.central_record_bytes();
    assert_eq!(rec.len(), 46 + 3 + 4 + 16);
    assert_eq!(u32_at(&rec, 20), 0xFFFF_FFFF);
    assert_eq!(u32_at(&rec, 24), 0xFFFF_FFFF);
    assert_eq!(u16_at(&rec, 30), 20);
    assert_eq!(u32_at(&rec, 42), 7);
    assert_eq!(&rec[46..49], b"big");
    assert_eq!(u16_at(&rec, 49), 1);
    assert_eq!(u16_at(&rec, 51), 16);
    assert_eq!(u64_at(&rec, 53), size);
    assert_eq!(u64_at(&rec, 61), size);

    let descriptor = h.data_descriptor_bytes();
    assert_eq!(descriptor.len(), 24);
    assert_eq!(u32_at(&descriptor, 4), 0xDEAD_BEEF);
    assert_eq!(u64_at(&descriptor, 8), size);
    assert_eq!(u64_at(&descriptor, 16), size);
}

#[test]
fn zip64_offset_only_in_central_record() {
    let offset = 1u64 << 33;
    let h = big_header(10, offset);
    let rec = h.central_record_bytes();
    assert_eq!(rec.len(), 46 + 3 + 4 + 8);
    assert_eq!(u32_at(&rec, 20), 10);
    assert_eq!(u32_at(&rec, 24), 10);
    assert_eq!(u16_at(&rec, 30), 12);
    assert_eq!(u32_at(&rec, 42), 0xFFFF_FFFF);
    assert_eq!(u16_at(&rec, 51), 8);
    assert_eq!(u64_at(&rec, 53), offset);
    assert_eq!(h.data_descriptor_bytes().len(), 16);
}

#[test]
fn sizes_at_the_32_bit_limit_stay_in_32_bit_fields() {
    let h = big_header(0xFFFF_FFFF, 0);
    let rec = h.central_record_bytes();
    assert_eq!(rec.len(), 46 + 3);
    assert_eq!(u16_at(&rec, 30), 0);
    assert_eq!(h.data_descriptor_bytes().len(), 16);
}

#[test]
fn local_header_bytes_of_built_header() {
    let mut builder = Header::builder();
    builder.path = Some("a".to_string());
    builder.modification_time = Some(0x1234);
    let h = builder.build(8);
    let local = h.local_header_bytes();
    assert_eq!(local.len(), 30 + 1 + 20);
    assert_eq!(u16_at(&local, 8), 8);
    assert_eq!(u16_at(&local, 10), 0x1234);
    assert_eq!(u16_at(&local, 12), 0);
}

#[test]
fn path_too_long_is_refused() {
    let mut writer = ZipWriter::new();
    let long = "a".repeat(0x10000);
    assert_eq!(writer.append_data(long.clone(), b"x"), Err(ZipError::PathTooLong));
    match writer.start_file_writer(long).writer() {
        Err((e, back)) => {
            assert_eq!(e, ZipError::PathTooLong);
            writer = back;
        }
        Ok(_) => panic!("a path of 65536 bytes was accepted"),
    }
    writer.append_data("kept".to_string(), b"k").unwrap();
    assert_eq!(read_back(writer.finish().unwrap()), vec![("kept".to_string(), b"k".to_vec())]);

    let mut writer = ZipWriter::new();
    let longest = "b".repeat(0xFFFF);
    writer.append_data(longest.clone(), b"x").unwrap();
    let entries = read_back(writer.finish().unwrap());
    assert_eq!(entries, vec![(longest, b"x".to_vec())]);
}

#[test]
fn refused_entry_leaves_archive_unchanged() {
    let mut writer = ZipWriter::new();
    writer.append_data("first".to_string(), b"1").unwrap();
    let refused = ZipWriter::start_file("c".repeat(70000)).write_all(&mut writer, b"2");
    assert_eq!(refused, Err(ZipError::PathTooLong));
    writer.append_data("second".to_string(), b"2").unwrap();
    let entries = read_back(writer.finish().unwrap());
    assert_eq!(
        entries,
        vec![("first".to_string(), b"1".to_vec()), ("second".to_string(), b"2".to_vec())]
    );
}

#[test]
fn chunked_append_matches_single_write() {
    let mut writer = ZipWriter::new();
    let chunks = vec![b"Simple".to_vec(), Vec::new(), b" Te".to_vec(), b"st".to_vec()];
    writer.append("test".to_string(), &chunks).unwrap();
    let out = writer.finish().unwrap();
    assert_eq!(u32_at(&out, 65 + 4), 0x2AB2_4B42);
    check_single_simple_entry(out);
}

#[test]
fn deflate_entry_is_compressed_and_reads_back() {
    let data = vec![b'z'; 100_000];
    let mut writer = ZipWriter::new();
    let builder = ZipWriter::start_file("zeds".to_string())
        .compression(CompressorConfig::Deflate(DeflateConfig::default()));
    let mut file_writer = builder.writer(writer).ok().unwrap();
    for chunk in data.chunks(7000) {
        file_writer.write_all(chunk).unwrap();
    }
    writer = file_writer.finish().unwrap();
    writer.append_data("after".to_string(), b"plain").unwrap();
    let out = writer.finish().unwrap();
    assert!(out.len() < 10_000);
    assert_eq!(u16_at(&out, 8), 8);
    let mut archive = zip::ZipArchive::new(Cursor::new(out.clone())).unwrap();
    {
        let file = archive.by_index(0).unwrap();
        assert_eq!(file.compression(), zip::CompressionMethod::Deflated);
        assert_eq!(file.size(), 100_000);
    }
    let entries = read_back(out);
    assert_eq!(entries[0], ("zeds".to_string(), data));
    assert_eq!(entries[1], ("after".to_string(), b"plain".to_vec()));
}

#[test]
fn deflate_levels() {
    assert_eq!(DeflateConfig::none().level(), 0);
    assert_eq!(DeflateConfig::fast().level(), 1);
    assert_eq!(DeflateConfig::default().level(), 6);
    assert_eq!(DeflateConfig::best().level(), 9);
    assert_eq!(DeflateConfig::new(3).level(), 3);
    for level in 0..=9 {
        let mut writer = ZipWriter::new();
        ZipWriter::start_file("l".to_string())
            .compression(CompressorConfig::Deflate(DeflateConfig::new(level)))
            .write_all(&mut writer, SIMPLE)
            .unwrap();
        assert_eq!(read_back(writer.finish().unwrap()), vec![("l".to_string(), SIMPLE.to_vec())]);
    }
}

#[test]
fn hash_tee_gives_crc_of_uncompressed_data() {
    let mut tee = HashWriteWrapper::new(Compressor::new(CompressorConfig::Store(StoreConfig)));
    let mut out = tee.write_all(b"Simple").unwrap();
    out.extend(tee.write_all(b" Test").unwrap());
    assert_eq!(out, SIMPLE.to_vec());
    let (crc, taken_in, rest) = tee.finish().unwrap();
    assert_eq!(crc, 0x2AB2_4B42);
    assert_eq!(taken_in, 11);
    assert!(rest.is_empty());

    let mut tee = HashWriteWrapper::new(Compressor::new(CompressorConfig::Deflate(
        DeflateConfig::best(),
    )));
    let mut out = tee.write_all(SIMPLE).unwrap();
    assert_eq!(tee.compression_id(), 8);
    let (crc, taken_in, rest) = tee.finish().unwrap();
    out.extend(rest);
    assert_eq!(crc, 0x2AB2_4B42);
    assert_eq!(taken_in, 11);
    assert!(!out.is_empty());
    assert_ne!(out, SIMPLE.to_vec());
}

#[test]
fn modification_time_and_date_are_packed() {
    let dt = DateTime { year: 2021, month: 3, day: 4, hour: 5, minute: 6, second: 9 };
    assert_eq!(dt.to_dos_time(), 4 | (6 << 5) | (5 << 11));
    assert_eq!(dt.to_dos_time(), 10436);
    assert_eq!(dt.to_dos_date(), 4 | (3 << 5) | (41 << 9));
    assert_eq!(dt.to_dos_date(), 21092);
    let mut writer = ZipWriter::new();
    ZipWriter::start_file("t".to_string())
        .modification_date_time(dt)
        .write_all(&mut writer, b"x")
        .unwrap();
    let out = writer.finish().unwrap();
    assert_eq!(u16_at(&out, 10), 10436);
    assert_eq!(u16_at(&out, 12), 21092);
    let cd = 30 + 1 + 20 + 1 + 16;
    assert_eq!(u16_at(&out, cd + 12), 10436);
    assert_eq!(u16_at(&out, cd + 14), 21092);
}

#[test]
fn unset_modification_is_zero_and_path_can_be_replaced() {
    let mut writer = ZipWriter::new();
    ZipWriter::start_file("old".to_string())
        .path("new".to_string())
        .write_all(&mut writer, b"x")
        .unwrap();
    let out = writer.finish().unwrap();
    assert_eq!(u16_at(&out, 10), 0);
    assert_eq!(u16_at(&out, 12), 0);
    assert_eq!(read_back(out), vec![("new".to_string(), b"x".to_vec())]);
}

#[test]
fn into_inner_returns_bytes_so_far() {
    let mut writer = ZipWriter::new();
    writer.append_data("test".to_string(), SIMPLE).unwrap();
    let partial = writer.into_inner();
    assert_eq!(partial.len(), 54 + 11 + 16);
    assert_eq!(&partial[54..65], SIMPLE);
}

#[test]
fn modification_from_unix_timestamp() {
    // 2021-03-06 03:06:40 UTC
    let mut writer = ZipWriter::new();
    ZipWriter::start_file("u".to_string())
        .modification(1_615_000_000)
        .write_all(&mut writer, b"x")
        .unwrap();
    let out = writer.finish().unwrap();
    assert_eq!(u16_at(&out, 10), 20 | (6 << 5) | (3 << 11));
    assert_eq!(u16_at(&out, 12), 6 | (3 << 5) | (41 << 9));
    let mut archive = zip::ZipArchive::new(Cursor::new(out)).unwrap();
    let file = archive.by_index(0).unwrap();
    let modified = file.last_modified().unwrap();
    assert_eq!(
        (modified.year(), modified.month(), modified.day()),
        (2021, 3, 6)
    );
    assert_eq!((modified.hour(), modified.minute(), modified.second()), (3, 6, 40));
}

#[test]
fn deflate_entry_sizes_in_central_record() {
    let data = vec![b'q'; 5000];
    let mut writer = ZipWriter::new();
    ZipWriter::start_file("q".to_string())
        .compression(CompressorConfig::Deflate(DeflateConfig::fast()))
        .write_all(&mut writer, &data)
        .unwrap();
    let out = writer.finish().unwrap();
    let mut archive = zip::ZipArchive::new(Cursor::new(out.clone())).unwrap();
    let file = archive.by_index(0).unwrap();
    assert_eq!(file.size(), 5000);
    let compressed = file.compressed_size() as usize;
    assert!(compressed < 5000);
    // descriptor right after the payload
    let descriptor = 30 + 1 + 20 + compressed;
    assert_eq!(u32_at(&out, descriptor), 0x08074b50);
    assert_eq!(u32_at(&out, descriptor + 8), 5000);
    assert_eq!(u32_at(&out, descriptor + 12), compressed as u32);
}

#[test]
fn header_path_views() {
    let mut builder = Header::builder();
    builder.path = Some("dir/\u{2603}".to_string());
    let h = builder.build(0);
    assert_eq!(h.path_str(), "dir/\u{2603}");
    assert_eq!(h.path_bytes(), &[b'd', b'i', b'r', b'/', 0xE2, 0x98, 0x83]);
    assert_eq!(u16_at(&h.local_header_bytes(), 6), 0x0808);
}

#[test]
fn dos_date_before_1980_wraps() {
    let dt = DateTime { year: 1979, month: 1, day: 1, hour: 23, minute: 59, second: 59 };
    assert_eq!(dt.to_dos_date(), 0xFE21);
    assert_eq!(dt.to_dos_time(), 29 | (59 << 5) | (23 << 11));
}

#[test]
fn drained_output_concatenates_to_the_archive() {
    let build = |drain: bool| {
        let mut streamed = Vec::new();
        let mut writer = ZipWriter::new();
        writer.append_data("one".to_string(), b"first entry").unwrap();
        if drain {
            streamed.extend(writer.take_output());
            assert!(writer.take_output().is_empty());
        }
        let mut file_writer = ZipWriter::start_file("two".to_string())
            .compression(CompressorConfig::Deflate(DeflateConfig::default()))
            .writer(writer)
            .ok()
            .unwrap();
        for _ in 0..50 {
            file_writer.write_all(&[7u8; 1000]).unwrap();
            if drain {
                streamed.extend(file_writer.take_output());
            }
        }
        let mut writer = file_writer.finish().unwrap();
        writer.append_data("three".to_string(), b"").unwrap();
        if drain {
            streamed.extend(writer.take_output());
        }
        streamed.extend(writer.finish().unwrap());
        streamed
    };
    let whole = build(false);
    let streamed = build(true);
    assert_eq!(whole, streamed);
    let entries = read_back(streamed);
    assert_eq!(entries.len(), 3);
    assert_eq!(entries[1], ("two".to_string(), vec![7u8; 50_000]));
}

#[test]
fn modification_at_the_ends_of_the_calendar_range() {
    // 9999-12-31 23:59:59 UTC
    let mut writer = ZipWriter::new();
    ZipWriter::start_file("late".to_string())
        .modification(253_402_300_799)
        .write_all(&mut writer, b"x")
        .unwrap();
    let out = writer.finish().unwrap();
    assert_eq!(u16_at(&out, 10), 29 | (59 << 5) | (23 << 11));
    assert_eq!(u16_at(&out, 12), 31 | (12 << 5) | (((9999 - 1980) as u16) << 9));

    // the epoch, 1970-01-01 00:00:00 UTC: years before 1980 wrap
    let mut writer = ZipWriter::new();
    ZipWriter::start_file("epoch".to_string())
        .modification(0)
        .write_all(&mut writer, b"x")
        .unwrap();
    let out = writer.finish().unwrap();
    assert_eq!(u16_at(&out, 10), 0);
    assert_eq!(u16_at(&out, 12), 1 | (1 << 5) | (((1970i32 - 1980) as u16) << 9));
}

#[test]
fn owned_entry_builder_sets_options_before_opening() {
    let mut writer = ZipWriter::new();
    writer.append_data("first".to_string(), b"1").unwrap();
    let before = writer.take_output();
    let builder = writer
        .start_file_writer("old".to_string())
        .path("second".to_string())
        .compression(CompressorConfig::Deflate(DeflateConfig::best()))
        .modification_date_time(DateTime {
            year: 2021,
            month: 3,
            day: 4,
            hour: 5,
            minute: 6,
            second: 9,
        });
    let mut file_writer = builder.writer().ok().unwrap();
    let opened = file_writer.take_output();
    assert_eq!(opened.len(), 30 + 6 + 20);
    assert_eq!(u16_at(&opened, 8), 8);
    assert_eq!(u16_at(&opened, 10), 10436);
    assert_eq!(u16_at(&opened, 12), 21092);
    assert_eq!(&opened[30..36], b"second");
    file_writer.write_all(&[5u8; 3000]).unwrap();
    let mut archive = before;
    archive.extend(opened);
    archive.extend(file_writer.take_output());
    archive.extend(file_writer.finish().unwrap().finish().unwrap());
    let entries = read_back(archive);
    assert_eq!(entries[0], ("first".to_string(), b"1".to_vec()));
    assert_eq!(entries[1], ("second".to_string(), vec![5u8; 3000]));
}

#[test]
fn chunked_append_equals_append_data() {
    let mut a = ZipWriter::new();
    a.append("x".to_string(), &vec![b"ab".to_vec(), b"c".to_vec(), Vec::new(), b"def".to_vec()])
        .unwrap();
    let mut b = ZipWriter::new();
    b.append_data("x".to_string(), b"abcdef").unwrap();
    assert_eq!(a.finish().unwrap(), b.finish().unwrap());
}
