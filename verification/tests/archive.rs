use zipread::error::ZipError;
use zipread::ZipArchive;

// ------------------------------------------------------------------
// Archive images built byte by byte.

struct Entry {
    name: Vec<u8>,
    method: u16,
    flags: u16,
    crc: u32,
    payload: Vec<u8>,
    comp_size: u32,
    unc_size: u32,
    local_comp: u32,
    local_unc: u32,
    host: u8,
    external: u32,
    extra: Vec<u8>,
    time: u16,
    date: u16,
}

impl Entry {
    fn stored(name: &str, payload: &[u8]) -> Entry {
        Entry {
            name: name.as_bytes().to_vec(),
            method: 0,
            flags: 0,
            crc: 0,
            payload: payload.to_vec(),
            comp_size: payload.len() as u32,
            unc_size: payload.len() as u32,
            local_comp: payload.len() as u32,
            local_unc: payload.len() as u32,
            host: 0,
            external: 0,
            extra: Vec::new(),
            time: 0,
            date: 0,
        }
    }

    fn unix(name: &str, payload: &[u8], mode: u32) -> Entry {
        let mut e = Entry::stored(name, payload);
        e.host = 3;
        e.external = mode << 16;
        e
    }
}

fn local_header(e: &Entry) -> Vec<u8> {
    let mut v = vec![0x50, 0x4b, 0x03, 0x04];
    v.extend_from_slice(&20u16.to_le_bytes());
    v.extend_from_slice(&e.flags.to_le_bytes());
    v.extend_from_slice(&e.method.to_le_bytes());
    v.extend_from_slice(&e.time.to_le_bytes());
    v.extend_from_slice(&e.date.to_le_bytes());
    v.extend_from_slice(&e.crc.to_le_bytes());
    v.extend_from_slice(&e.local_comp.to_le_bytes());
    v.extend_from_slice(&e.local_unc.to_le_bytes());
    v.extend_from_slice(&(e.name.len() as u16).to_le_bytes());
    v.extend_from_slice(&0u16.to_le_bytes());
    v.extend_from_slice(&e.name);
    v.extend_from_slice(&e.payload);
    v
}

fn cd_entry(e: &Entry, offset: u32) -> Vec<u8> {
    let mut v = vec![0x50, 0x4b, 0x01, 0x02];
    v.push(20);
    v.push(e.host);
    v.extend_from_slice(&20u16.to_le_bytes());
    v.extend_from_slice(&e.flags.to_le_bytes());
    v.extend_from_slice(&e.method.to_le_bytes());
    v.extend_from_slice(&e.time.to_le_bytes());
    v.extend_from_slice(&e.date.to_le_bytes());
    v.extend_from_slice(&e.crc.to_le_bytes());
    v.extend_from_slice(&e.comp_size.to_le_bytes());
    v.extend_from_slice(&e.unc_size.to_le_bytes());
    v.extend_from_slice(&(e.name.len() as u16).to_le_bytes());
    v.extend_from_slice(&(e.extra.len() as u16).to_le_bytes());
    v.extend_from_slice(&0u16.to_le_bytes());
    v.extend_from_slice(&0u16.to_le_bytes());
    v.extend_from_slice(&0u16.to_le_bytes());
    v.extend_from_slice(&e.external.to_le_bytes());
    v.extend_from_slice(&offset.to_le_bytes());
    v.extend_from_slice(&e.name);
    v.extend_from_slice(&e.extra);
    v
}

fn eocdr32(count: u16, cd_size: u32, cd_offset: u32, comment: &[u8]) -> Vec<u8> {
    let mut v = vec![0x50, 0x4b, 0x05, 0x06];
    v.extend_from_slice(&0u16.to_le_bytes());
    v.extend_from_slice(&0u16.to_le_bytes());
    v.extend_from_slice(&count.to_le_bytes());
    v.extend_from_slice(&count.to_le_bytes());
    v.extend_from_slice(&cd_size.to_le_bytes());
    v.extend_from_slice(&cd_offset.to_le_bytes());
    v.extend_from_slice(&(comment.len() as u16).to_le_bytes());
    v.extend_from_slice(comment);
    v
}

fn build_archive(entries: &[Entry], comment: &[u8]) -> Vec<u8> {
    let mut image = Vec::new();
    let mut offsets = Vec::new();
    for e in entries {
        offsets.push(image.len() as u32);
        image.extend_from_slice(&local_header(e));
    }
    let cd_offset = image.len() as u32;
    for (e, off) in entries.iter().zip(offsets.iter()) {
        image.extend_from_slice(&cd_entry(e, *off));
    }
    let cd_size = image.len() as u32 - cd_offset;
    image.extend_from_slice(&eocdr32(entries.len() as u16, cd_size, cd_offset, comment));
    image
}

/// A raw deflate stream holding one stored (uncompressed) block.
fn deflate_stored_block(payload: &[u8]) -> Vec<u8> {
    let len = payload.len() as u16;
    let nlen = !len;
    let mut v = vec![0x01];
    v.extend_from_slice(&len.to_le_bytes());
    v.extend_from_slice(&nlen.to_le_bytes());
    v.extend_from_slice(payload);
    v
}

const FOX: &[u8] = b"The quick brown fox jumps.";

fn deflate_entry(name: &str, payload: &[u8]) -> Entry {
    let stream = deflate_stored_block(payload);
    let mut e = Entry::stored(name, &stream);
    e.method = 8;
    e.unc_size = payload.len() as u32;
    e.local_unc = payload.len() as u32;
    e
}

// ------------------------------------------------------------------
// End-to-end scenarios.

#[test]
fn stored_single_file_round_trip() {
    let payload = [0x00u8, 0x01, 0x02, 0x03];
    let image = build_archive(&[Entry::stored("a.bin", &payload)], b"");
    let zip = ZipArchive::new(image).unwrap();
    assert_eq!(zip.len(), 1);
    assert!(!zip.is_empty());
    let file = zip.file_by_index(0).unwrap();
    assert_eq!(file.compressed_size, 4);
    assert_eq!(file.uncompressed_size, 4);
    assert_eq!(file.extract().unwrap(), payload.to_vec());
}

#[test]
fn deflate_payload_round_trip() {
    let image = build_archive(&[deflate_entry("fox.txt", FOX)], b"");
    let zip = ZipArchive::new(image).unwrap();
    let file = zip.file_by_index(0).unwrap();
    assert_eq!(file.uncompressed_size, 26);
    let out = file.extract().unwrap();
    assert_eq!(out, FOX.to_vec());
    assert_eq!(out.len(), 26);
}

#[test]
fn deflate_output_differs_from_stream() {
    // the decoder must transform the stream, not hand it back
    let stream = deflate_stored_block(FOX);
    let image = build_archive(&[deflate_entry("fox.txt", FOX)], b"");
    let zip = ZipArchive::new(image).unwrap();
    let file = zip.file_by_index(0).unwrap();
    assert_eq!(file.data().clone(), stream);
    let out = file.extract().unwrap();
    assert_ne!(out, stream);
    assert_eq!(out, FOX.to_vec());
}

#[test]
fn archive_comment_round_trip() {
    let image = build_archive(&[], b"archive-comment!");
    let zip = ZipArchive::new(image).unwrap();
    assert_eq!(zip.comment(), &Some(String::from("archive-comment!")));
}

#[test]
fn directory_then_file_in_order() {
    let dir = Entry::unix("dir/", b"", 0o040755);
    let file = Entry::unix("dir/f", b"x", 0o100644);
    let image = build_archive(&[dir, file], b"");
    let zip = ZipArchive::new(image).unwrap();
    assert_eq!(zip.len(), 2);
    let names = zip.file_names();
    assert_eq!(names[0].as_os_str(), "dir/");
    assert_eq!(names[1].as_os_str(), "dir/f");
    let first = zip.file_by_index(0).unwrap();
    assert!(first.is_dir());
    assert!(!first.is_file());
    let second = zip.file_by_index(1).unwrap();
    assert!(second.is_file());
    assert!(!second.is_dir());
}

#[test]
fn traversal_name_is_sanitized_on_retrieval() {
    let image = build_archive(&[Entry::unix("../etc/passwd", b"p", 0o100644)], b"");
    let zip = ZipArchive::new(image).unwrap();
    // the stored name stays authoritative for lookups
    assert_eq!(zip.file_names()[0].as_os_str(), "../etc/passwd");
    let file = zip.file_by_name("../etc/passwd").unwrap();
    assert_eq!(file.file_name.as_os_str(), "etc/passwd");
}

#[test]
fn empty_archive_opens() {
    let image = build_archive(&[], b"");
    let zip = ZipArchive::new(image).unwrap();
    assert_eq!(zip.len(), 0);
    assert!(zip.is_empty());
    assert!(zip.stream().is_empty());
    assert!(zip.file_names().is_empty());
    assert_eq!(zip.comment(), &None);
}

#[test]
fn archive_with_longest_comment_opens() {
    let comment = vec![b'c'; 65535];
    let image = build_archive(&[Entry::stored("a", b"z")], &comment);
    let zip = ZipArchive::new(image).unwrap();
    assert_eq!(zip.len(), 1);
    assert_eq!(zip.comment().as_ref().unwrap().len(), 65535);
}

#[test]
fn sentinel_entry_count_resolves_through_zip64() {
    let entry = Entry::stored("big.bin", b"payload");
    let mut image = Vec::new();
    image.extend_from_slice(&local_header(&entry));
    let cd_offset = image.len() as u64;
    image.extend_from_slice(&cd_entry(&entry, 0));
    let cd_size = image.len() as u64 - cd_offset;
    // the ZIP64 end record carries the authoritative values
    image.extend_from_slice(&[0x50, 0x4b, 0x06, 0x06]);
    image.extend_from_slice(&44u64.to_le_bytes()); // size of remaining record
    image.extend_from_slice(&45u16.to_le_bytes());
    image.extend_from_slice(&45u16.to_le_bytes());
    image.extend_from_slice(&0u32.to_le_bytes());
    image.extend_from_slice(&0u32.to_le_bytes());
    image.extend_from_slice(&1u64.to_le_bytes());
    image.extend_from_slice(&1u64.to_le_bytes());
    image.extend_from_slice(&cd_size.to_le_bytes());
    image.extend_from_slice(&cd_offset.to_le_bytes());
    // the locator precedes the ZIP32 end record
    let zip64_pos = (cd_offset + cd_size) as u64;
    image.extend_from_slice(&[0x50, 0x4b, 0x06, 0x07]);
    image.extend_from_slice(&0u32.to_le_bytes());
    image.extend_from_slice(&zip64_pos.to_le_bytes());
    image.extend_from_slice(&1u32.to_le_bytes());
    // the ZIP32 record marks the entry count as overflowed
    image.extend_from_slice(&eocdr32(0xFFFF, cd_size as u32, cd_offset as u32, b""));
    let zip = ZipArchive::new(image).unwrap();
    assert_eq!(zip.len(), 1);
    let file = zip.file_by_index(0).unwrap();
    assert_eq!(file.extract().unwrap(), b"payload".to_vec());
}

// ------------------------------------------------------------------
// Failures.

#[test]
fn missing_end_signature_is_rejected() {
    let err = ZipArchive::new(vec![0u8; 64]).unwrap_err();
    assert!(matches!(err, ZipError::SignatureNotFound(_)));
}

#[test]
fn wrong_local_signature_is_rejected() {
    let mut image = build_archive(&[Entry::stored("a", b"z")], b"");
    image[0] = 0x51; // break the local header signature
    let zip = ZipArchive::new(image).unwrap();
    let err = zip.file_by_index(0).unwrap_err();
    assert!(matches!(err, ZipError::SignatureNotFound(_)));
}

#[test]
fn unknown_compression_method_is_rejected() {
    let mut entry = Entry::stored("a", b"z");
    entry.method = 5;
    let err = ZipArchive::new(build_archive(&[entry], b"")).unwrap_err();
    assert!(matches!(err, ZipError::CompressionNotSupported));
}

#[test]
fn unknown_host_compatibility_is_rejected() {
    let mut entry = Entry::stored("a", b"z");
    entry.host = 7;
    let err = ZipArchive::new(build_archive(&[entry], b"")).unwrap_err();
    assert!(matches!(err, ZipError::AttributeCompatibilityNotSupported));
}

#[test]
fn encrypted_entry_fails_at_extraction() {
    let mut entry = Entry::stored("a", b"z");
    entry.flags = 0x1;
    let zip = ZipArchive::new(build_archive(&[entry], b"")).unwrap();
    let file = zip.file_by_index(0).unwrap();
    let err = file.extract().unwrap_err();
    assert!(matches!(err, ZipError::FeatureNotSupported(ref s) if s == "encryption"));
}

#[test]
fn data_descriptor_entry_is_unsupported() {
    let mut entry = Entry::stored("a", b"z");
    entry.flags = 0x8;
    let zip = ZipArchive::new(build_archive(&[entry], b"")).unwrap();
    let err = zip.file_by_index(0).unwrap_err();
    assert!(matches!(err, ZipError::FeatureNotSupported(ref s) if s == "data descriptor"));
}

#[test]
fn wrong_advertised_size_is_rejected() {
    let mut entry = deflate_entry("fox.txt", FOX);
    entry.unc_size = 25;
    entry.local_unc = 25;
    let zip = ZipArchive::new(build_archive(&[entry], b"")).unwrap();
    let file = zip.file_by_index(0).unwrap();
    let err = file.extract().unwrap_err();
    assert!(matches!(err, ZipError::InvalidArchive(_)));
}

#[test]
fn malformed_deflate_stream_surfaces_io_error() {
    let mut entry = Entry::stored("bad.bin", &[0x07, 0x07, 0x07]);
    entry.method = 8;
    let zip = ZipArchive::new(build_archive(&[entry], b"")).unwrap();
    let file = zip.file_by_index(0).unwrap();
    let err = file.extract().unwrap_err();
    assert!(matches!(err, ZipError::IO(_)));
}

#[test]
fn invalid_name_encoding_is_rejected() {
    let mut entry = Entry::stored("ab", b"z");
    entry.name = vec![0xff, 0xfe];
    let err = ZipArchive::new(build_archive(&[entry], b"")).unwrap_err();
    assert!(matches!(err, ZipError::InvalidArchive(_)));
}

#[test]
fn unknown_name_lookup_is_rejected() {
    let zip = ZipArchive::new(build_archive(&[Entry::stored("a", b"z")], b"")).unwrap();
    let err = zip.file_by_name("missing").unwrap_err();
    assert!(matches!(err, ZipError::InvalidArchive(_)));
    let err = zip.file_by_index(1).unwrap_err();
    assert!(matches!(err, ZipError::InvalidArchive(_)));
}

// ------------------------------------------------------------------
// Agreement, ordering and ZIP64 details.

#[test]
fn name_and_index_retrieval_agree() {
    let image = build_archive(
        &[
            Entry::stored("first", b"one"),
            Entry::stored("second", b"two"),
            Entry::stored("third", b"three"),
        ],
        b"",
    );
    let zip = ZipArchive::new(image).unwrap();
    let names = zip.file_names();
    for i in 0..zip.len() {
        let by_index = zip.file_by_index(i).unwrap();
        let by_name = zip.file_by_name(names[i].as_os_str()).unwrap();
        assert_eq!(by_index.crc32, by_name.crc32);
        assert_eq!(by_index.compressed_size, by_name.compressed_size);
        assert_eq!(by_index.file_name.as_os_str(), by_name.file_name.as_os_str());
        assert_eq!(by_index.extract().unwrap(), by_name.extract().unwrap());
    }
}

#[test]
fn duplicate_names_keep_position_and_take_last_value() {
    let image = build_archive(
        &[
            Entry::stored("dup", b"old"),
            Entry::stored("other", b"mid"),
            Entry::stored("dup", b"new"),
        ],
        b"",
    );
    let zip = ZipArchive::new(image).unwrap();
    assert_eq!(zip.len(), 2);
    let names = zip.file_names();
    assert_eq!(names[0].as_os_str(), "dup");
    assert_eq!(names[1].as_os_str(), "other");
    assert_eq!(zip.file_by_index(0).unwrap().extract().unwrap(), b"new".to_vec());
    assert_eq!(zip.file_by_name("dup").unwrap().extract().unwrap(), b"new".to_vec());
}

#[test]
fn zip64_extra_field_resolves_local_sizes() {
    let payload = b"zip64 payload".to_vec();
    let mut entry = Entry::stored("big", &payload);
    entry.comp_size = u32::MAX;
    entry.unc_size = u32::MAX;
    entry.local_comp = u32::MAX;
    entry.local_unc = u32::MAX;
    let mut extra = Vec::new();
    extra.extend_from_slice(&0x0001u16.to_le_bytes());
    extra.extend_from_slice(&16u16.to_le_bytes());
    extra.extend_from_slice(&(payload.len() as u64).to_le_bytes());
    extra.extend_from_slice(&(payload.len() as u64).to_le_bytes());
    entry.extra = extra;
    let zip = ZipArchive::new(build_archive(&[entry], b"")).unwrap();
    let file = zip.file_by_index(0).unwrap();
    assert_eq!(file.compressed_size, payload.len() as u64);
    assert_eq!(file.uncompressed_size, payload.len() as u64);
    assert_eq!(file.extract().unwrap(), payload);
}

#[test]
fn local_header_fields_carry_through() {
    let date: u16 = (43 << 9) | (6 << 5) | 15;
    let time: u16 = (12 << 11) | (30 << 5) | 21;
    let mut entry = Entry::stored("stamped", b"data");
    entry.crc = 0xCAFEBABE;
    entry.time = time;
    entry.date = date;
    let zip = ZipArchive::new(build_archive(&[entry], b"")).unwrap();
    let file = zip.file_by_index(0).unwrap();
    assert_eq!(file.crc32, 0xCAFEBABE);
    assert_eq!(file.last_mod_datetime.year, 2023);
    assert_eq!(file.last_mod_datetime.month, 6);
    assert_eq!(file.last_mod_datetime.day, 15);
    assert_eq!(file.last_mod_datetime.hour, 12);
    assert_eq!(file.last_mod_datetime.minute, 30);
    assert_eq!(file.last_mod_datetime.second, 42);
    assert_eq!(file.version_needed, 20);
}

#[test]
fn all_codec_methods_decode() {
    let bzip2_stream = vec![
        66u8, 90, 104, 49, 49, 65, 89, 38, 83, 89, 92, 174, 99, 163, 0, 0, 2, 147, 128, 64, 1, 4,
        0, 27, 123, 250, 192, 32, 0, 49, 64, 211, 67, 35, 38, 33, 70, 134, 129, 234, 3, 106, 92,
        26, 249, 84, 4, 179, 32, 66, 119, 213, 227, 22, 46, 248, 187, 146, 41, 194, 132, 130, 229,
        115, 29, 24,
    ];
    let lzma_stream = vec![
        93u8, 0, 0, 128, 0, 255, 255, 255, 255, 255, 255, 255, 255, 0, 42, 26, 8, 162, 3, 37, 102,
        241, 75, 120, 197, 162, 5, 255, 46, 230, 217, 210, 32, 26, 173, 52, 248, 226, 29, 232, 69,
        105, 56, 1, 158, 255, 242, 88, 0, 0,
    ];
    let zstd_stream = vec![
        40u8, 181, 47, 253, 4, 88, 209, 0, 0, 84, 104, 101, 32, 113, 117, 105, 99, 107, 32, 98,
        114, 111, 119, 110, 32, 102, 111, 120, 32, 106, 117, 109, 112, 115, 46, 65, 248, 231, 197,
    ];
    let xz_stream = vec![
        253u8, 55, 122, 88, 90, 0, 0, 4, 230, 214, 180, 70, 2, 0, 33, 1, 22, 0, 0, 0, 116, 47,
        229, 163, 1, 0, 25, 84, 104, 101, 32, 113, 117, 105, 99, 107, 32, 98, 114, 111, 119, 110,
        32, 102, 111, 120, 32, 106, 117, 109, 112, 115, 46, 0, 0, 0, 55, 138, 106, 252, 241, 164,
        116, 63, 0, 1, 50, 26, 32, 24, 148, 48, 31, 182, 243, 125, 1, 0, 0, 0, 0, 4, 89, 90,
    ];
    // deflate64 decodes plain deflate streams as well
    let cases: Vec<(u16, Vec<u8>)> = vec![
        (8, deflate_stored_block(FOX)),
        (9, deflate_stored_block(FOX)),
        (12, bzip2_stream),
        (14, lzma_stream),
        (93, zstd_stream),
        (95, xz_stream),
    ];
    for (method, stream) in cases {
        let mut entry = Entry::stored("fox.txt", &stream);
        entry.method = method;
        entry.unc_size = 26;
        entry.local_unc = 26;
        let zip = ZipArchive::new(build_archive(&[entry], b"")).unwrap();
        let file = zip.file_by_index(0).unwrap();
        let out = file.extract().unwrap();
        assert_ne!(out, stream, "method {} must transform its stream", method);
        assert_eq!(out, FOX.to_vec(), "method {} must yield the payload", method);
    }
}

#[test]
fn lossy_comment_replaces_invalid_bytes() {
    let image = build_archive(&[], &[b'a', 0xff, b'b']);
    let zip = ZipArchive::new(image).unwrap();
    let comment = zip.comment().clone().unwrap();
    assert!(comment.starts_with('a'));
    assert!(comment.ends_with('b'));
    assert!(comment.contains('\u{FFFD}'));
}

// ------------------------------------------------------------------
// The whole-archive walks the original suite performed over its fixture
// files, here over in-memory images.

fn fixture_archives() -> Vec<Vec<u8>> {
    vec![
        build_archive(&[], b""),
        build_archive(&[Entry::stored("a.bin", &[0, 1, 2, 3])], b""),
        build_archive(&[deflate_entry("fox.txt", FOX)], b"with comment"),
        build_archive(
            &[
                Entry::unix("dir/", b"", 0o040755),
                Entry::unix("dir/f", b"x", 0o100644),
            ],
            b"",
        ),
    ]
}

#[test]
fn read_zip_archive() {
    for image in fixture_archives() {
        let _zip = ZipArchive::new(image).unwrap();
    }
}

#[test]
fn decompress_zip_archive_first_entry() {
    for image in fixture_archives() {
        let zip = ZipArchive::new(image).unwrap();
        for item in zip.stream() {
            let zip_file = item.unwrap();
            if zip_file.is_file() {
                let compression = zip_file.compression;
                let compressed_data = zip_file.data().clone();
                let compressed_size = zip_file.compressed_size as usize;
                let uncompressed_size = zip_file.uncompressed_size as usize;
                let uncompressed_data = zip_file.extract().unwrap();
                if compression != zipread::compression::Compression::Stored {
                    assert_eq!(compressed_size, compressed_data.len());
                    assert_eq!(uncompressed_size, uncompressed_data.len());
                }
                break;
            }
        }
    }
}
