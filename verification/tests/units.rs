use zipread::attribute::{AttributeCompatibility, Attributes, Permissions};
use zipread::compression::Compression;
use zipread::datetime::ZipDateTime;
use zipread::error::{ZipError, ZipErrorKind};
use zipread::extra_field::{
    ExtraField, ExtraFieldAsBytes, HeaderId, UnknownExtraField, Zip64ExtendedInfoExtraField,
    ZipUnicodeCommentInfoExtraField, ZipUnicodePathInfoExtraField,
};
use zipread::path::ZipPath;
use zipread::records::GeneralPurposeFlag;

#[test]
fn datetime_decodes_msdos_words() {
    // date: year 2023 (43 since 1980), month 6, day 15
    let date: u16 = (43 << 9) | (6 << 5) | 15;
    // time: 12:30:42
    let time: u16 = (12 << 11) | (30 << 5) | 21;
    let bytes = [
        (time & 0xff) as u8,
        (time >> 8) as u8,
        (date & 0xff) as u8,
        (date >> 8) as u8,
    ];
    let dt = ZipDateTime::try_from(bytes).unwrap();
    assert_eq!(dt.year, 2023);
    assert_eq!(dt.month, 6);
    assert_eq!(dt.day, 15);
    assert_eq!(dt.hour, 12);
    assert_eq!(dt.minute, 30);
    assert_eq!(dt.second, 42);
}

#[test]
fn datetime_preserves_out_of_range_fields() {
    // month 15 and day 31 are stored, not validated
    let date: u16 = (1 << 9) | (15 << 5) | 31;
    let bytes = [0, 0, (date & 0xff) as u8, (date >> 8) as u8];
    let dt = ZipDateTime::try_from(bytes).unwrap();
    assert_eq!(dt.year, 1981);
    assert_eq!(dt.month, 15);
    assert_eq!(dt.day, 31);
}

#[test]
fn compression_codes_round_trip() {
    for (code, method) in [
        (0u16, Compression::Stored),
        (8, Compression::Deflate),
        (9, Compression::Deflate64),
        (12, Compression::Bzip2),
        (14, Compression::Lzma),
        (93, Compression::Zstd),
        (95, Compression::Xz),
    ] {
        let parsed = Compression::try_from(code).unwrap();
        assert_eq!(parsed, method);
        assert_eq!(parsed.code(), code);
    }
    assert!(matches!(
        Compression::try_from(5),
        Err(ZipError::CompressionNotSupported)
    ));
}

#[test]
fn attribute_compatibility_codes() {
    assert!(matches!(
        AttributeCompatibility::try_from(0),
        Ok(AttributeCompatibility::MsDos)
    ));
    assert!(matches!(
        AttributeCompatibility::try_from(3),
        Ok(AttributeCompatibility::Unix)
    ));
    assert!(matches!(
        AttributeCompatibility::try_from(10),
        Ok(AttributeCompatibility::NTFS)
    ));
    assert!(matches!(
        AttributeCompatibility::try_from(7),
        Err(ZipError::AttributeCompatibilityNotSupported)
    ));
    assert_eq!(AttributeCompatibility::Unix.code(), 3);
}

#[test]
fn unix_mode_bits_decode() {
    let mode: u32 = 0o100754 << 16;
    let attrs = Attributes::from(mode, &AttributeCompatibility::Unix);
    assert!(attrs.file);
    assert!(!attrs.directory);
    assert!(!attrs.symbolic);
    assert!(attrs.owner.read && attrs.owner.write && attrs.owner.execute);
    assert!(attrs.group.read && !attrs.group.write && attrs.group.execute);
    assert!(attrs.other.read && !attrs.other.write && !attrs.other.execute);

    let dir = Attributes::from(0o040755 << 16, &AttributeCompatibility::Unix);
    assert!(dir.directory && !dir.file);

    let link = Attributes::from(0o120777 << 16, &AttributeCompatibility::Unix);
    assert!(link.symbolic);
}

#[test]
fn non_unix_hosts_get_default_attributes() {
    let attrs = Attributes::from(0o100755 << 16, &AttributeCompatibility::MsDos);
    assert_eq!(attrs, Attributes::default());
    let attrs = Attributes::from(u32::MAX, &AttributeCompatibility::NTFS);
    assert_eq!(attrs, Attributes::default());
}

#[test]
fn general_purpose_flag_bits() {
    let f = GeneralPurposeFlag::from(0x0809);
    assert!(f.encrypted);
    assert!(f.data_descriptor);
    assert!(f.utf8_required);
    assert!(!f.central_directory_encrypted);
    let g = GeneralPurposeFlag::from(0x2000);
    assert!(g.central_directory_encrypted);
    assert!(!g.encrypted && !g.data_descriptor && !g.utf8_required);
}

#[test]
fn zip64_extra_field_from_bytes() {
    let mut data = Vec::new();
    data.extend_from_slice(&123456789012u64.to_le_bytes());
    data.extend_from_slice(&987654321098u64.to_le_bytes());
    let field = Zip64ExtendedInfoExtraField::from_bytes(
        HeaderId(0x0001),
        &data,
        u32::MAX,
        u32::MAX,
    )
    .unwrap();
    assert_eq!(field.uncompressed_size, Some(123456789012));
    assert_eq!(field.compressed_size, Some(987654321098));
    assert_eq!(field.relative_header_offset, None);
    assert_eq!(field.disk_start_number, None);
}

#[test]
fn zip64_extra_field_without_sentinels_reads_trailing_fields() {
    let mut data = Vec::new();
    data.extend_from_slice(&77u64.to_le_bytes());
    data.extend_from_slice(&3u32.to_le_bytes());
    // sizes are not marked overflowed, so the first eight bytes are the
    // relative header offset and the next four the disk number
    let field = Zip64ExtendedInfoExtraField::from_bytes(HeaderId(0x0001), &data, 10, 20).unwrap();
    assert_eq!(field.uncompressed_size, None);
    assert_eq!(field.compressed_size, None);
    assert_eq!(field.relative_header_offset, Some(77));
    assert_eq!(field.disk_start_number, Some(3));
}

#[test]
fn zip64_builder_and_sizes() {
    let mut field = Zip64ExtendedInfoExtraField::new();
    assert_eq!(field.content_size(), 0);
    field.sizes(100, 200);
    assert_eq!(field.compressed_size, Some(100));
    assert_eq!(field.uncompressed_size, Some(200));
    assert_eq!(field.content_size(), 16);
    let bytes = field.as_bytes();
    assert_eq!(bytes.len() as u64, field.count_bytes());
    assert_eq!(bytes.len(), 20);
    assert_eq!(&bytes[0..2], &[0x01, 0x00]);
    assert_eq!(&bytes[2..4], &[16, 0]);
    assert_eq!(&bytes[4..12], &200u64.to_le_bytes());
    assert_eq!(&bytes[12..20], &100u64.to_le_bytes());
}

#[test]
fn unicode_comment_field_versions() {
    let mut data = vec![1u8];
    data.extend_from_slice(&0xDEADBEEFu32.to_le_bytes());
    data.extend_from_slice(b"hi");
    let f = ZipUnicodeCommentInfoExtraField::from_bytes(HeaderId(0x6375), 7, &data).unwrap();
    match f {
        ZipUnicodeCommentInfoExtraField::V1 { crc32, unicode } => {
            assert_eq!(crc32, 0xDEADBEEF);
            assert_eq!(unicode, b"hi".to_vec());
        }
        _ => panic!("expected a version 1 record"),
    }

    let data = vec![9u8, 1, 2, 3];
    let f = ZipUnicodeCommentInfoExtraField::from_bytes(HeaderId(0x6375), 4, &data).unwrap();
    match f {
        ZipUnicodeCommentInfoExtraField::Unknown { version, data } => {
            assert_eq!(version, 9);
            assert_eq!(data, vec![1, 2, 3]);
        }
        _ => panic!("expected an unknown-version record"),
    }
}

#[test]
fn unicode_fields_reject_incomplete_bodies() {
    let empty: [u8; 0] = [];
    assert!(matches!(
        ZipUnicodeCommentInfoExtraField::from_bytes(HeaderId(0x6375), 0, &empty),
        Err(ZipError::ZipUnicodeCommentExtraFieldInfoIncomplete)
    ));
    assert!(matches!(
        ZipUnicodePathInfoExtraField::from_bytes(HeaderId(0x7075), 0, &empty),
        Err(ZipError::ZipUnicodePathInfoExtraFieldIncomplete)
    ));
    // a version 1 record needs at least the version byte and the checksum
    let short = [1u8, 2, 3];
    assert!(matches!(
        ZipUnicodePathInfoExtraField::from_bytes(HeaderId(0x7075), 3, &short),
        Err(ZipError::ZipUnicodePathInfoExtraFieldIncomplete)
    ));
}

#[test]
fn unicode_path_field_round_trip() {
    let mut data = vec![1u8];
    data.extend_from_slice(&7u32.to_le_bytes());
    data.extend_from_slice(b"name");
    let f = ZipUnicodePathInfoExtraField::from_bytes(HeaderId(0x7075), 9, &data).unwrap();
    let encoded = f.as_bytes();
    assert_eq!(encoded.len() as u64, f.count_bytes());
    assert_eq!(&encoded[0..2], &[0x75, 0x70]);
    assert_eq!(&encoded[2..4], &[9, 0]);
    assert_eq!(encoded[4], 1);
    assert_eq!(&encoded[5..9], &7u32.to_le_bytes());
    assert_eq!(&encoded[9..], b"name");
}

#[test]
fn unknown_extra_field_keeps_raw_bytes() {
    let body = [9u8, 8, 7];
    let f = ExtraField::from_bytes(HeaderId(0x1234), 3, &body, 0, 0).unwrap();
    match &f {
        ExtraField::Unknown(u) => {
            assert_eq!(u.header_id, HeaderId(0x1234));
            assert_eq!(u.data_size, 3);
            assert_eq!(u.content, vec![9, 8, 7]);
        }
        _ => panic!("expected an unknown record"),
    }
    let encoded = f.as_bytes();
    assert_eq!(encoded, vec![0x34, 0x12, 3, 0, 9, 8, 7]);
    assert_eq!(f.count_bytes(), 7);
}

#[test]
fn extra_field_list_encodes_in_order() {
    // the list implementation concatenates each record's image in order
    let list: Vec<ExtraField> = vec![
        ExtraField::Unknown(UnknownExtraField {
            header_id: HeaderId(0x1111),
            data_size: 1,
            content: vec![5],
        }),
        ExtraField::Unknown(UnknownExtraField {
            header_id: HeaderId(0x2222),
            data_size: 2,
            content: vec![6, 7],
        }),
    ];
    let bytes = list.as_bytes();
    assert_eq!(
        bytes,
        vec![0x11, 0x11, 1, 0, 5, 0x22, 0x22, 2, 0, 6, 7]
    );
    assert_eq!(list.count_bytes(), 11);
}

#[test]
fn sanitize_strips_traversal_components() {
    let mut p = ZipPath::from("../etc/passwd");
    p.sanitize();
    assert_eq!(p.as_os_str(), "etc/passwd");
}

#[test]
fn sanitize_is_idempotent_on_concrete_paths() {
    for raw in [
        "../etc/passwd",
        "/абв/./x//y/../z/",
        "a/b/c",
        "",
        "/",
        "..",
        "./",
        "a//b/",
    ] {
        let mut once = ZipPath::from(raw);
        once.sanitize();
        let mut twice = ZipPath::from(once.as_os_str());
        twice.sanitize();
        assert_eq!(once.as_os_str(), twice.as_os_str());
        for part in once.as_os_str().split('/') {
            if !once.as_os_str().is_empty() {
                assert!(!part.is_empty());
                assert_ne!(part, ".");
                assert_ne!(part, "..");
            }
        }
    }
}

#[test]
fn path_append_joins_with_separator() {
    let mut p = ZipPath::new();
    p.append("dir");
    assert_eq!(p.as_os_str(), "dir");
    p.append("file.txt");
    assert_eq!(p.as_os_str(), "dir/file.txt");
    p.append("/absolute");
    assert_eq!(p.as_os_str(), "/absolute");
}

#[test]
fn path_file_name_and_parent() {
    let mut p = ZipPath::from("dir/sub/file.txt");
    assert_eq!(p.file_name(), None);
    let file_attrs = Attributes {
        file: true,
        ..Attributes::default()
    };
    p.update(&file_attrs);
    assert_eq!(p.file_name().as_deref(), Some("file.txt"));
    assert_eq!(p.parent().as_deref(), Some("dir/sub"));
    let q = ZipPath::from("plain");
    assert_eq!(q.parent().as_deref(), Some(""));
    let empty = ZipPath::new();
    assert_eq!(empty.parent(), None);
}

#[test]
fn path_equality_ignores_metadata() {
    let a = ZipPath::from("same/name");
    let mut b = ZipPath::from("same/name");
    b.update(&Attributes {
        directory: true,
        ..Attributes::default()
    });
    assert!(a == b);
    let c = ZipPath::from("other");
    assert!(a != c);
}

#[test]
fn path_update_merges_attributes() {
    let mut p = ZipPath::from("x");
    assert!(!p.is_dir() && !p.is_file() && !p.is_symlink());
    let first = Attributes {
        file: true,
        group: Permissions {
            read: true,
            write: false,
            execute: true,
        },
        other: Permissions {
            read: true,
            write: true,
            execute: true,
        },
        ..Attributes::default()
    };
    p.update(&first);
    assert!(p.is_file());
    let second = Attributes {
        symbolic: true,
        group: Permissions {
            read: false,
            write: true,
            execute: false,
        },
        ..Attributes::default()
    };
    p.update(&second);
    // type bits and the owner triple follow the update; the group read and
    // execute bits and the whole other triple are kept
    assert!(p.is_symlink() && !p.is_file());
    let m = p.metadata().unwrap();
    assert!(m.group.read && m.group.write && m.group.execute);
    assert!(m.other.read && m.other.write && m.other.execute);
}

#[test]
fn error_kinds_strip_detail_text() {
    let e = ZipError::InvalidArchive(String::from("anything"));
    assert_eq!(e.error_kind(), ZipErrorKind::InvalidArchive);
    let e = ZipError::SignatureNotFound(String::from("detail"));
    assert_eq!(e.error_kind(), ZipErrorKind::SignatureNotFound);
    assert_eq!(
        ZipError::CompressionNotSupported.error_kind(),
        ZipErrorKind::CompressionNotSupported
    );
}
