use vstd::prelude::*;

use crate::attribute::{spec_attributes, spec_compatibility, AttributeCompatibility, Attributes};
use crate::compression::{spec_compression, Compression};
use crate::datetime::{spec_datetime, ZipDateTime};
use crate::error::{ZipError, ZipErrorKind, ZipResult};
use crate::extra_field::{
    parse_extra_fields, spec_extra_fields, spec_view_fields, ExtraField, ExtraFieldView,
};
use crate::path::{PathView, ZipPath};
use crate::text::{bytes_to_string, utf8_decode};
use crate::wire::{le16, le32, le64, read_le16, read_le32, read_le64};
use vstd::string::StringExecFns;

verus! {

// The fixed-layout wire records of the container format. Every parser is a
// plain function of the byte image, so one image has exactly one parse.

pub const EOCDR32_SIGNATURE: u32 = 0x06054b50;

pub const EOCDR64_SIGNATURE: u32 = 0x06064b50;

pub const EOCDR64_LOCATOR_SIGNATURE: u32 = 0x07064b50;

pub const CD_ENTRY_SIGNATURE: u32 = 0x02014b50;

pub const LOCAL_FILE_SIGNATURE: u32 = 0x04034b50;

/// The four flag bits the reader understands; unrecognized bits are
/// ignored.
#[derive(Clone, Copy, Debug, PartialEq, Eq, Hash, Structural)]
pub struct GeneralPurposeFlag {
    pub encrypted: bool,
    pub data_descriptor: bool,
    pub utf8_required: bool,
    pub central_directory_encrypted: bool,
}

/// Bits 0, 3, 11 and 13 of the general-purpose flag word.
pub open spec fn spec_flags(value: u16) -> GeneralPurposeFlag {
    GeneralPurposeFlag {
        encrypted: value & 0x1 == 0x1,
        data_descriptor: value & 0x8 == 0x8,
        utf8_required: value & 0x800 == 0x800,
        central_directory_encrypted: value & 0x2000 == 0x2000,
    }
}

impl GeneralPurposeFlag {
    /// The flag booleans decoded from the 16-bit word.
    pub fn from(value: u16) -> (r: GeneralPurposeFlag)
        ensures
            r == spec_flags(value),
    {
        GeneralPurposeFlag {
            encrypted: value & 0x1 == 0x1,
            data_descriptor: value & 0x8 == 0x8,
            utf8_required: value & 0x800 == 0x800,
            central_directory_encrypted: value & 0x2000 == 0x2000,
        }
    }
}

/// The fixed 18-byte body of the ZIP32 end-of-central-directory record.
#[derive(Clone, Copy, Debug, PartialEq, Eq, Structural)]
pub struct Zip32CentralDirectoryEndRecord {
    pub disk_number: u16,
    pub central_directory_start_disk: u16,
    pub number_of_entries_in_disk: u16,
    pub number_of_entries: u16,
    pub central_directory_size: u32,
    pub central_directory_offset: u32,
    pub file_comment_length: u16,
}

pub open spec fn spec_zip32_end(s: Seq<u8>, i: int) -> Zip32CentralDirectoryEndRecord {
    Zip32CentralDirectoryEndRecord {
        disk_number: le16(s, i),
        central_directory_start_disk: le16(s, i + 2),
        number_of_entries_in_disk: le16(s, i + 4),
        number_of_entries: le16(s, i + 6),
        central_directory_size: le32(s, i + 8),
        central_directory_offset: le32(s, i + 12),
        file_comment_length: le16(s, i + 16),
    }
}

impl Zip32CentralDirectoryEndRecord {
    /// The record decoded from its byte image at `off`.
    pub fn parse(buf: &[u8], off: usize) -> (r: Zip32CentralDirectoryEndRecord)
        requires
            off + 18 <= buf@.len(),
        ensures
            r == spec_zip32_end(buf@, off as int),
    {
        let _n: usize = buf.len();
        Zip32CentralDirectoryEndRecord {
            disk_number: read_le16(buf, off),
            central_directory_start_disk: read_le16(buf, off + 2),
            number_of_entries_in_disk: read_le16(buf, off + 4),
            number_of_entries: read_le16(buf, off + 6),
            central_directory_size: read_le32(buf, off + 8),
            central_directory_offset: read_le32(buf, off + 12),
            file_comment_length: read_le16(buf, off + 16),
        }
    }
}

/// The fixed 52-byte body of the ZIP64 end-of-central-directory record
/// (after its signature): the leading record-size word is skipped.
#[derive(Clone, Copy, Debug, PartialEq, Eq, Structural)]
pub struct Zip64CentralDirectoryEndRecord {
    pub version_made_by: u16,
    pub version_needed: u16,
    pub disk_number: u32,
    pub central_directory_start_disk: u32,
    pub number_of_entries_in_disk: u64,
    pub number_of_entries: u64,
    pub central_directory_size: u64,
    pub central_directory_offset: u64,
}

pub open spec fn spec_zip64_end(s: Seq<u8>, i: int) -> Zip64CentralDirectoryEndRecord {
    Zip64CentralDirectoryEndRecord {
        version_made_by: le16(s, i + 8),
        version_needed: le16(s, i + 10),
        disk_number: le32(s, i + 12),
        central_directory_start_disk: le32(s, i + 16),
        number_of_entries_in_disk: le64(s, i + 20),
        number_of_entries: le64(s, i + 28),
        central_directory_size: le64(s, i + 36),
        central_directory_offset: le64(s, i + 44),
    }
}

impl Zip64CentralDirectoryEndRecord {
    /// The record decoded from its byte image at `off`.
    pub fn parse(buf: &[u8], off: usize) -> (r: Zip64CentralDirectoryEndRecord)
        requires
            off + 52 <= buf@.len(),
        ensures
            r == spec_zip64_end(buf@, off as int),
    {
        let _n: usize = buf.len();
        Zip64CentralDirectoryEndRecord {
            version_made_by: read_le16(buf, off + 8),
            version_needed: read_le16(buf, off + 10),
            disk_number: read_le32(buf, off + 12),
            central_directory_start_disk: read_le32(buf, off + 16),
            number_of_entries_in_disk: read_le64(buf, off + 20),
            number_of_entries: read_le64(buf, off + 28),
            central_directory_size: read_le64(buf, off + 36),
            central_directory_offset: read_le64(buf, off + 44),
        }
    }
}

/// The 16-byte body of the ZIP64 end-record locator.
#[derive(Clone, Copy, Debug, PartialEq, Eq, Structural)]
pub struct Zip64CentralDirectoryEndLocator {
    pub number_of_disk_with_zip64_central_directory_end: u32,
    pub relative_offset: u64,
    pub number_of_disks: u32,
}

pub open spec fn spec_zip64_locator(s: Seq<u8>, i: int) -> Zip64CentralDirectoryEndLocator {
    Zip64CentralDirectoryEndLocator {
        number_of_disk_with_zip64_central_directory_end: le32(s, i),
        relative_offset: le64(s, i + 4),
        number_of_disks: le32(s, i + 12),
    }
}

impl Zip64CentralDirectoryEndLocator {
    /// The locator decoded from its byte image at `off`.
    pub fn parse(buf: &[u8], off: usize) -> (r: Zip64CentralDirectoryEndLocator)
        requires
            off + 16 <= buf@.len(),
        ensures
            r == spec_zip64_locator(buf@, off as int),
    {
        let _n: usize = buf.len();
        Zip64CentralDirectoryEndLocator {
            number_of_disk_with_zip64_central_directory_end: read_le32(buf, off),
            relative_offset: read_le64(buf, off + 4),
            number_of_disks: read_le32(buf, off + 12),
        }
    }
}

/// The normalized end-of-central-directory record: ZIP32 fields widened, or
/// ZIP64 fields taken as they are.
#[derive(Debug)]
pub struct ZipCentralDirectoryEndRecord {
    pub version_made_by: Option<u16>,
    pub version_needed: Option<u16>,
    pub disk_number: u32,
    pub central_directory_start_disk: u32,
    pub number_of_entries_in_disk: u64,
    pub number_of_entries: u64,
    pub central_directory_size: u64,
    pub central_directory_offset: u64,
    pub comment: Option<String>,
}

/// What a normalized end record denotes.
pub struct CdEndView {
    pub version_made_by: Option<u16>,
    pub version_needed: Option<u16>,
    pub disk_number: u32,
    pub central_directory_start_disk: u32,
    pub number_of_entries_in_disk: u64,
    pub number_of_entries: u64,
    pub central_directory_size: u64,
    pub central_directory_offset: u64,
    pub comment: Option<Seq<char>>,
}

impl View for ZipCentralDirectoryEndRecord {
    type V = CdEndView;

    open spec fn view(&self) -> CdEndView {
        CdEndView {
            version_made_by: self.version_made_by,
            version_needed: self.version_needed,
            disk_number: self.disk_number,
            central_directory_start_disk: self.central_directory_start_disk,
            number_of_entries_in_disk: self.number_of_entries_in_disk,
            number_of_entries: self.number_of_entries,
            central_directory_size: self.central_directory_size,
            central_directory_offset: self.central_directory_offset,
            comment: match &self.comment {
                Some(c) => Some(c@),
                None => None,
            },
        }
    }
}

/// One central-directory entry, one per file or directory in the archive.
#[derive(Debug)]
pub struct ZipEntry {
    pub version_made_by: AttributeCompatibility,
    pub version_needed: u16,
    pub flags: GeneralPurposeFlag,
    pub compression: Compression,
    pub last_mod_datetime: ZipDateTime,
    pub crc32: u32,
    pub compressed_size: u32,
    pub uncompressed_size: u32,
    pub disk_start: u16,
    pub internal_attribute: u16,
    pub external_attribute: Attributes,
    pub file_header_offset: u32,
    pub comment: Option<String>,
    pub extra_field: Option<Vec<ExtraField>>,
    pub file_name: ZipPath,
}

/// What a central-directory entry denotes.
pub struct EntryView {
    pub version_made_by: AttributeCompatibility,
    pub version_needed: u16,
    pub flags: GeneralPurposeFlag,
    pub compression: Compression,
    pub last_mod_datetime: ZipDateTime,
    pub crc32: u32,
    pub compressed_size: u32,
    pub uncompressed_size: u32,
    pub disk_start: u16,
    pub internal_attribute: u16,
    pub external_attribute: Attributes,
    pub file_header_offset: u32,
    pub comment: Option<Seq<char>>,
    pub extra_field: Option<Seq<ExtraFieldView>>,
    pub file_name: PathView,
}

impl View for ZipEntry {
    type V = EntryView;

    open spec fn view(&self) -> EntryView {
        EntryView {
            version_made_by: self.version_made_by,
            version_needed: self.version_needed,
            flags: self.flags,
            compression: self.compression,
            last_mod_datetime: self.last_mod_datetime,
            crc32: self.crc32,
            compressed_size: self.compressed_size,
            uncompressed_size: self.uncompressed_size,
            disk_start: self.disk_start,
            internal_attribute: self.internal_attribute,
            external_attribute: self.external_attribute,
            file_header_offset: self.file_header_offset,
            comment: match &self.comment {
                Some(c) => Some(c@),
                None => None,
            },
            extra_field: match &self.extra_field {
                Some(l) => Some(spec_view_fields(l@)),
                None => None,
            },
            file_name: self.file_name@,
        }
    }
}

/// One central-directory entry decoded from the directory image, starting
/// at its signature index. Records that do not fit, names or comments that
/// are not UTF-8, and malformed extra-field regions are rejected.
pub open spec fn spec_entry(buf: Seq<u8>, idx: int) -> Result<EntryView, ZipErrorKind> {
    if idx + 46 > buf.len() {
        Err(ZipErrorKind::InvalidArchive)
    } else {
        match spec_compatibility(buf[idx + 5]) {
            Err(k) => Err(k),
            Ok(compat) => match spec_compression(le16(buf, idx + 10)) {
                Err(k) => Err(k),
                Ok(compression) => {
                    let name_len = le16(buf, idx + 28) as int;
                    let extra_len = le16(buf, idx + 30) as int;
                    let comment_len = le16(buf, idx + 32) as int;
                    if idx + 46 + name_len + extra_len + comment_len > buf.len() {
                        Err(ZipErrorKind::InvalidArchive)
                    } else {
                        let compressed_size = le32(buf, idx + 20);
                        let uncompressed_size = le32(buf, idx + 24);
                        match utf8_decode(buf.subrange(idx + 46, idx + 46 + name_len)) {
                            None => Err(ZipErrorKind::InvalidArchive),
                            Some(name) => {
                                let extra = if extra_len > 0 {
                                    spec_extra_fields(
                                        buf.subrange(
                                            idx + 46 + name_len,
                                            idx + 46 + name_len + extra_len,
                                        ),
                                        uncompressed_size,
                                        compressed_size,
                                    )
                                } else {
                                    Ok(Seq::empty())
                                };
                                match extra {
                                    Err(k) => Err(k),
                                    Ok(extra_list) => {
                                        let comment_bytes = buf.subrange(
                                            idx + 46 + name_len + extra_len,
                                            idx + 46 + name_len + extra_len + comment_len,
                                        );
                                        let comment = if comment_len > 0 {
                                            utf8_decode(comment_bytes)
                                        } else {
                                            Some(Seq::empty())
                                        };
                                        match comment {
                                            None => Err(ZipErrorKind::InvalidArchive),
                                            Some(comment_text) => {
                                                let attrs = spec_attributes(
                                                    le32(buf, idx + 38),
                                                    compat,
                                                );
                                                Ok(
                                                    EntryView {
                                                        version_made_by: compat,
                                                        version_needed: le16(buf, idx + 6),
                                                        flags: spec_flags(le16(buf, idx + 8)),
                                                        compression,
                                                        last_mod_datetime: spec_datetime(
                                                            le16(buf, idx + 12),
                                                            le16(buf, idx + 14),
                                                        ),
                                                        crc32: le32(buf, idx + 16),
                                                        compressed_size,
                                                        uncompressed_size,
                                                        disk_start: le16(buf, idx + 34),
                                                        internal_attribute: le16(buf, idx + 36),
                                                        external_attribute: attrs,
                                                        file_header_offset: le32(buf, idx + 42),
                                                        comment: if comment_len > 0 {
                                                            Some(comment_text)
                                                        } else {
                                                            None
                                                        },
                                                        extra_field: if extra_len > 0 {
                                                            Some(extra_list)
                                                        } else {
                                                            None
                                                        },
                                                        file_name: PathView {
                                                            name,
                                                            metadata: Some(attrs),
                                                        },
                                                    },
                                                )
                                            },
                                        }
                                    },
                                }
                            },
                        }
                    }
                },
            },
        }
    }
}

impl ZipEntry {
    /// One central-directory entry decoded from the directory image,
    /// starting at its signature index.
    pub fn try_from(buf: &[u8], idx: usize) -> (r: ZipResult<ZipEntry>)
        requires
            idx <= buf@.len(),
        ensures
            r matches Ok(e) ==> spec_entry(buf@, idx as int) == Ok::<_, ZipErrorKind>(e@),
            r matches Err(e) ==> spec_entry(buf@, idx as int) matches Err(k) && e.kind() == k,
            r is Ok <==> spec_entry(buf@, idx as int) is Ok,
    {
        if buf.len() - idx < 46 {
            return Err(ZipError::InvalidArchive(String::from_str("central directory entry truncated")));
        }
        let version_made_by = match AttributeCompatibility::try_from(buf[idx + 5]) {
            Ok(c) => c,
            Err(e) => {
                return Err(e);
            },
        };
        let compression = match Compression::try_from(read_le16(buf, idx + 10)) {
            Ok(c) => c,
            Err(e) => {
                return Err(e);
            },
        };
        let name_len = read_le16(buf, idx + 28) as usize;
        let extra_len = read_le16(buf, idx + 30) as usize;
        let comment_len = read_le16(buf, idx + 32) as usize;
        if name_len + extra_len + comment_len > buf.len() - idx - 46 {
            return Err(ZipError::InvalidArchive(String::from_str("central directory entry truncated")));
        }
        let compressed_size = read_le32(buf, idx + 20);
        let uncompressed_size = read_le32(buf, idx + 24);
        let name_bytes = vstd::slice::slice_to_vec(
            vstd::slice::slice_subrange(buf, idx + 46, idx + 46 + name_len),
        );
        let name = match bytes_to_string(name_bytes) {
            Some(s) => s,
            None => {
                return Err(ZipError::InvalidArchive(String::from_str("file name is not UTF-8")));
            },
        };
        let extra_field = if extra_len > 0 {
            let region = vstd::slice::slice_subrange(
                buf,
                idx + 46 + name_len,
                idx + 46 + name_len + extra_len,
            );
            match parse_extra_fields(region, uncompressed_size, compressed_size) {
                Ok(l) => Some(l),
                Err(e) => {
                    return Err(e);
                },
            }
        } else {
            None
        };
        let comment = if comment_len > 0 {
            let region = vstd::slice::slice_to_vec(
                vstd::slice::slice_subrange(
                    buf,
                    idx + 46 + name_len + extra_len,
                    idx + 46 + name_len + extra_len + comment_len,
                ),
            );
            match bytes_to_string(region) {
                Some(s) => Some(s),
                None => {
                    return Err(ZipError::InvalidArchive(String::from_str("comment is not UTF-8")));
                },
            }
        } else {
            None
        };
        let external_attribute = Attributes::from(read_le32(buf, idx + 38), &version_made_by);
        let mut file_name = ZipPath::from(name.as_str());
        file_name.set_metadata(Some(external_attribute));
        Ok(ZipEntry {
            version_made_by,
            version_needed: read_le16(buf, idx + 6),
            flags: GeneralPurposeFlag::from(read_le16(buf, idx + 8)),
            compression,
            last_mod_datetime: crate::datetime::read_datetime(buf, idx + 12),
            crc32: read_le32(buf, idx + 16),
            compressed_size,
            uncompressed_size,
            disk_start: read_le16(buf, idx + 34),
            internal_attribute: read_le16(buf, idx + 36),
            external_attribute,
            file_header_offset: read_le32(buf, idx + 42),
            comment,
            extra_field,
            file_name,
        })
    }
}

} // verus!
