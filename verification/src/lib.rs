//! An in-memory reader for the ZIP archive container format, covering the
//! classical 32-bit layout and the ZIP64 extension, with pluggable
//! decompression for the common payload methods.
//!
//! The archive is consumed as one owned byte buffer; opening parses the
//! end-of-central-directory records, walks the central directory and builds a
//! name-indexed, insertion-ordered table of entries. Entries are retrieved by
//! name or by index, decoded from their local file header, and extracted
//! through the decompressor selected by their compression method.

use vstd::prelude::*;
use vstd::string::StringExecFns;

pub mod attribute;
pub mod codec;
pub mod compression;
pub mod datetime;
pub mod entry_map;
pub mod error;
pub mod extra_field;
pub mod path;
pub mod read;
pub mod records;
pub mod search;
pub mod text;
pub mod wire;

use crate::codec::{
    bunzip, bunzip_of, inflate, inflate64, inflate64_of, inflate_of, unlzma, unlzma_of, unxz,
    unxz_of, unzstd, unzstd_of,
};
use crate::compression::Compression;
use crate::datetime::ZipDateTime;
use crate::entry_map::{index_get, name_positions, NameIndex};
use crate::error::{ZipError, ZipErrorKind, ZipResult};
use crate::extra_field::ExtraField;
use crate::path::ZipPath;
use crate::read::{
    lemma_names_indexed_unique, names_indexed, names_unique, opt_text, parse_central_directory,
    read_cd_end, read_local_file, spec_cd_end, spec_parse_cd, spec_read_local, view_entries,
    FileView,
};
use crate::records::{EntryView, GeneralPurposeFlag, ZipEntry};

verus! {

/// One file or directory retrieved from the archive: the local header's
/// fields, the authoritative name with its attributes, and the raw
/// compressed payload. The value is self-contained and may outlive the
/// archive.
#[derive(Debug)]
pub struct ZipFile {
    pub version_needed: u16,
    pub flags: GeneralPurposeFlag,
    pub compression: Compression,
    pub last_mod_datetime: ZipDateTime,
    pub crc32: u32,
    pub compressed_size: u64,
    pub uncompressed_size: u64,
    pub file_name: ZipPath,
    pub extra_field: Option<Vec<ExtraField>>,
    pub data: Vec<u8>,
}

impl View for ZipFile {
    type V = FileView;

    open spec fn view(&self) -> FileView {
        FileView {
            version_needed: self.version_needed,
            flags: self.flags,
            compression: self.compression,
            last_mod_datetime: self.last_mod_datetime,
            crc32: self.crc32,
            compressed_size: self.compressed_size,
            uncompressed_size: self.uncompressed_size,
            file_name: self.file_name@,
            extra_field: match &self.extra_field {
                Some(l) => Some(crate::extra_field::spec_view_fields(l@)),
                None => None,
            },
            data: self.data@,
        }
    }
}

/// What an opened archive denotes: its byte image, its ordered entries and
/// its comment.
pub struct ArchiveView {
    pub source: Seq<u8>,
    pub entries: Seq<EntryView>,
    pub comment: Option<Seq<char>>,
}

/// An opened archive: the owned byte image, the insertion-ordered entry
/// list, the hash index from entry names to positions, and the archive
/// comment. The entry table is read-only once `new` returns.
#[derive(Debug)]
pub struct ZipArchive {
    source: Vec<u8>,
    entries: Vec<ZipEntry>,
    name_index: NameIndex,
    comment: Option<String>,
}

impl View for ZipArchive {
    type V = ArchiveView;

    closed spec fn view(&self) -> ArchiveView {
        ArchiveView {
            source: self.source@,
            entries: view_entries(self.entries@),
            comment: opt_text(self.comment),
        }
    }
}

/// What opening a byte image yields: the end record found and normalized,
/// the central directory read whole and walked into the entry list.
pub open spec fn spec_open(source: Seq<u8>) -> Result<ArchiveView, ZipErrorKind> {
    match spec_cd_end(source) {
        Err(k) => Err(k),
        Ok(ce) => {
            if ce.central_directory_offset + ce.central_directory_size > source.len() {
                Err(ZipErrorKind::InvalidArchive)
            } else {
                match spec_parse_cd(
                    source.subrange(
                        ce.central_directory_offset as int,
                        ce.central_directory_offset + ce.central_directory_size,
                    ),
                ) {
                    Err(k) => Err(k),
                    Ok(entries) => Ok(ArchiveView { source, entries, comment: ce.comment }),
                }
            }
        },
    }
}

/// The file retrieved for an index: in range, the entry at that position is
/// decoded from its local header.
pub open spec fn spec_file_by_index(a: ArchiveView, i: int) -> Result<FileView, ZipErrorKind> {
    if 0 <= i < a.entries.len() {
        spec_read_local(a.source, a.entries[i])
    } else {
        Err(ZipErrorKind::InvalidArchive)
    }
}

/// The file retrieved for a name: the entry stored under that exact name is
/// decoded from its local header.
pub open spec fn spec_file_by_name(a: ArchiveView, name: Seq<char>) -> Result<
    FileView,
    ZipErrorKind,
> {
    if exists|k: int|
        0 <= k < a.entries.len() && (#[trigger] a.entries[k]).file_name.name == name {
        let k = choose|k: int|
            0 <= k < a.entries.len() && (#[trigger] a.entries[k]).file_name.name == name;
        spec_read_local(a.source, a.entries[k])
    } else {
        Err(ZipErrorKind::InvalidArchive)
    }
}

/// How an exec retrieval relates to its mathematical outcome: equal views
/// on success, the matching category on failure.
pub open spec fn file_result_matches(
    r: Result<ZipFile, ZipError>,
    s: Result<FileView, ZipErrorKind>,
) -> bool {
    match r {
        Ok(f) => s == Ok::<FileView, ZipErrorKind>(f@),
        Err(e) => s matches Err(k) && e.kind() == k,
    }
}

impl ZipArchive {
    #[verifier::type_invariant]
    closed spec fn wf(self) -> bool {
        names_indexed(view_entries(self.entries@), name_positions(self.name_index))
    }

    /// An archive opened from its byte image: the directory end is located,
    /// the central directory is walked, and the entry table is built.
    pub fn new(source: Vec<u8>) -> (r: ZipResult<ZipArchive>)
        ensures
            r matches Ok(a) ==> spec_open(source@) == Ok::<ArchiveView, ZipErrorKind>(a@)
                && names_unique(a@.entries),
            r matches Err(e) ==> spec_open(source@) matches Err(k) && e.kind() == k,
            r is Ok <==> spec_open(source@) is Ok,
    {
        let cd_end = match read_cd_end(source.as_slice()) {
            Ok(c) => c,
            Err(e) => {
                return Err(e);
            },
        };
        let len = source.len();
        let off = cd_end.central_directory_offset;
        let size = cd_end.central_directory_size;
        if off > len as u64 || size > len as u64 - off {
            return Err(
                ZipError::InvalidArchive(String::from_str("central directory out of range")),
            );
        }
        let buf = vstd::slice::slice_subrange(
            source.as_slice(),
            off as usize,
            off as usize + size as usize,
        );
        let (entries, name_index) = match parse_central_directory(buf) {
            Ok(p) => p,
            Err(e) => {
                return Err(e);
            },
        };
        proof {
            lemma_names_indexed_unique(view_entries(entries@), name_positions(name_index));
        }
        Ok(ZipArchive { source, entries, name_index, comment: cd_end.comment })
    }

    /// The file stored under exactly this name, decoded from its local
    /// header; an unknown name is rejected.
    pub fn file_by_name(&self, path: &str) -> (r: ZipResult<ZipFile>)
        ensures
            file_result_matches(r, spec_file_by_name(self@, path@)),
    {
        proof {
            use_type_invariant(self);
        }
        match index_get(&self.name_index, path) {
            None => {
                proof {
                    let vs = view_entries(self.entries@);
                    assert forall|k: int|
                        0 <= k < vs.len() implies (#[trigger] vs[k]).file_name.name != path@ by {
                        if vs[k].file_name.name == path@ {
                            assert(name_positions(self.name_index).contains_key(path@));
                        }
                    }
                }
                Err(ZipError::InvalidArchive(String::from_str("Invalid Key")))
            },
            Some(j) => {
                let n = self.entries.len();
                proof {
                    let vs = view_entries(self.entries@);
                    let m = name_positions(self.name_index);
                    assert(m.contains_key(path@));
                    assert(exists|i0: int|
                        0 <= i0 < vs.len() && (#[trigger] vs[i0]).file_name.name == path@);
                    let i0 = choose|i0: int|
                        0 <= i0 < vs.len() && (#[trigger] vs[i0]).file_name.name == path@;
                    assert(m.contains_key(vs[i0].file_name.name) && m[vs[i0].file_name.name]
                        == i0);
                    assert(m[path@] == i0);
                    assert(0 <= i0 < n);
                    assert(j as int == i0);
                    let k0 = choose|k: int|
                        0 <= k < self@.entries.len() && (#[trigger] self@.entries[k]).file_name.name
                            == path@;
                    assert(m.contains_key(vs[k0].file_name.name) && m[vs[k0].file_name.name]
                        == k0);
                    assert(k0 == i0);
                }
                read_local_file(self.source.as_slice(), &self.entries[j])
            },
        }
    }

    /// The file stored at this position of the central-directory order; an
    /// index past the end is rejected.
    pub fn file_by_index(&self, index: usize) -> (r: ZipResult<ZipFile>)
        ensures
            file_result_matches(r, spec_file_by_index(self@, index as int)),
    {
        if index >= self.entries.len() {
            return Err(ZipError::InvalidArchive(String::from_str("Invalid Index")));
        }
        read_local_file(self.source.as_slice(), &self.entries[index])
    }

    /// Every stored name, in central-directory order.
    pub fn file_names(&self) -> (r: Vec<ZipPath>)
        ensures
            r@.len() == self@.entries.len(),
            forall|i: int|
                0 <= i < r@.len() ==> (#[trigger] r@[i])@ == self@.entries[i].file_name,
    {
        let mut out: Vec<ZipPath> = Vec::new();
        let n = self.entries.len();
        let mut i: usize = 0;
        while i < n
            invariant
                i <= n,
                n == self.entries@.len(),
                out@.len() == i,
                forall|k: int|
                    0 <= k < i ==> (#[trigger] out@[k])@ == view_entries(
                        self.entries@,
                    )[k].file_name,
            decreases n - i,
        {
            out.push(self.entries[i].file_name.duplicate());
            i += 1;
        }
        out
    }

    /// How many entries the archive holds.
    pub fn len(&self) -> (r: usize)
        ensures
            r == self@.entries.len(),
    {
        self.entries.len()
    }

    /// Whether the archive holds no entry.
    pub fn is_empty(&self) -> (r: bool)
        ensures
            r == (self@.entries.len() == 0),
    {
        self.entries.len() == 0
    }

    /// The archive comment, as stored.
    pub fn comment(&self) -> (r: &Option<String>)
        ensures
            opt_text(*r) == self@.comment,
    {
        &self.comment
    }

    /// Every entry decoded from its local header, in central-directory
    /// order, each with its own outcome.
    pub fn stream(&self) -> (r: Vec<ZipResult<ZipFile>>)
        ensures
            r@.len() == self@.entries.len(),
            forall|i: int|
                0 <= i < r@.len() ==> file_result_matches(
                    #[trigger] r@[i],
                    spec_file_by_index(self@, i),
                ),
    {
        let mut out: Vec<ZipResult<ZipFile>> = Vec::new();
        let n = self.entries.len();
        let mut i: usize = 0;
        while i < n
            invariant
                i <= n,
                n == self@.entries.len(),
                out@.len() == i,
                forall|k: int|
                    0 <= k < i ==> file_result_matches(
                        #[trigger] out@[k],
                        spec_file_by_index(self@, k),
                    ),
            decreases n - i,
        {
            out.push(self.file_by_index(i));
            i += 1;
        }
        out
    }
}

/// Retrieval by a stored name and by that name's position agree: the entry
/// list's names are unique, so the name lookup lands on the same entry.
pub proof fn lemma_file_by_name_matches_index(a: ArchiveView, i: int)
    requires
        names_unique(a.entries),
        0 <= i < a.entries.len(),
    ensures
        spec_file_by_name(a, a.entries[i].file_name.name) == spec_file_by_index(a, i),
{
    let name = a.entries[i].file_name.name;
    assert(0 <= i < a.entries.len() && a.entries[i].file_name.name == name);
    let k0 = choose|k: int|
        0 <= k < a.entries.len() && (#[trigger] a.entries[k]).file_name.name == name;
    if k0 < i {
        assert(a.entries[k0].file_name.name != a.entries[i].file_name.name);
    }
    if i < k0 {
        assert(a.entries[i].file_name.name != a.entries[k0].file_name.name);
    }
}

/// A stored, unencrypted entry retrieved from an archive extracts to its
/// raw payload unchanged, and that payload's length is the compressed size
/// its local header advertised.
pub proof fn lemma_stored_extract(src: Seq<u8>, e: EntryView, f: FileView)
    requires
        spec_read_local(src, e) == Ok::<FileView, ZipErrorKind>(f),
        f.compression == Compression::Stored,
        !f.flags.encrypted,
    ensures
        spec_extract(f) == Ok::<Seq<u8>, ZipErrorKind>(f.data),
        f.data.len() == f.compressed_size,
{
}

/// What a compressed payload decodes to under a method other than
/// `Stored`, or nothing when the codec rejects it.
pub open spec fn spec_decode(m: Compression, data: Seq<u8>) -> Option<Seq<u8>> {
    match m {
        Compression::Stored => Some(data),
        Compression::Deflate => inflate_of(data),
        Compression::Deflate64 => inflate64_of(data),
        Compression::Bzip2 => bunzip_of(data),
        Compression::Lzma => unlzma_of(data),
        Compression::Zstd => unzstd_of(data),
        Compression::Xz => unxz_of(data),
    }
}

/// What extraction yields: encrypted and data-descriptor entries are
/// unsupported; a stored payload is returned unchanged; any other method
/// decodes the payload and the result is accepted only at the advertised
/// uncompressed size.
pub open spec fn spec_extract(f: FileView) -> Result<Seq<u8>, ZipErrorKind> {
    if f.flags.encrypted {
        Err(ZipErrorKind::FeatureNotSupported)
    } else if f.flags.data_descriptor {
        Err(ZipErrorKind::FeatureNotSupported)
    } else if f.compression == Compression::Stored {
        Ok(f.data)
    } else {
        match spec_decode(f.compression, f.data) {
            None => Err(ZipErrorKind::IO),
            Some(out) => if out.len() == f.uncompressed_size {
                Ok(out)
            } else {
                Err(ZipErrorKind::InvalidArchive)
            },
        }
    }
}

/// Decoded bytes accepted only at the advertised uncompressed size: a
/// mismatch rejects the archive rather than returning a wrong-sized
/// payload.
pub fn finish_extract(decoded: Vec<u8>, uncompressed_size: u64) -> (r: ZipResult<Vec<u8>>)
    ensures
        r is Ok <==> decoded@.len() == uncompressed_size,
        r matches Ok(v) ==> v@ == decoded@,
        r matches Err(e) ==> e.kind() == ZipErrorKind::InvalidArchive,
{
    if decoded.len() as u64 == uncompressed_size {
        Ok(decoded)
    } else {
        Err(ZipError::InvalidArchive(String::from_str("decompressed size mismatch")))
    }
}

impl ZipFile {
    /// The raw compressed payload.
    pub fn data(&self) -> (r: &Vec<u8>)
        ensures
            r@ == self@.data,
    {
        &self.data
    }

    /// Whether the attached attributes mark a directory.
    pub fn is_dir(&self) -> (r: bool)
        ensures
            r == match self@.file_name.metadata {
                Some(a) => a.directory,
                None => false,
            },
    {
        self.file_name.is_dir()
    }

    /// Whether the attached attributes mark a regular file.
    pub fn is_file(&self) -> (r: bool)
        ensures
            r == match self@.file_name.metadata {
                Some(a) => a.file,
                None => false,
            },
    {
        self.file_name.is_file()
    }

    /// The decompressed payload: a stored entry's bytes unchanged; any
    /// other method's payload decoded and returned exactly at the
    /// advertised uncompressed size.
    pub fn extract(self) -> (r: ZipResult<Vec<u8>>)
        ensures
            r matches Ok(v) ==> spec_extract(self@) == Ok::<Seq<u8>, ZipErrorKind>(v@),
            r matches Err(e) ==> spec_extract(self@) matches Err(k) && e.kind() == k,
            r is Ok <==> spec_extract(self@) is Ok,
            self.compression != Compression::Stored ==> (r matches Ok(v) ==> v@.len()
                == self.uncompressed_size),
            !self.flags.encrypted && !self.flags.data_descriptor && self.compression
                == Compression::Stored ==> (r matches Ok(v) && v@ == self@.data),
    {
        if self.flags.encrypted {
            return Err(ZipError::FeatureNotSupported(String::from_str("encryption")));
        }
        if self.flags.data_descriptor {
            return Err(ZipError::FeatureNotSupported(String::from_str("data descriptor")));
        }
        let hint: usize = if self.uncompressed_size <= 0x7FFFFFFF {
            self.uncompressed_size as usize
        } else {
            0
        };
        match self.compression {
            Compression::Stored => Ok(self.data),
            Compression::Deflate => match inflate(self.data.as_slice(), hint) {
                Err(e) => Err(e),
                Ok(v) => finish_extract(v, self.uncompressed_size),
            },
            Compression::Deflate64 => match inflate64(self.data.as_slice(), hint) {
                Err(e) => Err(e),
                Ok(v) => finish_extract(v, self.uncompressed_size),
            },
            Compression::Bzip2 => match bunzip(self.data.as_slice(), hint) {
                Err(e) => Err(e),
                Ok(v) => finish_extract(v, self.uncompressed_size),
            },
            Compression::Lzma => match unlzma(self.data.as_slice(), hint) {
                Err(e) => Err(e),
                Ok(v) => finish_extract(v, self.uncompressed_size),
            },
            Compression::Zstd => match unzstd(self.data.as_slice(), hint) {
                Err(e) => Err(e),
                Ok(v) => finish_extract(v, self.uncompressed_size),
            },
            Compression::Xz => match unxz(self.data.as_slice(), hint) {
                Err(e) => Err(e),
                Ok(v) => finish_extract(v, self.uncompressed_size),
            },
        }
    }
}

} // verus!
