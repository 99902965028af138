use vstd::prelude::*;
use vstd::string::StringExecFns;

use crate::error::{ZipError, ZipErrorKind, ZipResult};
use crate::wire::{le16, le32, le64, push_le16, push_le32, push_le64, read_le16, read_le32, read_le64};

verus! {

// The tagged-union metadata records appended to central-directory and local
// file headers. Three Header-IDs are understood; everything else is kept
// raw under `Unknown`.

pub const ZIP64_EXTENDED_INFO_HEADER_ID: u16 = 0x0001;

pub const UNICODE_COMMENT_HEADER_ID: u16 = 0x6375;

pub const UNICODE_PATH_HEADER_ID: u16 = 0x7075;

/// The 16-bit tag that keys an extra-field record.
#[derive(Clone, Copy, Debug, Eq, Hash, PartialEq, PartialOrd, Ord, Structural)]
pub struct HeaderId(pub u16);

/// An extra-field record whose Header-ID the reader does not interpret,
/// kept as found.
#[derive(Clone, Debug)]
pub struct UnknownExtraField {
    pub header_id: HeaderId,
    pub data_size: u16,
    pub content: Vec<u8>,
}

/// The ZIP64 extended-information record: 64-bit replacements for whichever
/// 32-bit header fields overflowed.
#[derive(Clone, Copy, Debug, Eq, PartialEq, Structural)]
pub struct Zip64ExtendedInfoExtraField {
    pub header_id: HeaderId,
    pub uncompressed_size: Option<u64>,
    pub compressed_size: Option<u64>,
    pub relative_header_offset: Option<u64>,
    pub disk_start_number: Option<u32>,
}

/// The Unicode-comment record: version 1 carries a CRC32 and UTF-8 bytes,
/// any other version is preserved raw.
#[derive(Clone, Debug)]
pub enum ZipUnicodeCommentInfoExtraField {
    V1 { crc32: u32, unicode: Vec<u8> },
    Unknown { version: u8, data: Vec<u8> },
}

/// The Unicode-path record, shaped exactly like the comment record.
#[derive(Clone, Debug)]
pub enum ZipUnicodePathInfoExtraField {
    V1 { crc32: u32, unicode: Vec<u8> },
    Unknown { version: u8, data: Vec<u8> },
}

/// One decoded extra-field record.
#[derive(Clone, Debug)]
pub enum ExtraField {
    Zip64ExtendedInfo(Zip64ExtendedInfoExtraField),
    ZipUnicodeCommentInfo(ZipUnicodeCommentInfoExtraField),
    ZipUnicodePathInfo(ZipUnicodePathInfoExtraField),
    Unknown(UnknownExtraField),
}

// ------------------------------------------------------------------
// Mathematical images of the records.

pub struct UnknownFieldView {
    pub header_id: HeaderId,
    pub data_size: u16,
    pub content: Seq<u8>,
}

pub enum UnicodeInfoView {
    V1 { crc32: u32, unicode: Seq<u8> },
    Unknown { version: u8, data: Seq<u8> },
}

pub enum ExtraFieldView {
    Zip64ExtendedInfo(Zip64ExtendedInfoExtraField),
    ZipUnicodeCommentInfo(UnicodeInfoView),
    ZipUnicodePathInfo(UnicodeInfoView),
    Unknown(UnknownFieldView),
}

impl View for UnknownExtraField {
    type V = UnknownFieldView;

    open spec fn view(&self) -> UnknownFieldView {
        UnknownFieldView { header_id: self.header_id, data_size: self.data_size, content: self.content@ }
    }
}

impl View for ZipUnicodeCommentInfoExtraField {
    type V = UnicodeInfoView;

    open spec fn view(&self) -> UnicodeInfoView {
        match self {
            ZipUnicodeCommentInfoExtraField::V1 { crc32, unicode } => UnicodeInfoView::V1 {
                crc32: *crc32,
                unicode: unicode@,
            },
            ZipUnicodeCommentInfoExtraField::Unknown { version, data } => UnicodeInfoView::Unknown {
                version: *version,
                data: data@,
            },
        }
    }
}

impl View for ZipUnicodePathInfoExtraField {
    type V = UnicodeInfoView;

    open spec fn view(&self) -> UnicodeInfoView {
        match self {
            ZipUnicodePathInfoExtraField::V1 { crc32, unicode } => UnicodeInfoView::V1 {
                crc32: *crc32,
                unicode: unicode@,
            },
            ZipUnicodePathInfoExtraField::Unknown { version, data } => UnicodeInfoView::Unknown {
                version: *version,
                data: data@,
            },
        }
    }
}

impl View for ExtraField {
    type V = ExtraFieldView;

    open spec fn view(&self) -> ExtraFieldView {
        match self {
            ExtraField::Zip64ExtendedInfo(f) => ExtraFieldView::Zip64ExtendedInfo(*f),
            ExtraField::ZipUnicodeCommentInfo(f) => ExtraFieldView::ZipUnicodeCommentInfo(f@),
            ExtraField::ZipUnicodePathInfo(f) => ExtraFieldView::ZipUnicodePathInfo(f@),
            ExtraField::Unknown(f) => ExtraFieldView::Unknown(f@),
        }
    }
}

/// The record list seen through its views.
pub open spec fn spec_view_fields(l: Seq<ExtraField>) -> Seq<ExtraFieldView> {
    l.map_values(|f: ExtraField| f@)
}

// ------------------------------------------------------------------
// Decoding.

/// The ZIP64 extended-information record read from a record body. The two
/// size fields are present only when the corresponding 32-bit header field
/// carries the overflow sentinel; the remaining fields are read from
/// whatever bytes are left, in order.
pub open spec fn spec_zip64_extended(
    header_id: HeaderId,
    data: Seq<u8>,
    uncompressed_size: u32,
    compressed_size: u32,
) -> Zip64ExtendedInfoExtraField {
    let has_unc = uncompressed_size == 0xFFFFFFFFu32 && data.len() >= 8;
    let o1: int = if has_unc { 8 } else { 0 };
    let has_comp = compressed_size == 0xFFFFFFFFu32 && data.len() >= o1 + 8;
    let o2: int = if has_comp { o1 + 8 } else { o1 };
    let has_rel = data.len() >= o2 + 8;
    let o3: int = if has_rel { o2 + 8 } else { o2 };
    let has_disk = data.len() >= o3 + 4;
    Zip64ExtendedInfoExtraField {
        header_id,
        uncompressed_size: if has_unc { Some(le64(data, 0)) } else { None },
        compressed_size: if has_comp { Some(le64(data, o1)) } else { None },
        relative_header_offset: if has_rel { Some(le64(data, o2)) } else { None },
        disk_start_number: if has_disk { Some(le32(data, o3)) } else { None },
    }
}

/// A Unicode record read from a record body: the leading version byte
/// decides the shape, and a body too short for its version, or a stored
/// size that does not fit the body, is incomplete.
pub open spec fn spec_unicode_info(data: Seq<u8>, data_size: u16, err: ZipErrorKind) -> Result<
    UnicodeInfoView,
    ZipErrorKind,
> {
    if data.len() == 0 {
        Err(err)
    } else {
        let version = data[0];
        if version == 1 {
            if data.len() < 5 || data_size < 5 || data_size > data.len() {
                Err(err)
            } else {
                Ok(UnicodeInfoView::V1 { crc32: le32(data, 1), unicode: data.subrange(5, data_size as int) })
            }
        } else {
            if data_size < 1 || data_size > data.len() {
                Err(err)
            } else {
                Ok(UnicodeInfoView::Unknown { version, data: data.subrange(1, data_size as int) })
            }
        }
    }
}

/// One extra-field record decoded from its Header-ID, stored size and body.
pub open spec fn spec_extra_field(
    header_id: u16,
    data_size: u16,
    data: Seq<u8>,
    uncompressed_size: u32,
    compressed_size: u32,
) -> Result<ExtraFieldView, ZipErrorKind> {
    if header_id == ZIP64_EXTENDED_INFO_HEADER_ID {
        Ok(
            ExtraFieldView::Zip64ExtendedInfo(
                spec_zip64_extended(HeaderId(header_id), data, uncompressed_size, compressed_size),
            ),
        )
    } else if header_id == UNICODE_COMMENT_HEADER_ID {
        match spec_unicode_info(data, data_size, ZipErrorKind::ZipUnicodeCommentExtraFieldInfoIncomplete) {
            Ok(u) => Ok(ExtraFieldView::ZipUnicodeCommentInfo(u)),
            Err(k) => Err(k),
        }
    } else if header_id == UNICODE_PATH_HEADER_ID {
        match spec_unicode_info(data, data_size, ZipErrorKind::ZipUnicodePathInfoExtraFieldIncomplete) {
            Ok(u) => Ok(ExtraFieldView::ZipUnicodePathInfo(u)),
            Err(k) => Err(k),
        }
    } else {
        Ok(
            ExtraFieldView::Unknown(
                UnknownFieldView { header_id: HeaderId(header_id), data_size, content: data },
            ),
        )
    }
}

/// A whole extra-field region decoded record by record: each record is a
/// Header-ID, a stored size and that many body bytes; a record that
/// overruns the region rejects the region.
pub open spec fn spec_extra_fields(
    data: Seq<u8>,
    uncompressed_size: u32,
    compressed_size: u32,
) -> Result<Seq<ExtraFieldView>, ZipErrorKind>
    decreases data.len(),
{
    if data.len() == 0 {
        Ok(Seq::empty())
    } else if data.len() < 4 {
        Err(ZipErrorKind::InvalidArchive)
    } else {
        let id = le16(data, 0);
        let size = le16(data, 2);
        if 4 + size > data.len() {
            Err(ZipErrorKind::InvalidArchive)
        } else {
            match spec_extra_field(
                id,
                size,
                data.subrange(4, 4 + size as int),
                uncompressed_size,
                compressed_size,
            ) {
                Err(k) => Err(k),
                Ok(f) => match spec_extra_fields(
                    data.skip(4 + size as int),
                    uncompressed_size,
                    compressed_size,
                ) {
                    Err(k) => Err(k),
                    Ok(rest) => Ok(seq![f] + rest),
                },
            }
        }
    }
}

// ------------------------------------------------------------------
// Encoding.

/// The byte count of the optional fields a ZIP64 record carries.
pub open spec fn spec_zip64_content_size(f: Zip64ExtendedInfoExtraField) -> int {
    (if f.uncompressed_size is Some { 8int } else { 0int })
        + (if f.compressed_size is Some { 8int } else { 0int })
        + (if f.relative_header_offset is Some { 8int } else { 0int })
        + (if f.disk_start_number is Some { 4int } else { 0int })
}

pub open spec fn spec_encode_zip64(f: Zip64ExtendedInfoExtraField) -> Seq<u8> {
    crate::wire::le16_bytes(f.header_id.0) + crate::wire::le16_bytes(
        spec_zip64_content_size(f) as u16,
    ) + (match f.uncompressed_size {
        Some(v) => crate::wire::le64_bytes(v),
        None => Seq::empty(),
    }) + (match f.compressed_size {
        Some(v) => crate::wire::le64_bytes(v),
        None => Seq::empty(),
    }) + (match f.relative_header_offset {
        Some(v) => crate::wire::le64_bytes(v),
        None => Seq::empty(),
    }) + (match f.disk_start_number {
        Some(v) => crate::wire::le32_bytes(v),
        None => Seq::empty(),
    })
}

pub open spec fn spec_encode_unicode(header_id: u16, u: UnicodeInfoView) -> Seq<u8> {
    match u {
        UnicodeInfoView::V1 { crc32, unicode } => crate::wire::le16_bytes(header_id)
            + crate::wire::le16_bytes((5 + unicode.len()) as u16) + seq![1u8]
            + crate::wire::le32_bytes(crc32) + unicode,
        UnicodeInfoView::Unknown { version, data } => crate::wire::le16_bytes(header_id)
            + crate::wire::le16_bytes((1 + data.len()) as u16) + seq![version] + data,
    }
}

pub open spec fn spec_encode_unknown(u: UnknownFieldView) -> Seq<u8> {
    crate::wire::le16_bytes(u.header_id.0) + crate::wire::le16_bytes(u.data_size) + u.content
}

/// One record written back to bytes.
pub open spec fn spec_encode_field(f: ExtraFieldView) -> Seq<u8> {
    match f {
        ExtraFieldView::Zip64ExtendedInfo(z) => spec_encode_zip64(z),
        ExtraFieldView::ZipUnicodeCommentInfo(u) => spec_encode_unicode(UNICODE_COMMENT_HEADER_ID, u),
        ExtraFieldView::ZipUnicodePathInfo(u) => spec_encode_unicode(UNICODE_PATH_HEADER_ID, u),
        ExtraFieldView::Unknown(u) => spec_encode_unknown(u),
    }
}

/// A record list written back to bytes, in order.
pub open spec fn spec_encode_list(l: Seq<ExtraFieldView>) -> Seq<u8>
    decreases l.len(),
{
    if l.len() == 0 {
        Seq::empty()
    } else {
        spec_encode_field(l[0]) + spec_encode_list(l.drop_first())
    }
}

/// Writing records back to bytes, and the byte count of that image.
pub trait ExtraFieldAsBytes {
    /// The byte image this value writes.
    spec fn encoded(&self) -> Seq<u8>;

    /// The value's variable parts fit the 16-bit stored sizes of the wire
    /// format (and, for a list, a 64-bit total).
    spec fn encodable(&self) -> bool;

    /// The byte image of this value.
    fn as_bytes(&self) -> (r: Vec<u8>)
        requires
            self.encodable(),
        ensures
            r@ == self.encoded(),
    ;

    /// How many bytes `as_bytes` writes.
    fn count_bytes(&self) -> (r: u64)
        requires
            self.encodable(),
        ensures
            r == self.encoded().len(),
    ;
}

impl ExtraFieldAsBytes for UnknownExtraField {
    open spec fn encoded(&self) -> Seq<u8> {
        spec_encode_unknown(self@)
    }

    open spec fn encodable(&self) -> bool {
        self.content@.len() + 4 <= u64::MAX
    }

    fn as_bytes(&self) -> (r: Vec<u8>) {
        let mut out: Vec<u8> = Vec::new();
        push_le16(&mut out, self.header_id.0);
        push_le16(&mut out, self.data_size);
        let mut i: usize = 0;
        while i < self.content.len()
            invariant
                i <= self.content@.len(),
                out@ == crate::wire::le16_bytes(self.header_id.0) + crate::wire::le16_bytes(
                    self.data_size,
                ) + self.content@.take(i as int),
            decreases self.content@.len() - i,
        {
            out.push(self.content[i]);
            proof {
                assert(self.content@.take(i + 1) =~= self.content@.take(i as int).push(
                    self.content@[i as int],
                ));
            }
            i += 1;
        }
        proof {
            assert(self.content@.take(self.content@.len() as int) =~= self.content@);
        }
        out
    }

    fn count_bytes(&self) -> (r: u64) {
        4 + self.content.len() as u64
    }
}

impl ExtraFieldAsBytes for Zip64ExtendedInfoExtraField {
    open spec fn encoded(&self) -> Seq<u8> {
        spec_encode_zip64(*self)
    }

    open spec fn encodable(&self) -> bool {
        true
    }

    fn as_bytes(&self) -> (r: Vec<u8>) {
        let mut out: Vec<u8> = Vec::new();
        push_le16(&mut out, self.header_id.0);
        push_le16(&mut out, self.content_size() as u16);
        if let Some(v) = self.uncompressed_size {
            push_le64(&mut out, v);
        }
        if let Some(v) = self.compressed_size {
            push_le64(&mut out, v);
        }
        if let Some(v) = self.relative_header_offset {
            push_le64(&mut out, v);
        }
        if let Some(v) = self.disk_start_number {
            push_le32(&mut out, v);
        }
        proof {
            assert(out@ =~= spec_encode_zip64(*self));
        }
        out
    }

    fn count_bytes(&self) -> (r: u64) {
        4 + self.content_size()
    }
}

impl ExtraFieldAsBytes for ZipUnicodeCommentInfoExtraField {
    open spec fn encoded(&self) -> Seq<u8> {
        spec_encode_unicode(UNICODE_COMMENT_HEADER_ID, self@)
    }

    open spec fn encodable(&self) -> bool {
        match self@ {
            UnicodeInfoView::V1 { unicode, .. } => unicode.len() <= 0xFFFF - 5,
            UnicodeInfoView::Unknown { data, .. } => data.len() <= 0xFFFF - 1,
        }
    }

    fn as_bytes(&self) -> (r: Vec<u8>) {
        unicode_as_bytes_common(UNICODE_COMMENT_HEADER_ID, self)
    }

    fn count_bytes(&self) -> (r: u64) {
        match self {
            ZipUnicodeCommentInfoExtraField::V1 { unicode, .. } => 9 + unicode.len() as u64,
            ZipUnicodeCommentInfoExtraField::Unknown { data, .. } => 5 + data.len() as u64,
        }
    }
}

impl ExtraFieldAsBytes for ZipUnicodePathInfoExtraField {
    open spec fn encoded(&self) -> Seq<u8> {
        spec_encode_unicode(UNICODE_PATH_HEADER_ID, self@)
    }

    open spec fn encodable(&self) -> bool {
        match self@ {
            UnicodeInfoView::V1 { unicode, .. } => unicode.len() <= 0xFFFF - 5,
            UnicodeInfoView::Unknown { data, .. } => data.len() <= 0xFFFF - 1,
        }
    }

    fn as_bytes(&self) -> (r: Vec<u8>) {
        let mut out: Vec<u8> = Vec::new();
        push_le16(&mut out, UNICODE_PATH_HEADER_ID);
        match self {
            ZipUnicodePathInfoExtraField::V1 { crc32, unicode } => {
                push_le16(&mut out, 5 + unicode.len() as u16);
                out.push(1);
                push_le32(&mut out, *crc32);
                push_all(&mut out, unicode);
            },
            ZipUnicodePathInfoExtraField::Unknown { version, data } => {
                push_le16(&mut out, 1 + data.len() as u16);
                out.push(*version);
                push_all(&mut out, data);
            },
        }
        proof {
            assert(out@ =~= spec_encode_unicode(UNICODE_PATH_HEADER_ID, self@));
        }
        out
    }

    fn count_bytes(&self) -> (r: u64) {
        match self {
            ZipUnicodePathInfoExtraField::V1 { unicode, .. } => 9 + unicode.len() as u64,
            ZipUnicodePathInfoExtraField::Unknown { data, .. } => 5 + data.len() as u64,
        }
    }
}

/// The comment record written with the given Header-ID; shared shape with
/// the path record.
fn unicode_as_bytes_common(header_id: u16, f: &ZipUnicodeCommentInfoExtraField) -> (r: Vec<u8>)
    requires
        f.encodable(),
    ensures
        r@ == spec_encode_unicode(header_id, f@),
{
    let mut out: Vec<u8> = Vec::new();
    push_le16(&mut out, header_id);
    match f {
        ZipUnicodeCommentInfoExtraField::V1 { crc32, unicode } => {
            push_le16(&mut out, 5 + unicode.len() as u16);
            out.push(1);
            push_le32(&mut out, *crc32);
            push_all(&mut out, unicode);
        },
        ZipUnicodeCommentInfoExtraField::Unknown { version, data } => {
            push_le16(&mut out, 1 + data.len() as u16);
            out.push(*version);
            push_all(&mut out, data);
        },
    }
    proof {
        assert(out@ =~= spec_encode_unicode(header_id, f@));
    }
    out
}

/// Every byte of `data` appended to `out`, in order.
fn push_all(out: &mut Vec<u8>, data: &Vec<u8>)
    ensures
        final(out)@ == old(out)@ + data@,
{
    let mut i: usize = 0;
    while i < data.len()
        invariant
            i <= data@.len(),
            out@ == old(out)@ + data@.take(i as int),
        decreases data@.len() - i,
    {
        out.push(data[i]);
        proof {
            assert(data@.take(i + 1) =~= data@.take(i as int).push(data@[i as int]));
        }
        i += 1;
    }
    proof {
        assert(data@.take(data@.len() as int) =~= data@);
    }
}

impl ExtraFieldAsBytes for ExtraField {
    open spec fn encoded(&self) -> Seq<u8> {
        spec_encode_field(self@)
    }

    open spec fn encodable(&self) -> bool {
        match self {
            ExtraField::Zip64ExtendedInfo(f) => f.encodable(),
            ExtraField::ZipUnicodeCommentInfo(f) => f.encodable(),
            ExtraField::ZipUnicodePathInfo(f) => f.encodable(),
            ExtraField::Unknown(f) => f.encodable(),
        }
    }

    fn as_bytes(&self) -> (r: Vec<u8>) {
        match self {
            ExtraField::Zip64ExtendedInfo(f) => f.as_bytes(),
            ExtraField::ZipUnicodeCommentInfo(f) => f.as_bytes(),
            ExtraField::ZipUnicodePathInfo(f) => f.as_bytes(),
            ExtraField::Unknown(f) => f.as_bytes(),
        }
    }

    fn count_bytes(&self) -> (r: u64) {
        match self {
            ExtraField::Zip64ExtendedInfo(f) => f.count_bytes(),
            ExtraField::ZipUnicodeCommentInfo(f) => f.count_bytes(),
            ExtraField::ZipUnicodePathInfo(f) => f.count_bytes(),
            ExtraField::Unknown(f) => f.count_bytes(),
        }
    }
}

/// Splitting an encoded list after its head record.
proof fn lemma_encode_list_step(l: Seq<ExtraFieldView>, i: int)
    requires
        0 <= i < l.len(),
    ensures
        spec_encode_list(l.skip(i)) == spec_encode_field(l[i]) + spec_encode_list(l.skip(i + 1)),
{
    assert(l.skip(i).len() > 0);
    assert(l.skip(i)[0] == l[i]);
    assert(l.skip(i).drop_first() =~= l.skip(i + 1));
}

impl ExtraFieldAsBytes for Vec<ExtraField> {
    open spec fn encoded(&self) -> Seq<u8> {
        spec_encode_list(spec_view_fields(self@))
    }

    open spec fn encodable(&self) -> bool {
        &&& forall|i: int| 0 <= i < self@.len() ==> (#[trigger] self@[i]).encodable()
        &&& spec_encode_list(spec_view_fields(self@)).len() <= u64::MAX
    }

    fn as_bytes(&self) -> (r: Vec<u8>) {
        let ghost vl = spec_view_fields(self@);
        let mut out: Vec<u8> = Vec::new();
        let mut i: usize = 0;
        proof {
            assert(vl.skip(0) =~= vl);
        }
        while i < self.len()
            invariant
                i <= self@.len(),
                vl == spec_view_fields(self@),
                forall|k: int| 0 <= k < self@.len() ==> (#[trigger] self@[k]).encodable(),
                spec_encode_list(vl) == out@ + spec_encode_list(vl.skip(i as int)),
            decreases self@.len() - i,
        {
            let piece = self[i].as_bytes();
            proof {
                lemma_encode_list_step(vl, i as int);
                assert(vl[i as int] == self@[i as int]@);
            }
            push_all(&mut out, &piece);
            i += 1;
        }
        proof {
            assert(vl.skip(vl.len() as int) =~= Seq::<ExtraFieldView>::empty());
            assert(out@ + Seq::<u8>::empty() =~= out@);
        }
        out
    }

    fn count_bytes(&self) -> (r: u64) {
        let ghost vl = spec_view_fields(self@);
        let mut total: u64 = 0;
        let mut i: usize = 0;
        proof {
            assert(vl.skip(0) =~= vl);
        }
        while i < self.len()
            invariant
                i <= self@.len(),
                vl == spec_view_fields(self@),
                forall|k: int| 0 <= k < self@.len() ==> (#[trigger] self@[k]).encodable(),
                spec_encode_list(vl).len() <= u64::MAX,
                total + spec_encode_list(vl.skip(i as int)).len() == spec_encode_list(vl).len(),
            decreases self@.len() - i,
        {
            proof {
                lemma_encode_list_step(vl, i as int);
                assert(vl[i as int] == self@[i as int]@);
            }
            let piece = self[i].count_bytes();
            total = total + piece;
            i += 1;
        }
        proof {
            assert(vl.skip(vl.len() as int) =~= Seq::<ExtraFieldView>::empty());
        }
        total
    }
}

// ------------------------------------------------------------------
// The decoders.

impl Zip64ExtendedInfoExtraField {
    /// An empty ZIP64 record carrying no optional fields yet.
    pub fn new() -> (r: Zip64ExtendedInfoExtraField)
        ensures
            r == (Zip64ExtendedInfoExtraField {
                header_id: HeaderId(ZIP64_EXTENDED_INFO_HEADER_ID),
                uncompressed_size: None,
                compressed_size: None,
                relative_header_offset: None,
                disk_start_number: None,
            }),
    {
        Zip64ExtendedInfoExtraField {
            header_id: HeaderId(ZIP64_EXTENDED_INFO_HEADER_ID),
            uncompressed_size: None,
            compressed_size: None,
            relative_header_offset: None,
            disk_start_number: None,
        }
    }

    /// Both sizes set at once.
    pub fn sizes(&mut self, compressed_size: u64, uncompressed_size: u64)
        ensures
            *final(self) == (Zip64ExtendedInfoExtraField {
                compressed_size: Some(compressed_size),
                uncompressed_size: Some(uncompressed_size),
                ..*old(self)
            }),
    {
        self.compressed_size = Some(compressed_size);
        self.uncompressed_size = Some(uncompressed_size);
    }

    /// The byte count of the optional fields this record carries.
    pub fn content_size(&self) -> (r: u64)
        ensures
            r == spec_zip64_content_size(*self),
    {
        (if self.uncompressed_size.is_some() { 8 } else { 0 }) + (if self.compressed_size.is_some() {
            8u64
        } else {
            0
        }) + (if self.relative_header_offset.is_some() { 8 } else { 0 }) + (
        if self.disk_start_number.is_some() { 4 } else { 0 })
    }

    /// The record decoded from its body bytes, guided by which 32-bit
    /// header fields carry the overflow sentinel.
    pub fn from_bytes(
        header_id: HeaderId,
        data: &[u8],
        uncompressed_size: u32,
        compressed_size: u32,
    ) -> (r: ZipResult<Zip64ExtendedInfoExtraField>)
        ensures
            r matches Ok(f) && f == spec_zip64_extended(
                header_id,
                data@,
                uncompressed_size,
                compressed_size,
            ),
    {
        let mut current_index: usize = 0;
        let unc = if uncompressed_size == 0xFFFFFFFF && data.len() >= 8 {
            let v = read_le64(data, 0);
            current_index = 8;
            Some(v)
        } else {
            None
        };
        let comp = if compressed_size == 0xFFFFFFFF && data.len() >= current_index + 8 {
            let v = read_le64(data, current_index);
            current_index = current_index + 8;
            Some(v)
        } else {
            None
        };
        let rel = if data.len() >= current_index + 8 {
            let v = read_le64(data, current_index);
            current_index = current_index + 8;
            Some(v)
        } else {
            None
        };
        let disk = if data.len() >= current_index + 4 {
            Some(read_le32(data, current_index))
        } else {
            None
        };
        Ok(Zip64ExtendedInfoExtraField {
            header_id,
            uncompressed_size: unc,
            compressed_size: comp,
            relative_header_offset: rel,
            disk_start_number: disk,
        })
    }
}

impl ZipUnicodeCommentInfoExtraField {
    /// The comment record decoded from its body bytes.
    pub fn from_bytes(_header_id: HeaderId, data_size: u16, data: &[u8]) -> (r: ZipResult<
        ZipUnicodeCommentInfoExtraField,
    >)
        ensures
            r matches Ok(f) ==> spec_unicode_info(
                data@,
                data_size,
                ZipErrorKind::ZipUnicodeCommentExtraFieldInfoIncomplete,
            ) == Ok::<_, ZipErrorKind>(f@),
            r matches Err(e) ==> spec_unicode_info(
                data@,
                data_size,
                ZipErrorKind::ZipUnicodeCommentExtraFieldInfoIncomplete,
            ) is Err && e.kind() == ZipErrorKind::ZipUnicodeCommentExtraFieldInfoIncomplete,
            r is Ok <==> spec_unicode_info(
                data@,
                data_size,
                ZipErrorKind::ZipUnicodeCommentExtraFieldInfoIncomplete,
            ) is Ok,
    {
        match unicode_info_from_bytes(data_size, data) {
            Ok(UnicodeInfoParts::V1 { crc32, unicode }) => Ok(
                ZipUnicodeCommentInfoExtraField::V1 { crc32, unicode },
            ),
            Ok(UnicodeInfoParts::Unknown { version, data }) => Ok(
                ZipUnicodeCommentInfoExtraField::Unknown { version, data },
            ),
            Err(()) => Err(ZipError::ZipUnicodeCommentExtraFieldInfoIncomplete),
        }
    }
}

impl ZipUnicodePathInfoExtraField {
    /// The path record decoded from its body bytes.
    pub fn from_bytes(_header_id: HeaderId, data_size: u16, data: &[u8]) -> (r: ZipResult<
        ZipUnicodePathInfoExtraField,
    >)
        ensures
            r matches Ok(f) ==> spec_unicode_info(
                data@,
                data_size,
                ZipErrorKind::ZipUnicodePathInfoExtraFieldIncomplete,
            ) == Ok::<_, ZipErrorKind>(f@),
            r matches Err(e) ==> spec_unicode_info(
                data@,
                data_size,
                ZipErrorKind::ZipUnicodePathInfoExtraFieldIncomplete,
            ) is Err && e.kind() == ZipErrorKind::ZipUnicodePathInfoExtraFieldIncomplete,
            r is Ok <==> spec_unicode_info(
                data@,
                data_size,
                ZipErrorKind::ZipUnicodePathInfoExtraFieldIncomplete,
            ) is Ok,
    {
        match unicode_info_from_bytes(data_size, data) {
            Ok(UnicodeInfoParts::V1 { crc32, unicode }) => Ok(
                ZipUnicodePathInfoExtraField::V1 { crc32, unicode },
            ),
            Ok(UnicodeInfoParts::Unknown { version, data }) => Ok(
                ZipUnicodePathInfoExtraField::Unknown { version, data },
            ),
            Err(()) => Err(ZipError::ZipUnicodePathInfoExtraFieldIncomplete),
        }
    }
}

/// The shape shared by the two Unicode records.
enum UnicodeInfoParts {
    V1 { crc32: u32, unicode: Vec<u8> },
    Unknown { version: u8, data: Vec<u8> },
}

impl UnicodeInfoParts {
    spec fn view_parts(&self) -> UnicodeInfoView {
        match self {
            UnicodeInfoParts::V1 { crc32, unicode } => UnicodeInfoView::V1 {
                crc32: *crc32,
                unicode: unicode@,
            },
            UnicodeInfoParts::Unknown { version, data } => UnicodeInfoView::Unknown {
                version: *version,
                data: data@,
            },
        }
    }
}

/// The version-keyed decode shared by the comment and path records.
fn unicode_info_from_bytes(data_size: u16, data: &[u8]) -> (r: Result<UnicodeInfoParts, ()>)
    ensures
        forall|err: ZipErrorKind|
            #![trigger spec_unicode_info(data@, data_size, err)]
            match r {
                Ok(p) => spec_unicode_info(data@, data_size, err) == Ok::<_, ZipErrorKind>(
                    p.view_parts(),
                ),
                Err(()) => spec_unicode_info(data@, data_size, err) == Err::<UnicodeInfoView, _>(err),
            },
{
    if data.len() == 0 {
        return Err(());
    }
    let version = data[0];
    if version == 1 {
        if data.len() < 5 || data_size < 5 || data_size as usize > data.len() {
            return Err(());
        }
        let crc32 = read_le32(data, 1);
        let unicode = vstd::slice::slice_to_vec(
            vstd::slice::slice_subrange(data, 5, data_size as usize),
        );
        Ok(UnicodeInfoParts::V1 { crc32, unicode })
    } else {
        if data_size < 1 || data_size as usize > data.len() {
            return Err(());
        }
        let body = vstd::slice::slice_to_vec(
            vstd::slice::slice_subrange(data, 1, data_size as usize),
        );
        Ok(UnicodeInfoParts::Unknown { version, data: body })
    }
}

impl ExtraField {
    /// One record decoded by its Header-ID: the three understood IDs get
    /// their shapes, everything else is kept raw.
    pub fn from_bytes(
        header_id: HeaderId,
        data_size: u16,
        data: &[u8],
        uncompressed_size: u32,
        compressed_size: u32,
    ) -> (r: ZipResult<ExtraField>)
        ensures
            r matches Ok(f) ==> spec_extra_field(
                header_id.0,
                data_size,
                data@,
                uncompressed_size,
                compressed_size,
            ) == Ok::<_, ZipErrorKind>(f@),
            r matches Err(e) ==> spec_extra_field(
                header_id.0,
                data_size,
                data@,
                uncompressed_size,
                compressed_size,
            ) matches Err(k) && e.kind() == k,
            r is Ok <==> spec_extra_field(
                header_id.0,
                data_size,
                data@,
                uncompressed_size,
                compressed_size,
            ) is Ok,
    {
        if header_id.0 == ZIP64_EXTENDED_INFO_HEADER_ID {
            match Zip64ExtendedInfoExtraField::from_bytes(
                header_id,
                data,
                uncompressed_size,
                compressed_size,
            ) {
                Ok(f) => Ok(ExtraField::Zip64ExtendedInfo(f)),
                Err(e) => Err(e),
            }
        } else if header_id.0 == UNICODE_COMMENT_HEADER_ID {
            match ZipUnicodeCommentInfoExtraField::from_bytes(header_id, data_size, data) {
                Ok(f) => Ok(ExtraField::ZipUnicodeCommentInfo(f)),
                Err(e) => Err(e),
            }
        } else if header_id.0 == UNICODE_PATH_HEADER_ID {
            match ZipUnicodePathInfoExtraField::from_bytes(header_id, data_size, data) {
                Ok(f) => Ok(ExtraField::ZipUnicodePathInfo(f)),
                Err(e) => Err(e),
            }
        } else {
            let content = vstd::slice::slice_to_vec(
                vstd::slice::slice_subrange(data, 0, data.len()),
            );
            proof {
                assert(data@.subrange(0, data@.len() as int) =~= data@);
            }
            Ok(ExtraField::Unknown(UnknownExtraField { header_id, data_size, content }))
        }
    }
}

/// A whole extra-field region decoded record by record.
pub fn parse_extra_fields(data: &[u8], uncompressed_size: u32, compressed_size: u32) -> (r:
    ZipResult<Vec<ExtraField>>)
    ensures
        r matches Ok(l) ==> spec_extra_fields(data@, uncompressed_size, compressed_size)
            == Ok::<_, ZipErrorKind>(spec_view_fields(l@)),
        r matches Err(e) ==> spec_extra_fields(data@, uncompressed_size, compressed_size) matches Err(
            k,
        ) && e.kind() == k,
        r is Ok <==> spec_extra_fields(data@, uncompressed_size, compressed_size) is Ok,
{
    let n = data.len();
    let mut out: Vec<ExtraField> = Vec::new();
    let mut pos: usize = 0;
    proof {
        assert(data@.skip(0) =~= data@);
        assert(spec_view_fields(out@) =~= Seq::<ExtraFieldView>::empty());
    }
    while pos < n
        invariant
            pos <= n,
            n == data@.len(),
            spec_extra_fields(data@, uncompressed_size, compressed_size) == (match spec_extra_fields(
                data@.skip(pos as int),
                uncompressed_size,
                compressed_size,
            ) {
                Ok(rest) => Ok::<Seq<ExtraFieldView>, ZipErrorKind>(spec_view_fields(out@) + rest),
                Err(k) => Err(k),
            }),
        decreases n - pos,
    {
        let remaining = n - pos;
        if remaining < 4 {
            return Err(ZipError::InvalidArchive(String::from_str("extra field record truncated")));
        }
        let id = read_le16(data, pos);
        let size = read_le16(data, pos + 2);
        if size as usize > remaining - 4 {
            proof {
                assert(data@.skip(pos as int).len() == remaining);
                assert(le16(data@.skip(pos as int), 2) == le16(data@, pos + 2));
            }
            return Err(ZipError::InvalidArchive(String::from_str("extra field record overruns")));
        }
        let body = vstd::slice::slice_subrange(data, pos + 4, pos + 4 + size as usize);
        proof {
            let tail = data@.skip(pos as int);
            assert(le16(tail, 0) == le16(data@, pos as int));
            assert(le16(tail, 2) == le16(data@, pos + 2));
            assert(tail.subrange(4, 4 + size as int) =~= data@.subrange(
                pos + 4,
                pos + 4 + size as int,
            ));
        }
        match ExtraField::from_bytes(HeaderId(id), size, body, uncompressed_size, compressed_size) {
            Err(e) => {
                return Err(e);
            },
            Ok(f) => {
                proof {
                    let tail = data@.skip(pos as int);
                    assert(tail.skip(4 + size as int) =~= data@.skip(pos + 4 + size as int));
                    assert(spec_view_fields(out@.push(f)) =~= spec_view_fields(out@).push(f@));
                    let suffix = spec_extra_fields(
                        data@.skip(pos + 4 + size as int),
                        uncompressed_size,
                        compressed_size,
                    );
                    if suffix is Ok {
                        let rest = suffix.unwrap();
                        assert(spec_view_fields(out@) + (seq![f@] + rest) =~= spec_view_fields(
                            out@,
                        ).push(f@) + rest);
                    }
                }
                out.push(f);
                pos = pos + 4 + size as usize;
            },
        }
    }
    proof {
        assert(data@.skip(n as int) =~= Seq::<u8>::empty());
        assert(spec_view_fields(out@) + Seq::<ExtraFieldView>::empty() =~= spec_view_fields(out@));
    }
    Ok(out)
}

} // verus!
