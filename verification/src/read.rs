use vstd::prelude::*;
use vstd::string::StringExecFns;

use crate::compression::{spec_compression, Compression};
use crate::datetime::spec_datetime;
use crate::entry_map::{index_get, index_insert, index_new, name_positions, NameIndex};
use crate::error::{ZipError, ZipErrorKind, ZipResult};
use crate::extra_field::{ExtraFieldView, Zip64ExtendedInfoExtraField};
use crate::path::{spec_sanitize, PathView};
use crate::records::{
    spec_flags, spec_zip32_end, spec_zip64_end, spec_zip64_locator, CdEndView, EntryView,
    GeneralPurposeFlag, Zip32CentralDirectoryEndRecord, Zip64CentralDirectoryEndLocator,
    Zip64CentralDirectoryEndRecord, ZipCentralDirectoryEndRecord, ZipEntry,
    CD_ENTRY_SIGNATURE, EOCDR32_SIGNATURE, EOCDR64_LOCATOR_SIGNATURE, EOCDR64_SIGNATURE,
    LOCAL_FILE_SIGNATURE,
};
use crate::search::{rsearch, search_all, spec_rsearch, spec_search_all};
use crate::text::{bytes_to_string_lossy, utf8_lossy};
use crate::wire::{le16, le32, le32_bytes, push_le32, read_le16, read_le32};

verus! {

// End-of-archive discovery, the central-directory walk and the local-header
// reader, all over the archive's byte image.

/// The longest tail that can hold the ZIP32 end record: its signature, its
/// fixed body and the largest possible comment.
pub const EOCDR32_MAX_SPAN: usize = 65557;

/// Where the bounded tail window starts.
pub open spec fn tail_start(len: int) -> int {
    if len >= 65557 {
        len - 65557
    } else {
        0
    }
}

/// The text of an optional comment.
pub open spec fn opt_text(o: Option<String>) -> Option<Seq<char>> {
    match o {
        Some(s) => Some(s@),
        None => None,
    }
}

/// The ZIP32 fields widened into the normalized record.
pub open spec fn spec_promote32(
    rec: Zip32CentralDirectoryEndRecord,
    comment: Option<Seq<char>>,
) -> CdEndView {
    CdEndView {
        version_made_by: None,
        version_needed: None,
        disk_number: rec.disk_number as u32,
        central_directory_start_disk: rec.central_directory_start_disk as u32,
        number_of_entries_in_disk: rec.number_of_entries_in_disk as u64,
        number_of_entries: rec.number_of_entries as u64,
        central_directory_size: rec.central_directory_size as u64,
        central_directory_offset: rec.central_directory_offset as u64,
        comment,
    }
}

/// The ZIP64 fields taken into the normalized record.
pub open spec fn spec_promote64(
    rec: Zip64CentralDirectoryEndRecord,
    comment: Option<Seq<char>>,
) -> CdEndView {
    CdEndView {
        version_made_by: Some(rec.version_made_by),
        version_needed: Some(rec.version_needed),
        disk_number: rec.disk_number,
        central_directory_start_disk: rec.central_directory_start_disk,
        number_of_entries_in_disk: rec.number_of_entries_in_disk,
        number_of_entries: rec.number_of_entries,
        central_directory_size: rec.central_directory_size,
        central_directory_offset: rec.central_directory_offset,
        comment,
    }
}

/// The ZIP64 resolution, tried in order: a direct end record in the tail
/// before the ZIP32 signature; a locator found there and followed; a
/// locator assumed at the 20-byte slot right before the ZIP32 signature,
/// checked and followed.
pub open spec fn spec_cd_end_zip64(
    source: Seq<u8>,
    tail: Seq<u8>,
    idx32: int,
    comment: Option<Seq<char>>,
) -> Result<CdEndView, ZipErrorKind> {
    let head = tail.subrange(0, idx32);
    match spec_rsearch(head, le32_bytes(EOCDR64_SIGNATURE)) {
        Some(i64p) => {
            if i64p + 56 > tail.len() {
                Err(ZipErrorKind::InvalidArchive)
            } else {
                Ok(spec_promote64(spec_zip64_end(tail, i64p + 4), comment))
            }
        },
        None => match spec_rsearch(head, le32_bytes(EOCDR64_LOCATOR_SIGNATURE)) {
            Some(lidx) => {
                let loc = spec_zip64_locator(tail, lidx + 4);
                if loc.relative_offset + 56 > source.len() {
                    Err(ZipErrorKind::InvalidArchive)
                } else {
                    Ok(spec_promote64(spec_zip64_end(source, loc.relative_offset + 4), comment))
                }
            },
            None => {
                if idx32 < 20 {
                    Err(ZipErrorKind::SignatureNotFound)
                } else {
                    let lpos = idx32 - 20;
                    if le32(tail, lpos) != EOCDR64_LOCATOR_SIGNATURE {
                        Err(ZipErrorKind::SignatureNotFound)
                    } else {
                        let loc = spec_zip64_locator(tail, lpos + 4);
                        if loc.relative_offset + 4 > source.len() {
                            Err(ZipErrorKind::InvalidArchive)
                        } else if le32(source, loc.relative_offset as int) != EOCDR64_SIGNATURE {
                            Err(ZipErrorKind::SignatureNotFound)
                        } else if loc.relative_offset + 56 > source.len() {
                            Err(ZipErrorKind::InvalidArchive)
                        } else {
                            Ok(
                                spec_promote64(
                                    spec_zip64_end(source, loc.relative_offset + 4),
                                    comment,
                                ),
                            )
                        }
                    }
                }
            },
        },
    }
}

/// End-of-archive discovery: the last ZIP32 end-record signature in the
/// bounded tail window decides; when its size or count fields carry the
/// overflow sentinels, a ZIP64 end record is authoritative instead.
pub open spec fn spec_cd_end(source: Seq<u8>) -> Result<CdEndView, ZipErrorKind> {
    let t0 = tail_start(source.len() as int);
    let tail = source.subrange(t0, source.len() as int);
    match spec_rsearch(tail, le32_bytes(EOCDR32_SIGNATURE)) {
        None => Err(ZipErrorKind::SignatureNotFound),
        Some(idx32) => {
            if idx32 + 22 > tail.len() {
                Err(ZipErrorKind::InvalidArchive)
            } else {
                let rec = spec_zip32_end(tail, idx32 + 4);
                let cstart = idx32 + 22;
                let avail = tail.len() - cstart;
                let clen = if rec.file_comment_length as int <= avail {
                    rec.file_comment_length as int
                } else {
                    avail as int
                };
                let comment = if rec.file_comment_length > 0 {
                    Some(utf8_lossy(tail.subrange(cstart, cstart + clen)))
                } else {
                    None
                };
                if rec.central_directory_size == 0xFFFFFFFFu32 || rec.number_of_entries
                    == 0xFFFFu16 {
                    spec_cd_end_zip64(source, tail, idx32, comment)
                } else {
                    Ok(spec_promote32(rec, comment))
                }
            }
        },
    }
}

/// The four signature bytes, little-endian, as a searchable needle.
fn sig_vec(sig: u32) -> (v: Vec<u8>)
    ensures
        v@ == le32_bytes(sig),
        v@.len() == 4,
{
    let mut v: Vec<u8> = Vec::new();
    push_le32(&mut v, sig);
    proof {
        assert(Seq::<u8>::empty() + le32_bytes(sig) =~= le32_bytes(sig));
    }
    v
}

/// The ZIP64 resolution performed over the byte image.
fn read_cd_end_zip64(source: &[u8], tail: &[u8], idx32: usize, comment: Option<String>) -> (r:
    ZipResult<ZipCentralDirectoryEndRecord>)
    requires
        idx32 + 22 <= tail@.len(),
        tail@.len() <= source@.len(),
    ensures
        r matches Ok(rec) ==> spec_cd_end_zip64(source@, tail@, idx32 as int, opt_text(comment))
            == Ok::<CdEndView, ZipErrorKind>(rec@),
        r matches Err(e) ==> spec_cd_end_zip64(source@, tail@, idx32 as int, opt_text(comment)) matches Err(
            k,
        ) && e.kind() == k,
        r is Ok <==> spec_cd_end_zip64(source@, tail@, idx32 as int, opt_text(comment)) is Ok,
{
    let head = vstd::slice::slice_subrange(tail, 0, idx32);
    let sig64 = sig_vec(EOCDR64_SIGNATURE);
    if let Some(i64p) = rsearch(head, sig64.as_slice()) {
        if tail.len() - i64p < 56 {
            return Err(ZipError::InvalidArchive(String::from_str("ZIP64 end record truncated")));
        }
        let rec = Zip64CentralDirectoryEndRecord::parse(tail, i64p + 4);
        return Ok(promote64(rec, comment));
    }
    let sigloc = sig_vec(EOCDR64_LOCATOR_SIGNATURE);
    if let Some(lidx) = rsearch(head, sigloc.as_slice()) {
        proof {
            assert(crate::search::is_match(head@, sigloc@, lidx as int));
        }
        let loc = Zip64CentralDirectoryEndLocator::parse(tail, lidx + 4);
        if source.len() < 56 || loc.relative_offset > (source.len() - 56) as u64 {
            return Err(ZipError::InvalidArchive(String::from_str("ZIP64 end record truncated")));
        }
        let rec = Zip64CentralDirectoryEndRecord::parse(source, loc.relative_offset as usize + 4);
        return Ok(promote64(rec, comment));
    }
    if idx32 < 20 {
        return Err(
            ZipError::SignatureNotFound(
                String::from_str("Invalid Central Directory End Locator Signature"),
            ),
        );
    }
    let lpos = idx32 - 20;
    let _n: usize = tail.len();
    if read_le32(tail, lpos) != EOCDR64_LOCATOR_SIGNATURE {
        return Err(
            ZipError::SignatureNotFound(
                String::from_str("Invalid Central Directory End Locator Signature"),
            ),
        );
    }
    let loc = Zip64CentralDirectoryEndLocator::parse(tail, lpos + 4);
    if source.len() < 4 || loc.relative_offset > (source.len() - 4) as u64 {
        return Err(ZipError::InvalidArchive(String::from_str("ZIP64 end record truncated")));
    }
    if read_le32(source, loc.relative_offset as usize) != EOCDR64_SIGNATURE {
        return Err(
            ZipError::SignatureNotFound(
                String::from_str("Invalid Signature for Zip64 Central Directory End Record"),
            ),
        );
    }
    if source.len() < 56 || loc.relative_offset > (source.len() - 56) as u64 {
        return Err(ZipError::InvalidArchive(String::from_str("ZIP64 end record truncated")));
    }
    let rec = Zip64CentralDirectoryEndRecord::parse(source, loc.relative_offset as usize + 4);
    Ok(promote64(rec, comment))
}

/// The ZIP64 fields taken into the normalized record.
fn promote64(rec: Zip64CentralDirectoryEndRecord, comment: Option<String>) -> (r:
    ZipCentralDirectoryEndRecord)
    ensures
        r@ == spec_promote64(rec, opt_text(comment)),
{
    ZipCentralDirectoryEndRecord {
        version_made_by: Some(rec.version_made_by),
        version_needed: Some(rec.version_needed),
        disk_number: rec.disk_number,
        central_directory_start_disk: rec.central_directory_start_disk,
        number_of_entries_in_disk: rec.number_of_entries_in_disk,
        number_of_entries: rec.number_of_entries,
        central_directory_size: rec.central_directory_size,
        central_directory_offset: rec.central_directory_offset,
        comment,
    }
}

/// End-of-archive discovery over the byte image: locate the ZIP32 end
/// record by a reverse scan of the bounded tail window, then let a ZIP64
/// end record take over when the sentinels say so.
pub fn read_cd_end(source: &[u8]) -> (r: ZipResult<ZipCentralDirectoryEndRecord>)
    ensures
        r matches Ok(rec) ==> spec_cd_end(source@) == Ok::<CdEndView, ZipErrorKind>(rec@),
        r matches Err(e) ==> spec_cd_end(source@) matches Err(k) && e.kind() == k,
        r is Ok <==> spec_cd_end(source@) is Ok,
{
    let len = source.len();
    let t0 = if len >= EOCDR32_MAX_SPAN {
        len - EOCDR32_MAX_SPAN
    } else {
        0
    };
    let tail = vstd::slice::slice_subrange(source, t0, len);
    let sig32 = sig_vec(EOCDR32_SIGNATURE);
    let idx32 = match rsearch(tail, sig32.as_slice()) {
        Some(i) => i,
        None => {
            return Err(
                ZipError::SignatureNotFound(
                    String::from_str("Central Directory End Record Signature not Found"),
                ),
            );
        },
    };
    if tail.len() - idx32 < 22 {
        return Err(ZipError::InvalidArchive(String::from_str("end record truncated")));
    }
    let rec = Zip32CentralDirectoryEndRecord::parse(tail, idx32 + 4);
    let comment = if rec.file_comment_length > 0 {
        let cstart = idx32 + 22;
        let avail = tail.len() - cstart;
        let clen = if (rec.file_comment_length as usize) <= avail {
            rec.file_comment_length as usize
        } else {
            avail
        };
        Some(bytes_to_string_lossy(vstd::slice::slice_subrange(tail, cstart, cstart + clen)))
    } else {
        None
    };
    if rec.central_directory_size == u32::MAX || rec.number_of_entries == u16::MAX {
        read_cd_end_zip64(source, tail, idx32, comment)
    } else {
        Ok(
            ZipCentralDirectoryEndRecord {
                version_made_by: None,
                version_needed: None,
                disk_number: rec.disk_number as u32,
                central_directory_start_disk: rec.central_directory_start_disk as u32,
                number_of_entries_in_disk: rec.number_of_entries_in_disk as u64,
                number_of_entries: rec.number_of_entries as u64,
                central_directory_size: rec.central_directory_size as u64,
                central_directory_offset: rec.central_directory_offset as u64,
                comment,
            },
        )
    }
}

// ------------------------------------------------------------------
// The central-directory walk.

/// The entry list seen through its views.
pub open spec fn view_entries(l: Seq<ZipEntry>) -> Seq<EntryView> {
    l.map_values(|e: ZipEntry| e@)
}

/// One entry folded into the list: an entry whose name is already present
/// replaces the value at that name's position; a new name is appended.
pub open spec fn spec_insert_entry(entries: Seq<EntryView>, e: EntryView) -> Seq<EntryView> {
    if exists|k: int|
        0 <= k < entries.len() && (#[trigger] entries[k]).file_name.name == e.file_name.name {
        let k = choose|k: int|
            0 <= k < entries.len() && (#[trigger] entries[k]).file_name.name == e.file_name.name;
        entries.update(k, e)
    } else {
        entries.push(e)
    }
}

/// The record at each signature index parsed and folded into the list, in
/// scan order.
pub open spec fn spec_cd_fold(buf: Seq<u8>, idxs: Seq<int>, acc: Seq<EntryView>) -> Result<
    Seq<EntryView>,
    ZipErrorKind,
>
    decreases idxs.len(),
{
    if idxs.len() == 0 {
        Ok(acc)
    } else {
        match crate::records::spec_entry(buf, idxs[0]) {
            Err(k) => Err(k),
            Ok(e) => spec_cd_fold(buf, idxs.drop_first(), spec_insert_entry(acc, e)),
        }
    }
}

/// The whole central-directory image walked: every signature occurrence
/// starts a record, and the records build the name-keyed, insertion-ordered
/// entry list.
pub open spec fn spec_parse_cd(buf: Seq<u8>) -> Result<Seq<EntryView>, ZipErrorKind> {
    spec_cd_fold(buf, spec_search_all(buf, le32_bytes(CD_ENTRY_SIGNATURE)), Seq::empty())
}

/// The name index matches the entry list: each position's name maps back to
/// that position, and every indexed name names some position.
pub open spec fn names_indexed(entries: Seq<EntryView>, m: Map<Seq<char>, int>) -> bool {
    &&& forall|i: int|
        0 <= i < entries.len() ==> m.contains_key((#[trigger] entries[i]).file_name.name)
            && m[entries[i].file_name.name] == i
    &&& forall|k: Seq<char>|
        #[trigger] m.contains_key(k) ==> exists|i: int|
            0 <= i < entries.len() && (#[trigger] entries[i]).file_name.name == k
}

/// No two positions hold the same name.
pub open spec fn names_unique(entries: Seq<EntryView>) -> bool {
    forall|i: int, j: int|
        0 <= i < j < entries.len() ==> (#[trigger] entries[i]).file_name.name != (
        #[trigger] entries[j]).file_name.name
}

/// An indexed list has unique names.
pub proof fn lemma_names_indexed_unique(entries: Seq<EntryView>, m: Map<Seq<char>, int>)
    requires
        names_indexed(entries, m),
    ensures
        names_unique(entries),
{
    assert forall|i: int, j: int|
        0 <= i < j < entries.len() implies (#[trigger] entries[i]).file_name.name != (
    #[trigger] entries[j]).file_name.name by {
        if entries[i].file_name.name == entries[j].file_name.name {
            assert(m[entries[i].file_name.name] == i);
            assert(m[entries[j].file_name.name] == j);
        }
    }
}

/// Replacing the entry at a name's indexed position is what the fold does
/// for a known name, and the index still matches afterwards.
proof fn lemma_index_replace(vs: Seq<EntryView>, m: Map<Seq<char>, int>, e: EntryView, j: int)
    requires
        names_indexed(vs, m),
        0 <= j < vs.len(),
        m.contains_key(e.file_name.name),
        m[e.file_name.name] == j,
    ensures
        vs[j].file_name.name == e.file_name.name,
        spec_insert_entry(vs, e) == vs.update(j, e),
        names_indexed(vs.update(j, e), m),
{
    let name = e.file_name.name;
    let i0 = choose|i0: int| 0 <= i0 < vs.len() && (#[trigger] vs[i0]).file_name.name == name;
    assert(m.contains_key(vs[i0].file_name.name) && m[vs[i0].file_name.name] == i0);
    assert(i0 == j);
    assert(vs[j].file_name.name == name);
    let k0 = choose|k: int| 0 <= k < vs.len() && (#[trigger] vs[k]).file_name.name == name;
    assert(m[vs[k0].file_name.name] == k0);
    assert(k0 == j);
    assert(spec_insert_entry(vs, e) == vs.update(j, e));
    let nv = vs.update(j, e);
    assert forall|i: int|
        0 <= i < nv.len() implies m.contains_key((#[trigger] nv[i]).file_name.name)
        && m[nv[i].file_name.name] == i by {
        if i == j {
            assert(nv[i].file_name.name == vs[i].file_name.name);
        } else {
            assert(nv[i] == vs[i]);
        }
    }
    assert forall|k: Seq<char>| #[trigger] m.contains_key(k) implies exists|i: int|
        0 <= i < nv.len() && (#[trigger] nv[i]).file_name.name == k by {
        let i1 = choose|i1: int| 0 <= i1 < vs.len() && (#[trigger] vs[i1]).file_name.name == k;
        if i1 == j {
            assert(nv[i1].file_name.name == k);
        } else {
            assert(nv[i1].file_name.name == k);
        }
    }
}

/// Appending an entry with a fresh name is what the fold does for it, and
/// indexing the new position keeps the index matching.
proof fn lemma_index_push(vs: Seq<EntryView>, m: Map<Seq<char>, int>, e: EntryView)
    requires
        names_indexed(vs, m),
        !m.contains_key(e.file_name.name),
    ensures
        spec_insert_entry(vs, e) == vs.push(e),
        names_indexed(vs.push(e), m.insert(e.file_name.name, vs.len() as int)),
{
    let name = e.file_name.name;
    assert forall|k: int| 0 <= k < vs.len() implies (#[trigger] vs[k]).file_name.name != name by {
        if vs[k].file_name.name == name {
            assert(m.contains_key(name));
        }
    }
    assert(spec_insert_entry(vs, e) == vs.push(e));
    let nv = vs.push(e);
    let nm = m.insert(name, vs.len() as int);
    assert forall|i: int|
        0 <= i < nv.len() implies nm.contains_key((#[trigger] nv[i]).file_name.name)
        && nm[nv[i].file_name.name] == i by {
        if i < vs.len() {
            assert(nv[i] == vs[i]);
            assert(vs[i].file_name.name != name);
        } else {
            assert(nv[i] == e);
        }
    }
    assert forall|k: Seq<char>| #[trigger] nm.contains_key(k) implies exists|i: int|
        0 <= i < nv.len() && (#[trigger] nv[i]).file_name.name == k by {
        if k == name {
            assert(nv[vs.len() as int].file_name.name == k);
        } else {
            assert(m.contains_key(k));
            let i1 = choose|i1: int| 0 <= i1 < vs.len() && (#[trigger] vs[i1]).file_name.name == k;
            assert(nv[i1].file_name.name == k);
        }
    }
}

/// The central directory walked over the byte image, yielding the ordered
/// entry list and its name index.
#[verifier::rlimit(100)]
pub fn parse_central_directory(buf: &[u8]) -> (r: ZipResult<(Vec<ZipEntry>, NameIndex)>)
    ensures
        r matches Ok(p) ==> spec_parse_cd(buf@) == Ok::<Seq<EntryView>, ZipErrorKind>(
            view_entries(p.0@),
        ) && names_indexed(view_entries(p.0@), name_positions(p.1)),
        r matches Err(e) ==> spec_parse_cd(buf@) matches Err(k) && e.kind() == k,
        r is Ok <==> spec_parse_cd(buf@) is Ok,
{
    let sig = sig_vec(CD_ENTRY_SIGNATURE);
    let idxs = search_all(buf, sig.as_slice());
    let ghost gidxs = idxs@.map_values(|x: usize| x as int);
    let mut entries: Vec<ZipEntry> = Vec::new();
    let mut index: NameIndex = index_new();
    let mut i: usize = 0;
    proof {
        assert(gidxs.skip(0) =~= gidxs);
        assert(view_entries(entries@) =~= Seq::<EntryView>::empty());
    }
    while i < idxs.len()
        invariant
            i <= idxs@.len(),
            gidxs == idxs@.map_values(|x: usize| x as int),
            gidxs == spec_search_all(buf@, le32_bytes(CD_ENTRY_SIGNATURE)),
            forall|k: int|
                0 <= k < idxs@.len() ==> crate::search::is_match(
                    buf@,
                    le32_bytes(CD_ENTRY_SIGNATURE),
                    #[trigger] idxs@[k] as int,
                ),
            spec_parse_cd(buf@) == spec_cd_fold(
                buf@,
                gidxs.skip(i as int),
                view_entries(entries@),
            ),
            names_indexed(view_entries(entries@), name_positions(index)),
        decreases idxs@.len() - i,
    {
        let idx = idxs[i];
        proof {
            assert(gidxs.skip(i as int)[0] == idx as int);
            assert(gidxs.skip(i as int).drop_first() =~= gidxs.skip(i + 1));
            assert(crate::search::is_match(buf@, le32_bytes(CD_ENTRY_SIGNATURE), idx as int));
        }
        let entry = match ZipEntry::try_from(buf, idx) {
            Ok(e) => e,
            Err(e) => {
                return Err(e);
            },
        };
        let ghost ev = entry@;
        let ghost old_views = view_entries(entries@);
        let el = entries.len();
        match index_get(&index, entry.file_name.as_os_str()) {
            Some(j) => {
                proof {
                    let m = name_positions(index);
                    let name = ev.file_name.name;
                    assert(m.contains_key(name));
                    assert(exists|i0: int|
                        0 <= i0 < old_views.len() && (#[trigger] old_views[i0]).file_name.name
                            == name);
                    let i0 = choose|i0: int|
                        0 <= i0 < old_views.len() && (#[trigger] old_views[i0]).file_name.name
                            == name;
                    assert(m.contains_key(old_views[i0].file_name.name) && m[old_views[
                        i0].file_name.name] == i0);
                    assert(m[name] == i0);
                    assert(0 <= i0 < el);
                    assert(j as int == i0);
                    lemma_index_replace(old_views, m, ev, j as int);
                }
                vec_replace(&mut entries, j, entry);
                proof {
                    assert(view_entries(entries@) =~= old_views.update(j as int, ev));
                }
            },
            None => {
                proof {
                    lemma_index_push(old_views, name_positions(index), ev);
                }
                let pos = entries.len();
                let key = entry.file_name.as_os_str().to_owned();
                index_insert(&mut index, key, pos);
                entries.push(entry);
                proof {
                    assert(view_entries(entries@) =~= old_views.push(ev));
                }
            },
        }
        i += 1;
    }
    proof {
        assert(gidxs.skip(gidxs.len() as int) =~= Seq::<int>::empty());
    }
    Ok((entries, index))
}

/// One element replaced in place.
fn vec_replace(v: &mut Vec<ZipEntry>, i: usize, e: ZipEntry)
    requires
        i < old(v)@.len(),
    ensures
        final(v)@ == old(v)@.update(i as int, e),
{
    v[i] = e;
}

// ------------------------------------------------------------------
// The local-header reader.

/// The first ZIP64 extended-information record among an entry's extra
/// fields, if any.
pub open spec fn spec_find_zip64(l: Seq<ExtraFieldView>) -> Option<Zip64ExtendedInfoExtraField>
    decreases l.len(),
{
    if l.len() == 0 {
        None
    } else {
        match l[0] {
            ExtraFieldView::Zip64ExtendedInfo(z) => Some(z),
            _ => spec_find_zip64(l.drop_first()),
        }
    }
}

/// The entry's ZIP64 extended-information record, if it carries one.
pub open spec fn spec_entry_zip64(e: EntryView) -> Option<Zip64ExtendedInfoExtraField> {
    match e.extra_field {
        Some(l) => spec_find_zip64(l),
        None => None,
    }
}

/// A 32-bit size resolved against the entry's ZIP64 record: the sentinel
/// defers to the 64-bit value when the record carries one.
pub open spec fn spec_resolve_size(size32: u32, z64: Option<u64>) -> u64 {
    if size32 == 0xFFFFFFFFu32 {
        match z64 {
            Some(v) => v,
            None => size32 as u64,
        }
    } else {
        size32 as u64
    }
}

/// The compressed size the local header advertises, ZIP64-resolved.
pub open spec fn spec_local_compressed(e: EntryView, size32: u32) -> u64 {
    spec_resolve_size(
        size32,
        match spec_entry_zip64(e) {
            Some(z) => z.compressed_size,
            None => None,
        },
    )
}

/// The uncompressed size the local header advertises, ZIP64-resolved.
pub open spec fn spec_local_uncompressed(e: EntryView, size32: u32) -> u64 {
    spec_resolve_size(
        size32,
        match spec_entry_zip64(e) {
            Some(z) => z.uncompressed_size,
            None => None,
        },
    )
}

/// What a retrieved file denotes.
pub struct FileView {
    pub version_needed: u16,
    pub flags: GeneralPurposeFlag,
    pub compression: Compression,
    pub last_mod_datetime: crate::datetime::ZipDateTime,
    pub crc32: u32,
    pub compressed_size: u64,
    pub uncompressed_size: u64,
    pub file_name: PathView,
    pub extra_field: Option<Seq<ExtraFieldView>>,
    pub data: Seq<u8>,
}

/// The local file header at the entry's stored offset decoded, and the
/// compressed payload read after it. The authoritative name is the entry's,
/// sanitized, with the entry's attributes; the local name bytes are
/// discarded. A data-descriptor entry is unsupported and rejected.
pub open spec fn spec_read_local(src: Seq<u8>, e: EntryView) -> Result<FileView, ZipErrorKind> {
    let off = e.file_header_offset as int;
    if off + 4 > src.len() {
        Err(ZipErrorKind::InvalidArchive)
    } else if le32(src, off) != LOCAL_FILE_SIGNATURE {
        Err(ZipErrorKind::SignatureNotFound)
    } else if off + 30 > src.len() {
        Err(ZipErrorKind::InvalidArchive)
    } else {
        let flags = spec_flags(le16(src, off + 6));
        if flags.data_descriptor {
            Err(ZipErrorKind::FeatureNotSupported)
        } else {
            match spec_compression(le16(src, off + 8)) {
                Err(k) => Err(k),
                Ok(compression) => {
                    let name_len = le16(src, off + 26) as int;
                    let extra_len = le16(src, off + 28) as int;
                    let compressed_size = spec_local_compressed(e, le32(src, off + 18));
                    let uncompressed_size = spec_local_uncompressed(e, le32(src, off + 22));
                    let p = off + 30 + name_len + extra_len;
                    if p + compressed_size > src.len() {
                        Err(ZipErrorKind::InvalidArchive)
                    } else {
                        Ok(
                            FileView {
                                version_needed: le16(src, off + 4),
                                flags,
                                compression,
                                last_mod_datetime: spec_datetime(
                                    le16(src, off + 10),
                                    le16(src, off + 12),
                                ),
                                crc32: le32(src, off + 14),
                                compressed_size,
                                uncompressed_size,
                                file_name: PathView {
                                    name: spec_sanitize(e.file_name.name),
                                    metadata: e.file_name.metadata,
                                },
                                extra_field: None,
                                data: src.subrange(p, p + compressed_size),
                            },
                        )
                    }
                },
            }
        }
    }
}

/// The entry's ZIP64 sizes fetched from its parsed extra fields.
fn find_zip64_sizes(e: &ZipEntry) -> (r: (Option<u64>, Option<u64>))
    ensures
        r.0 == (match spec_entry_zip64(e@) {
            Some(z) => z.compressed_size,
            None => None::<u64>,
        }),
        r.1 == (match spec_entry_zip64(e@) {
            Some(z) => z.uncompressed_size,
            None => None::<u64>,
        }),
{
    match &e.extra_field {
        None => (None, None),
        Some(l) => {
            let ghost vl = crate::extra_field::spec_view_fields(l@);
            proof {
                assert(e@.extra_field == Some(vl));
                assert(spec_entry_zip64(e@) == spec_find_zip64(vl));
            }
            let mut i: usize = 0;
            proof {
                assert(vl.skip(0) =~= vl);
            }
            while i < l.len()
                invariant
                    i <= l@.len(),
                    vl == crate::extra_field::spec_view_fields(l@),
                    spec_entry_zip64(e@) == spec_find_zip64(vl),
                    spec_find_zip64(vl) == spec_find_zip64(vl.skip(i as int)),
                decreases l@.len() - i,
            {
                proof {
                    assert(vl.skip(i as int)[0] == vl[i as int]);
                    assert(vl.skip(i as int).drop_first() =~= vl.skip(i + 1));
                    assert(vl[i as int] == l@[i as int]@);
                }
                match &l[i] {
                    crate::extra_field::ExtraField::Zip64ExtendedInfo(z) => {
                        proof {
                            assert(vl[i as int] == ExtraFieldView::Zip64ExtendedInfo(*z));
                            assert(spec_find_zip64(vl.skip(i as int)) == Some(*z));
                        }
                        return (z.compressed_size, z.uncompressed_size);
                    },
                    _ => {},
                }
                i += 1;
            }
            proof {
                assert(vl.skip(vl.len() as int) =~= Seq::<ExtraFieldView>::empty());
            }
            (None, None)
        },
    }
}

/// The file the entry points at: its local header decoded at the stored
/// offset and its compressed payload copied out.
pub fn read_local_file(source: &[u8], entry: &ZipEntry) -> (r: ZipResult<crate::ZipFile>)
    ensures
        r matches Ok(f) ==> spec_read_local(source@, entry@) == Ok::<FileView, ZipErrorKind>(f@),
        r matches Err(e) ==> spec_read_local(source@, entry@) matches Err(k) && e.kind() == k,
        r is Ok <==> spec_read_local(source@, entry@) is Ok,
{
    let len = source.len();
    let off = entry.file_header_offset as usize;
    if len < 4 || off > len - 4 {
        return Err(ZipError::InvalidArchive(String::from_str("local header out of range")));
    }
    if read_le32(source, off) != LOCAL_FILE_SIGNATURE {
        return Err(
            ZipError::SignatureNotFound(
                String::from_str("Local File Header Signature not found"),
            ),
        );
    }
    if len - off < 30 {
        return Err(ZipError::InvalidArchive(String::from_str("local header truncated")));
    }
    let flags = GeneralPurposeFlag::from(read_le16(source, off + 6));
    if flags.data_descriptor {
        return Err(ZipError::FeatureNotSupported(String::from_str("data descriptor")));
    }
    let compression = match Compression::try_from(read_le16(source, off + 8)) {
        Ok(c) => c,
        Err(e) => {
            return Err(e);
        },
    };
    let name_len = read_le16(source, off + 26) as usize;
    let extra_len = read_le16(source, off + 28) as usize;
    let (z_comp, z_unc) = find_zip64_sizes(entry);
    let comp32 = read_le32(source, off + 18);
    let unc32 = read_le32(source, off + 22);
    let compressed_size: u64 = if comp32 == u32::MAX {
        match z_comp {
            Some(v) => v,
            None => comp32 as u64,
        }
    } else {
        comp32 as u64
    };
    let uncompressed_size: u64 = if unc32 == u32::MAX {
        match z_unc {
            Some(v) => v,
            None => unc32 as u64,
        }
    } else {
        unc32 as u64
    };
    let rem = len - off - 30;
    if name_len + extra_len > rem {
        return Err(ZipError::InvalidArchive(String::from_str("payload out of range")));
    }
    let p = off + 30 + name_len + extra_len;
    let rem2 = len - p;
    if compressed_size > rem2 as u64 {
        return Err(ZipError::InvalidArchive(String::from_str("payload out of range")));
    }
    let data = vstd::slice::slice_to_vec(
        vstd::slice::slice_subrange(source, p, p + compressed_size as usize),
    );
    let mut file_name = entry.file_name.duplicate();
    file_name.sanitize();
    Ok(
        crate::ZipFile {
            version_needed: read_le16(source, off + 4),
            flags,
            compression,
            last_mod_datetime: crate::datetime::read_datetime(source, off + 10),
            crc32: read_le32(source, off + 14),
            compressed_size,
            uncompressed_size,
            file_name,
            extra_field: None,
            data,
        },
    )
}

} // verus!
