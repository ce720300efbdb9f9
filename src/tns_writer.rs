//! The vendor archive: a zip container whose first local header carries the
//! vendor magic and a version tag, and whose end record carries a vendor
//! signature.

use vstd::prelude::*;
use vstd::utf8::encode_utf8;

verus! {

/// Compression method code of a keystream-protected entry.
pub const TI_ENCRYPTED_METHOD: u16 = 0x0D;

/// Compression method code of a deflated entry.
pub const DEFLATE_METHOD: u16 = 0x08;

/// Version needed to extract.
pub const VERSION_NEEDED: u16 = 20;

/// Version made by.
pub const VERSION_MADE_BY: u16 = 20;

/// The fixed DOS date and time stamp of every entry.
pub const DOS_TIME: u32 = 0x00200000;

/// Version tag of an ordinary document ("0500").
pub const TI_VERSION_DEFAULT: [u8; 4] = [0x30, 0x35, 0x30, 0x30];

/// Version tag of a document with bitmaps ("0700").
pub const TI_VERSION_BITMAP: [u8; 4] = [0x30, 0x37, 0x30, 0x30];

/// The CRC-32 (IEEE) checksum of a byte sequence.
pub uninterp spec fn crc32_of(data: Seq<u8>) -> u32;

/// Relies on crc32fast::hash: the IEEE CRC-32 of the bytes.
#[verifier::external_body]
pub(crate) fn crc32(data: &[u8]) -> (r: u32)
    ensures
        r == crc32_of(data@),
{
    crc32fast::hash(data)
}

/// One named entry of an archive.
pub struct TnsFileEntry {
    pub filename: String,
    pub data: Vec<u8>,
    pub method: u16,
    /// Original size of a deflated entry; the stored size when absent.
    pub uncompressed_size: Option<u32>,
    /// Checksum of the original bytes of a deflated entry; the checksum of
    /// the stored bytes when absent.
    pub crc32: Option<u32>,
}

/// What the writer records of each emitted entry for the central directory.
struct WrittenEntry {
    filename: String,
    method: u16,
    crc32: u32,
    compressed_size: u32,
    uncompressed_size: u32,
    local_header_offset: u32,
}

/// What the archive format reads of an entry: the UTF-8 of its name, its
/// stored bytes, its method, and its optional original size and checksum.
pub ghost struct EntryView {
    pub name: Seq<u8>,
    pub data: Seq<u8>,
    pub method: u16,
    pub uncompressed_size: Option<u32>,
    pub crc32: Option<u32>,
}

impl View for TnsFileEntry {
    type V = EntryView;

    open spec fn view(&self) -> EntryView {
        EntryView {
            name: encode_utf8(self.filename@),
            data: self.data@,
            method: self.method,
            uncompressed_size: self.uncompressed_size,
            crc32: self.crc32,
        }
    }
}

/// The views of a list of entries.
pub open spec fn entry_views(es: Seq<TnsFileEntry>) -> Seq<EntryView> {
    es.map_values(|e: TnsFileEntry| e@)
}

impl TnsFileEntry {
    /// A keystream-protected entry; size and checksum are those of `data`.
    pub fn new_ti_encrypted(filename: &str, data: Vec<u8>) -> (r: Self)
        ensures
            r.filename@ == filename@,
            r.data@ == data@,
            r.method == TI_ENCRYPTED_METHOD,
            r.uncompressed_size is None,
            r.crc32 is None,
    {
        TnsFileEntry {
            filename: filename.to_owned(),
            data,
            method: TI_ENCRYPTED_METHOD,
            uncompressed_size: None,
            crc32: None,
        }
    }

    /// A deflated entry with the size and checksum of its original bytes.
    pub fn new_deflated(filename: &str, compressed_data: Vec<u8>, original_size: u32, crc: u32) -> (r: Self)
        ensures
            r.filename@ == filename@,
            r.data@ == compressed_data@,
            r.method == DEFLATE_METHOD,
            r.uncompressed_size == Some(original_size),
            r.crc32 == Some(crc),
    {
        TnsFileEntry {
            filename: filename.to_owned(),
            data: compressed_data,
            method: DEFLATE_METHOD,
            uncompressed_size: Some(original_size),
            crc32: Some(crc),
        }
    }
}

pub open spec fn le16(v: u16) -> Seq<u8> {
    seq![v as u8, (v >> 8u16) as u8]
}

pub open spec fn le32(v: u32) -> Seq<u8> {
    seq![v as u8, (v >> 8u32) as u8, (v >> 16u32) as u8, (v >> 24u32) as u8]
}

/// "*TIMLP", which opens the first local header.
pub open spec fn ti_magic() -> Seq<u8> {
    seq![0x2Au8, 0x54, 0x49, 0x4D, 0x4C, 0x50]
}

/// "PK\x03\x04", which opens every later local header.
pub open spec fn std_local_sig() -> Seq<u8> {
    seq![0x50u8, 0x4B, 0x03, 0x04]
}

/// "PK\x01\x02", which opens each central directory record.
pub open spec fn central_sig() -> Seq<u8> {
    seq![0x50u8, 0x4B, 0x01, 0x02]
}

/// "TIPD", which opens the end of central directory record.
pub open spec fn ti_end_sig() -> Seq<u8> {
    seq![0x54u8, 0x49, 0x50, 0x44]
}

pub open spec fn version_tag(has_bitmap: bool) -> Seq<u8> {
    if has_bitmap {
        TI_VERSION_BITMAP@
    } else {
        TI_VERSION_DEFAULT@
    }
}

/// The local header fields that follow the signature (and version tag).
pub open spec fn header_fields(method: u16, crc: u32, csize: u32, usize: u32, name: Seq<u8>) -> Seq<u8> {
    le16(VERSION_NEEDED) + le16(0) + le16(method) + le32(DOS_TIME) + le32(crc) + le32(csize)
        + le32(usize) + le16(name.len() as u16) + le16(0) + name
}

pub open spec fn ti_local_header(
    method: u16,
    crc: u32,
    csize: u32,
    usize: u32,
    name: Seq<u8>,
    version: Seq<u8>,
) -> Seq<u8> {
    ti_magic() + version + header_fields(method, crc, csize, usize, name)
}

pub open spec fn std_local_header(method: u16, crc: u32, csize: u32, usize: u32, name: Seq<u8>) -> Seq<u8> {
    std_local_sig() + header_fields(method, crc, csize, usize, name)
}

pub open spec fn central_record(
    method: u16,
    crc: u32,
    csize: u32,
    usize: u32,
    offset: u32,
    name: Seq<u8>,
) -> Seq<u8> {
    central_sig() + le16(VERSION_MADE_BY) + le16(VERSION_NEEDED) + le16(0) + le16(method) + le32(
        DOS_TIME,
    ) + le32(crc) + le32(csize) + le32(usize) + le16(name.len() as u16) + le16(0) + le16(0)
        + le16(0) + le16(0) + le32(0) + le32(offset) + name
}

pub open spec fn end_record(count: u16, size: u32, offset: u32) -> Seq<u8> {
    ti_end_sig() + le16(0) + le16(0) + le16(count) + le16(count) + le32(size) + le32(offset) + le16(0)
}

/// The checksum written for an entry: the given one, else that of its bytes.
pub open spec fn entry_crc(e: EntryView) -> u32 {
    match e.crc32 {
        Some(c) => c,
        None => crc32_of(e.data),
    }
}

/// The original size written for an entry: the given one, else its length.
pub open spec fn entry_original_size(e: EntryView) -> u32 {
    match e.uncompressed_size {
        Some(n) => n,
        None => e.data.len() as u32,
    }
}

/// The local header and body of an entry; `first` selects the vendor header.
pub open spec fn local_record(e: EntryView, first: bool, version: Seq<u8>) -> Seq<u8> {
    (if first {
        ti_local_header(
            e.method,
            entry_crc(e),
            e.data.len() as u32,
            entry_original_size(e),
            e.name,
            version,
        )
    } else {
        std_local_header(
            e.method,
            entry_crc(e),
            e.data.len() as u32,
            entry_original_size(e),
            e.name,
        )
    }) + e.data
}

/// The local records of all entries, in order.
pub open spec fn locals(es: Seq<EntryView>, version: Seq<u8>) -> Seq<u8>
    decreases es.len(),
{
    if es.len() == 0 {
        Seq::empty()
    } else {
        locals(es.drop_last(), version) + local_record(es.last(), es.len() == 1, version)
    }
}

/// The central directory: one record per entry, each pointing at the
/// offset of that entry's local header.
pub open spec fn centrals(es: Seq<EntryView>, version: Seq<u8>) -> Seq<u8>
    decreases es.len(),
{
    if es.len() == 0 {
        Seq::empty()
    } else {
        let e = es.last();
        centrals(es.drop_last(), version) + central_record(
            e.method,
            entry_crc(e),
            e.data.len() as u32,
            entry_original_size(e),
            locals(es.drop_last(), version).len() as u32,
            e.name,
        )
    }
}

/// The whole archive: local records, central directory, end record.
pub open spec fn archive(es: Seq<EntryView>, has_bitmap: bool) -> Seq<u8> {
    let v = version_tag(has_bitmap);
    locals(es, v) + centrals(es, v) + end_record(
        es.len() as u16,
        centrals(es, v).len() as u32,
        locals(es, v).len() as u32,
    )
}

fn push_le16(buf: &mut Vec<u8>, v: u16)
    ensures
        final(buf)@ == old(buf)@ + le16(v),
{
    buf.push(v as u8);
    buf.push((v >> 8u16) as u8);
    assert(buf@ =~= old(buf)@ + le16(v));
}

fn push_le32(buf: &mut Vec<u8>, v: u32)
    ensures
        final(buf)@ == old(buf)@ + le32(v),
{
    buf.push(v as u8);
    buf.push((v >> 8u32) as u8);
    buf.push((v >> 16u32) as u8);
    buf.push((v >> 24u32) as u8);
    assert(buf@ =~= old(buf)@ + le32(v));
}

fn push_bytes(buf: &mut Vec<u8>, s: &[u8])
    ensures
        final(buf)@ == old(buf)@ + s@,
{
    buf.extend_from_slice(s);
}

fn write_header_fields(buf: &mut Vec<u8>, method: u16, crc32: u32, compressed_size: u32, uncompressed_size: u32, name: &[u8])
    ensures
        final(buf)@ == old(buf)@ + header_fields(method, crc32, compressed_size, uncompressed_size, name@),
{
    push_le16(buf, VERSION_NEEDED);
    push_le16(buf, 0);
    push_le16(buf, method);
    push_le32(buf, DOS_TIME);
    push_le32(buf, crc32);
    push_le32(buf, compressed_size);
    push_le32(buf, uncompressed_size);
    push_le16(buf, name.len() as u16);
    push_le16(buf, 0);
    push_bytes(buf, name);
    assert(buf@ =~= old(buf)@ + header_fields(method, crc32, compressed_size, uncompressed_size, name@));
}

/// Appends the vendor local header of the first entry: magic, version tag,
/// then the standard fields and the name.
pub fn write_ti_local_header(
    buf: &mut Vec<u8>,
    filename: &str,
    method: u16,
    crc32: u32,
    compressed_size: u32,
    uncompressed_size: u32,
    version: &[u8; 4],
)
    ensures
        final(buf)@ == old(buf)@ + ti_local_header(
            method,
            crc32,
            compressed_size,
            uncompressed_size,
            encode_utf8(filename@),
            version@,
        ),
{
    push_bytes(buf, &[0x2A, 0x54, 0x49, 0x4D, 0x4C, 0x50]);
    push_bytes(buf, version);
    write_header_fields(buf, method, crc32, compressed_size, uncompressed_size, filename.as_bytes());
    assert(buf@ =~= old(buf)@ + ti_local_header(
        method,
        crc32,
        compressed_size,
        uncompressed_size,
        encode_utf8(filename@),
        version@,
    ));
}

/// Appends a standard local header, as every entry after the first has.
pub fn write_std_local_header(
    buf: &mut Vec<u8>,
    filename: &str,
    method: u16,
    crc32: u32,
    compressed_size: u32,
    uncompressed_size: u32,
)
    ensures
        final(buf)@ == old(buf)@ + std_local_header(
            method,
            crc32,
            compressed_size,
            uncompressed_size,
            encode_utf8(filename@),
        ),
{
    push_bytes(buf, &[0x50, 0x4B, 0x03, 0x04]);
    write_header_fields(buf, method, crc32, compressed_size, uncompressed_size, filename.as_bytes());
    assert(buf@ =~= old(buf)@ + std_local_header(
        method,
        crc32,
        compressed_size,
        uncompressed_size,
        encode_utf8(filename@),
    ));
}

fn write_central_dir_entry(buf: &mut Vec<u8>, entry: &WrittenEntry)
    ensures
        final(buf)@ == old(buf)@ + central_record(
            entry.method,
            entry.crc32,
            entry.compressed_size,
            entry.uncompressed_size,
            entry.local_header_offset,
            encode_utf8(entry.filename@),
        ),
{
    let name = entry.filename.as_str().as_bytes();
    push_bytes(buf, &[0x50, 0x4B, 0x01, 0x02]);
    push_le16(buf, VERSION_MADE_BY);
    push_le16(buf, VERSION_NEEDED);
    push_le16(buf, 0);
    push_le16(buf, entry.method);
    push_le32(buf, DOS_TIME);
    push_le32(buf, entry.crc32);
    push_le32(buf, entry.compressed_size);
    push_le32(buf, entry.uncompressed_size);
    push_le16(buf, name.len() as u16);
    push_le16(buf, 0);
    push_le16(buf, 0);
    push_le16(buf, 0);
    push_le16(buf, 0);
    push_le32(buf, 0);
    push_le32(buf, entry.local_header_offset);
    push_bytes(buf, name);
    assert(buf@ =~= old(buf)@ + central_record(
        entry.method,
        entry.crc32,
        entry.compressed_size,
        entry.uncompressed_size,
        entry.local_header_offset,
        encode_utf8(entry.filename@),
    ));
}

/// Appends the end of central directory record with the vendor signature.
pub fn write_ti_end_of_central_dir(buf: &mut Vec<u8>, num_entries: u16, central_dir_size: u32, central_dir_offset: u32)
    ensures
        final(buf)@ == old(buf)@ + end_record(num_entries, central_dir_size, central_dir_offset),
{
    push_bytes(buf, &[0x54, 0x49, 0x50, 0x44]);
    push_le16(buf, 0);
    push_le16(buf, 0);
    push_le16(buf, num_entries);
    push_le16(buf, num_entries);
    push_le32(buf, central_dir_size);
    push_le32(buf, central_dir_offset);
    push_le16(buf, 0);
    assert(buf@ =~= old(buf)@ + end_record(num_entries, central_dir_size, central_dir_offset));
}

/// Serialises `entries`, in order, into one archive: the first entry gets the
/// vendor header with the version tag that `has_bitmap` selects ("0700" or
/// "0500"), the others standard headers; then the central directory and the
/// vendor end record.
pub fn build_tns_archive(entries: &Vec<TnsFileEntry>, has_bitmap: bool) -> (r: Vec<u8>)
    ensures
        r@ == archive(entry_views(entries@), has_bitmap),
{
    let ghost es = entry_views(entries@);
    let ghost v = version_tag(has_bitmap);
    let version: [u8; 4] = if has_bitmap {
        TI_VERSION_BITMAP
    } else {
        TI_VERSION_DEFAULT
    };
    let mut buf: Vec<u8> = Vec::new();
    let mut written: Vec<WrittenEntry> = Vec::new();
    let n = entries.len();
    let mut i: usize = 0;
    assert(es.take(0) =~= Seq::<EntryView>::empty());
    while i < n
        invariant
            n == es.len(),
            es == entry_views(entries@),
            v == version_tag(has_bitmap),
            version@ == v,
            i <= n,
            buf@ == locals(es.take(i as int), v),
            written@.len() == i,
            forall|j: int| 0 <= j < i ==> {
                let w = #[trigger] written@[j];
                let e = es[j];
                &&& encode_utf8(w.filename@) == e.name
                &&& w.method == e.method
                &&& w.crc32 == entry_crc(e)
                &&& w.compressed_size == e.data.len() as u32
                &&& w.uncompressed_size == entry_original_size(e)
                &&& w.local_header_offset == locals(es.take(j), v).len() as u32
            },
        decreases n - i,
    {
        let entry = &entries[i];
        let offset = buf.len() as u32;
        let crc = match entry.crc32 {
            Some(c) => c,
            None => crc32(entry.data.as_slice()),
        };
        let compressed_size = entry.data.len() as u32;
        let uncompressed_size = match entry.uncompressed_size {
            Some(u) => u,
            None => compressed_size,
        };
        if i == 0 {
            write_ti_local_header(
                &mut buf,
                entry.filename.as_str(),
                entry.method,
                crc,
                compressed_size,
                uncompressed_size,
                &version,
            );
        } else {
            write_std_local_header(
                &mut buf,
                entry.filename.as_str(),
                entry.method,
                crc,
                compressed_size,
                uncompressed_size,
            );
        }
        push_bytes(&mut buf, entry.data.as_slice());
        written.push(
            WrittenEntry {
                filename: entry.filename.clone(),
                method: entry.method,
                crc32: crc,
                compressed_size,
                uncompressed_size,
                local_header_offset: offset,
            },
        );
        assert(es.take(i + 1).drop_last() =~= es.take(i as int));
        assert(es.take(i + 1).last() == es[i as int]);
        i += 1;
    }
    assert(es.take(n as int) =~= es);
    let central_dir_offset: usize = buf.len();
    let mut j: usize = 0;
    assert(buf@ =~= locals(es, v) + centrals(es.take(0), v));
    while j < n
        invariant
            n == es.len(),
            written@.len() == n,
            j <= n,
            central_dir_offset == locals(es, v).len(),
            buf@ == locals(es, v) + centrals(es.take(j as int), v),
            forall|k: int| 0 <= k < n ==> {
                let w = #[trigger] written@[k];
                let e = es[k];
                &&& encode_utf8(w.filename@) == e.name
                &&& w.method == e.method
                &&& w.crc32 == entry_crc(e)
                &&& w.compressed_size == e.data.len() as u32
                &&& w.uncompressed_size == entry_original_size(e)
                &&& w.local_header_offset == locals(es.take(k), v).len() as u32
            },
        decreases n - j,
    {
        write_central_dir_entry(&mut buf, &written[j]);
        assert(es.take(j + 1).drop_last() =~= es.take(j as int));
        assert(es.take(j + 1).last() == es[j as int]);
        assert(buf@ =~= locals(es, v) + centrals(es.take(j + 1), v));
        j += 1;
    }
    assert(es.take(n as int) =~= es);
    let central_dir_size = (buf.len() - central_dir_offset) as u32;
    write_ti_end_of_central_dir(&mut buf, n as u16, central_dir_size, central_dir_offset as u32);
    assert(buf@ =~= archive(es, has_bitmap));
    buf
}

proof fn lemma_locals_prefix(es: Seq<EntryView>, k: int, v: Seq<u8>)
    requires
        0 <= k <= es.len(),
    ensures
        locals(es.take(k), v).len() <= locals(es, v).len(),
        locals(es, v).subrange(0, locals(es.take(k), v).len() as int) == locals(es.take(k), v),
    decreases es.len(),
{
    if k == es.len() {
        assert(es.take(k) =~= es);
        assert(locals(es, v).subrange(0, locals(es, v).len() as int) =~= locals(es, v));
    } else {
        assert(es.drop_last().take(k) =~= es.take(k));
        lemma_locals_prefix(es.drop_last(), k, v);
        let p = locals(es.take(k), v);
        let a = locals(es.drop_last(), v);
        assert(locals(es, v).subrange(0, p.len() as int) =~= a.subrange(0, p.len() as int));
    }
}

proof fn lemma_first_record(e: EntryView, v: Seq<u8>)
    requires
        v.len() == 4,
    ensures
        local_record(e, true, v).len() == 36 + e.name.len() + e.data.len(),
        local_record(e, true, v).len() >= 10,
        local_record(e, true, v).subrange(0, 6) == ti_magic(),
        local_record(e, true, v).subrange(6, 10) == v,
{
    let f = header_fields(
        e.method,
        entry_crc(e),
        e.data.len() as u32,
        entry_original_size(e),
        e.name,
    );
    let r = local_record(e, true, v);
    assert(r =~= ti_magic() + v + f + e.data);
    assert(r.subrange(0, 6) =~= ti_magic());
    assert(r.subrange(6, 10) =~= v);
}

proof fn lemma_later_record(e: EntryView, v: Seq<u8>)
    ensures
        local_record(e, false, v).len() >= 4,
        local_record(e, false, v).subrange(0, 4) == std_local_sig(),
{
    let f = header_fields(
        e.method,
        entry_crc(e),
        e.data.len() as u32,
        entry_original_size(e),
        e.name,
    );
    let r = local_record(e, false, v);
    assert(r =~= std_local_sig() + f + e.data);
    assert(r.subrange(0, 4) =~= std_local_sig());
}

proof fn lemma_locals_one_two(es: Seq<EntryView>, v: Seq<u8>)
    requires
        es.len() >= 1,
    ensures
        locals(es.take(1), v) == local_record(es[0], true, v),
        es.len() >= 2 ==> locals(es.take(2), v) == local_record(es[0], true, v) + local_record(
            es[1],
            false,
            v,
        ),
{
    let t1 = es.take(1);
    assert(t1.drop_last() =~= Seq::<EntryView>::empty());
    assert(locals(t1.drop_last(), v) == Seq::<u8>::empty());
    assert(t1.last() == es[0]);
    assert(locals(t1, v) =~= local_record(es[0], true, v));
    if es.len() >= 2 {
        let t2 = es.take(2);
        assert(t2.drop_last() =~= t1);
        assert(t2.last() == es[1]);
        assert(locals(t2, v) == locals(t1, v) + local_record(es[1], false, v));
    }
}

proof fn lemma_concat_left(a: Seq<u8>, b: Seq<u8>, lo: int, hi: int)
    requires
        0 <= lo <= hi <= a.len(),
    ensures
        (a + b).subrange(lo, hi) == a.subrange(lo, hi),
{
    assert((a + b).subrange(lo, hi) =~= a.subrange(lo, hi));
}

proof fn lemma_archive_start(es: Seq<EntryView>, has_bitmap: bool, lo: int, hi: int)
    requires
        0 <= lo <= hi <= locals(es, version_tag(has_bitmap)).len(),
    ensures
        archive(es, has_bitmap).subrange(lo, hi) == locals(es, version_tag(has_bitmap)).subrange(lo, hi),
{
    let v = version_tag(has_bitmap);
    let l = locals(es, v);
    let c = centrals(es, v);
    let e = end_record(es.len() as u16, c.len() as u32, l.len() as u32);
    assert(archive(es, has_bitmap) == l + c + e);
    lemma_concat_left(l, c, lo, hi);
    lemma_concat_left(l + c, e, lo, hi);
}

proof fn lemma_archive_end(es: Seq<EntryView>, has_bitmap: bool)
    ensures
        archive(es, has_bitmap).len() >= 22,
        ({
            let a = archive(es, has_bitmap);
            a.subrange(a.len() - 22, a.len() - 18) == ti_end_sig()
        }),
{
    let v = version_tag(has_bitmap);
    let l = locals(es, v);
    let c = centrals(es, v);
    let e = end_record(es.len() as u16, c.len() as u32, l.len() as u32);
    let a = archive(es, has_bitmap);
    assert(a == (l + c) + e);
    assert(e.len() == 22);
    assert(e.subrange(0, 4) =~= ti_end_sig());
    assert(a.subrange(a.len() - 22, a.len() - 18) =~= e.subrange(0, 4));
}

proof fn lemma_archive_second(es: Seq<EntryView>, has_bitmap: bool)
    requires
        es.len() >= 2,
    ensures
        ({
            let o = (36 + es[0].name.len() + es[0].data.len()) as int;
            archive(es, has_bitmap).subrange(o, o + 4) == std_local_sig()
        }),
{
    let v = version_tag(has_bitmap);
    let l = locals(es, v);
    let r0 = local_record(es[0], true, v);
    let r1 = local_record(es[1], false, v);
    lemma_first_record(es[0], v);
    lemma_later_record(es[1], v);
    lemma_locals_one_two(es, v);
    lemma_locals_prefix(es, 2, v);
    let o = r0.len() as int;
    lemma_archive_start(es, has_bitmap, o, o + 4);
    assert(l.subrange(o, o + 4) =~= (r0 + r1).subrange(o, o + 4));
    assert((r0 + r1).subrange(o, o + 4) =~= r1.subrange(0, 4));
}

/// Layout of every archive with at least one entry: it opens with the vendor
/// magic, then the requested version tag; when there is a second entry, its
/// local header, right after the first entry's record (36 bytes of header
/// plus the first name and body), opens with the standard local signature; and the vendor end signature opens the last 22
/// bytes.
pub proof fn lemma_archive_layout(es: Seq<EntryView>, has_bitmap: bool)
    requires
        es.len() >= 1,
    ensures
        archive(es, has_bitmap).subrange(0, 6) == ti_magic(),
        archive(es, has_bitmap).subrange(6, 10) == version_tag(has_bitmap),
        local_record(es[0], true, version_tag(has_bitmap)).len() == 36 + es[0].name.len()
            + es[0].data.len(),
        es.len() >= 2 ==> ({
            let o = (36 + es[0].name.len() + es[0].data.len()) as int;
            archive(es, has_bitmap).subrange(o, o + 4) == std_local_sig()
        }),
        archive(es, has_bitmap).len() >= 22,
        ({
            let a = archive(es, has_bitmap);
            a.subrange(a.len() - 22, a.len() - 18) == ti_end_sig()
        }),
{
    let v = version_tag(has_bitmap);
    let l = locals(es, v);
    assert(v.len() == 4);
    let r0 = local_record(es[0], true, v);
    lemma_first_record(es[0], v);
    lemma_locals_one_two(es, v);
    lemma_locals_prefix(es, 1, v);
    lemma_archive_start(es, has_bitmap, 0, 6);
    lemma_archive_start(es, has_bitmap, 6, 10);
    assert(l.subrange(0, 6) =~= r0.subrange(0, 6));
    assert(l.subrange(6, 10) =~= r0.subrange(6, 10));
    if es.len() >= 2 {
        lemma_archive_second(es, has_bitmap);
    }
    lemma_archive_end(es, has_bitmap);
}

} // verus!
