//! The container: the parts of a package as one ZIP archive.
//!
//! Each part is stored deflated under its name. The archive holds one local
//! record for each part, then the central directory with one record for each
//! part, then the end record. All times are the first of January 1980.

use vstd::prelude::*;
use vstd::seq_lib::lemma_concat_associative;
use crate::bytes::append;
use crate::error::XlsxError;
use crate::package::{part_views, Part, PartData};

verus! {

/// The level at which parts are deflated.
pub const DEFLATE_LEVEL: u8 = 6;

/// The method number of deflate.
pub const METHOD_DEFLATE: u64 = 8;

/// The version of the format that reading the archive takes.
pub const VERSION: u64 = 20;

/// The first of January 1980 as a date of the format.
pub const DATE: u64 = 33;

/// Greatest number that the format states in two bytes: the number of
/// entries, and the length of a name.
pub const MAX_SHORT: u64 = 0xffff;

/// Greatest number that the format states in four bytes: the length of a
/// part, and the length of the archive up to its end record.
pub const MAX_LONG: u64 = 0xffff_ffff;

/// What `miniz_oxide::deflate::compress_to_vec` returns for `data` at
/// `level`: a raw deflate stream of `data`.
pub uninterp spec fn deflated(data: Seq<u8>, level: u8) -> Seq<u8>;

/// Calls `miniz_oxide::deflate::compress_to_vec`, which compresses `data`
/// into a raw deflate stream at the given level; levels above 10 count as
/// 10. The result depends on `data` and `level` alone.
#[verifier::external_body]
fn deflate(data: &[u8], level: u8) -> (packed: Vec<u8>)
    ensures
        packed@ == deflated(data@, level),
{
    miniz_oxide::deflate::compress_to_vec(data, level)
}

/// The two low bytes of `n`, the lowest first.
pub open spec fn le16(n: nat) -> Seq<u8> {
    seq![(n % 256) as u8, (n / 256 % 256) as u8]
}

/// The four low bytes of `n`, the lowest first.
pub open spec fn le32(n: nat) -> Seq<u8> {
    seq![
        (n % 256) as u8,
        (n / 256 % 256) as u8,
        (n / 65536 % 256) as u8,
        (n / 16777216 % 256) as u8,
    ]
}

/// Appends the two low bytes of `n`, the lowest first.
pub fn append_le16(out: &mut Vec<u8>, n: u64)
    ensures
        final(out)@ == old(out)@ + le16(n as nat),
{
    out.push((n % 256) as u8);
    out.push((n / 256 % 256) as u8);
}

/// Appends the four low bytes of `n`, the lowest first.
pub fn append_le32(out: &mut Vec<u8>, n: u64)
    ensures
        final(out)@ == old(out)@ + le32(n as nat),
{
    out.push((n % 256) as u8);
    out.push((n / 256 % 256) as u8);
    out.push((n / 65536 % 256) as u8);
    out.push((n / 16777216 % 256) as u8);
}

/// One step of the checksum: a shift by one bit, with the polynomial
/// folded in where a one was shifted out.
pub open spec fn crc_shift(c: u32) -> u32 {
    if c & 1 == 1 {
        (c >> 1) ^ 0xedb8_8320
    } else {
        c >> 1
    }
}

/// The checksum register after one more byte.
pub open spec fn crc_byte(c: u32, b: u8) -> u32 {
    crc_shift(
        crc_shift(
            crc_shift(crc_shift(crc_shift(crc_shift(crc_shift(crc_shift(c ^ (b as u32))))))),
        ),
    )
}

/// The checksum register after the bytes of `data`.
pub open spec fn crc_fold(c: u32, data: Seq<u8>) -> u32
    decreases data.len(),
{
    if data.len() == 0 {
        c
    } else {
        crc_byte(crc_fold(c, data.drop_last()), data.last())
    }
}

/// The CRC-32 checksum of `data`.
pub open spec fn crc32(data: Seq<u8>) -> u32 {
    crc_fold(0xffff_ffff, data) ^ 0xffff_ffff
}

fn shift(c: u32) -> (r: u32)
    ensures
        r == crc_shift(c),
{
    if c & 1 == 1 {
        (c >> 1) ^ 0xedb8_8320
    } else {
        c >> 1
    }
}

/// The CRC-32 checksum of `data`.
pub fn checksum(data: &[u8]) -> (crc: u32)
    ensures
        crc == crc32(data@),
{
    let mut c: u32 = 0xffff_ffff;
    let mut i: usize = 0;
    while i < data.len()
        invariant
            i <= data@.len(),
            c == crc_fold(0xffff_ffff, data@.subrange(0, i as int)),
        decreases data@.len() - i,
    {
        proof {
            assert(data@.subrange(0, i + 1).drop_last() == data@.subrange(0, i as int));
        }
        c = shift(shift(shift(shift(shift(shift(shift(shift(c ^ (data[i] as u32)))))))));
        i += 1;
    }
    assert(data@.subrange(0, i as int) == data@);
    c ^ 0xffff_ffff
}

/// What the local and the central record of an entry share: method and
/// time, checksum, lengths of the packed and of the plain data, and the
/// length of the name.
pub open spec fn entry_fields(name: Seq<u8>, crc: u32, size: nat, packed: nat) -> Seq<u8> {
    le16(0) + le16(METHOD_DEFLATE as nat) + le16(0) + le16(DATE as nat) + le32(crc as nat) + le32(
        packed,
    ) + le32(size) + le16(name.len()) + le16(0)
}

/// The local header of an entry, with its name.
pub open spec fn local_header(name: Seq<u8>, crc: u32, size: nat, packed: nat) -> Seq<u8> {
    le32(0x0403_4b50) + le16(VERSION as nat) + entry_fields(name, crc, size, packed) + name
}

/// The local record of an entry: its header, its name and its packed data.
pub open spec fn local_record(name: Seq<u8>, crc: u32, size: nat, packed: Seq<u8>) -> Seq<u8> {
    local_header(name, crc, size, packed.len()) + packed
}

/// The central record of an entry whose local record starts at `offset`.
pub open spec fn central_record(name: Seq<u8>, crc: u32, size: nat, packed: nat, offset: nat)
    -> Seq<u8> {
    le32(0x0201_4b50) + le16(VERSION as nat) + le16(VERSION as nat) + entry_fields(
        name,
        crc,
        size,
        packed,
    ) + le16(0) + le16(0) + le16(0) + le32(0) + le32(offset) + name
}

/// The end record of an archive of `count` entries whose central directory
/// of `size` bytes starts at `offset`.
pub open spec fn end_record(count: nat, size: nat, offset: nat) -> Seq<u8> {
    le32(0x0605_4b50) + le16(0) + le16(0) + le16(count) + le16(count) + le32(size) + le32(offset)
        + le16(0)
}

/// The local records of the first `n` parts.
pub open spec fn records(parts: Seq<PartData>, n: int) -> Seq<u8>
    decreases n,
{
    if n <= 0 {
        Seq::empty()
    } else {
        records(parts, n - 1) + local_record(
            parts[n - 1].name,
            crc32(parts[n - 1].data),
            parts[n - 1].data.len(),
            deflated(parts[n - 1].data, DEFLATE_LEVEL),
        )
    }
}

/// The central records of the first `n` parts.
pub open spec fn directory(parts: Seq<PartData>, n: int) -> Seq<u8>
    decreases n,
{
    if n <= 0 {
        Seq::empty()
    } else {
        directory(parts, n - 1) + central_record(
            parts[n - 1].name,
            crc32(parts[n - 1].data),
            parts[n - 1].data.len(),
            deflated(parts[n - 1].data, DEFLATE_LEVEL).len(),
            records(parts, n - 1).len(),
        )
    }
}

/// The archive of `parts`.
pub open spec fn archive(parts: Seq<PartData>) -> Seq<u8> {
    records(parts, parts.len() as int) + directory(parts, parts.len() as int) + end_record(
        parts.len(),
        directory(parts, parts.len() as int).len(),
        records(parts, parts.len() as int).len(),
    )
}

/// Whether the first `n` parts have names and lengths that the format can
/// state.
pub open spec fn parts_fit(parts: Seq<PartData>, n: int) -> bool {
    forall|i: int|
        0 <= i < n ==> (#[trigger] parts[i]).name.len() <= MAX_SHORT && parts[i].data.len()
            <= MAX_LONG
}

/// Whether the format can hold the archive of `parts`: their number, their
/// names and lengths, and the length of the archive up to its end record.
pub open spec fn fits(parts: Seq<PartData>) -> bool {
    &&& parts.len() <= MAX_SHORT
    &&& parts_fit(parts, parts.len() as int)
    &&& records(parts, parts.len() as int).len() + directory(parts, parts.len() as int).len()
        <= MAX_LONG
}

/// What the local and the central record of an entry share.
fn fields(name: &[u8], crc: u32, size: usize, packed: usize) -> (piece: Vec<u8>)
    ensures
        piece@ == entry_fields(name@, crc, size as nat, packed as nat),
{
    let mut piece: Vec<u8> = Vec::new();
    append_le16(&mut piece, 0);
    assert(piece@ == le16(0));
    append_le16(&mut piece, METHOD_DEFLATE);
    append_le16(&mut piece, 0);
    append_le16(&mut piece, DATE);
    append_le32(&mut piece, crc as u64);
    append_le32(&mut piece, packed as u64);
    append_le32(&mut piece, size as u64);
    append_le16(&mut piece, name.len() as u64);
    append_le16(&mut piece, 0);
    piece
}

/// The local header of an entry, with its name.
fn header(name: &[u8], crc: u32, size: usize, packed: usize) -> (piece: Vec<u8>)
    ensures
        piece@ == local_header(name@, crc, size as nat, packed as nat),
{
    let shared = fields(name, crc, size, packed);
    let mut piece: Vec<u8> = Vec::new();
    append_le32(&mut piece, 0x0403_4b50);
    assert(piece@ == le32(0x0403_4b50));
    append_le16(&mut piece, VERSION);
    append(&mut piece, shared.as_slice());
    append(&mut piece, name);
    piece
}

/// Appends the local record of an entry of the given name, checksum and
/// plain length, whose packed data is `packed`.
pub fn append_local_record(out: &mut Vec<u8>, name: &[u8], crc: u32, size: usize, packed: &[u8])
    ensures
        final(out)@ == old(out)@ + local_record(name@, crc, size as nat, packed@),
{
    let first = header(name, crc, size, packed.len());
    append(out, first.as_slice());
    append(out, packed);
    proof {
        lemma_concat_associative(old(out)@, first@, packed@);
    }
}

/// Appends the central record of an entry of the given name, checksum,
/// plain length and packed length, whose local record starts at `offset`.
pub fn append_central_record(
    out: &mut Vec<u8>,
    name: &[u8],
    crc: u32,
    size: usize,
    packed: usize,
    offset: usize,
)
    ensures
        final(out)@ == old(out)@ + central_record(
            name@,
            crc,
            size as nat,
            packed as nat,
            offset as nat,
        ),
{
    let shared = fields(name, crc, size, packed);
    let mut piece: Vec<u8> = Vec::new();
    append_le32(&mut piece, 0x0201_4b50);
    assert(piece@ == le32(0x0201_4b50));
    append_le16(&mut piece, VERSION);
    append_le16(&mut piece, VERSION);
    append(&mut piece, shared.as_slice());
    append_le16(&mut piece, 0);
    append_le16(&mut piece, 0);
    append_le16(&mut piece, 0);
    append_le32(&mut piece, 0);
    append_le32(&mut piece, offset as u64);
    append(&mut piece, name);
    append(out, piece.as_slice());
}

/// Appends the end record of an archive of `count` entries whose central
/// directory of `size` bytes starts at `offset`.
pub fn append_end_record(out: &mut Vec<u8>, count: usize, size: usize, offset: usize)
    ensures
        final(out)@ == old(out)@ + end_record(count as nat, size as nat, offset as nat),
{
    let mut piece: Vec<u8> = Vec::new();
    append_le32(&mut piece, 0x0605_4b50);
    assert(piece@ == le32(0x0605_4b50));
    append_le16(&mut piece, 0);
    append_le16(&mut piece, 0);
    append_le16(&mut piece, count as u64);
    append_le16(&mut piece, count as u64);
    append_le32(&mut piece, size as u64);
    append_le32(&mut piece, offset as u64);
    append_le16(&mut piece, 0);
    append(out, piece.as_slice());
}

/// Packs `parts` into one archive, each part deflated, in their order.
/// Where the format cannot hold them (more than 65535 parts, a name longer
/// than 65535 bytes, a part or the archive longer than 4 GiB) nothing is
/// handed out and the call fails with `IoError`.
#[verifier::rlimit(50)]
pub fn write_archive(parts: &Vec<Part>) -> (r: Result<Vec<u8>, XlsxError>)
    ensures
        r is Ok <==> fits(part_views(parts@)),
        r is Ok ==> r->Ok_0@ == archive(part_views(parts@)),
        r is Err ==> r->Err_0 == XlsxError::IoError,
{
    let ghost pv = part_views(parts@);
    let mut out: Vec<u8> = Vec::new();
    let mut dir: Vec<u8> = Vec::new();
    let mut fit: bool = true;
    let mut i: usize = 0;
    while i < parts.len()
        invariant
            i <= parts@.len(),
            pv == part_views(parts@),
            out@ == records(pv, i as int),
            dir@ == directory(pv, i as int),
            fit == parts_fit(pv, i as int),
        decreases parts@.len() - i,
    {
        let part = &parts[i];
        assert(pv[i as int] == part@);
        let crc = checksum(part.data.as_slice());
        let packed = deflate(part.data.as_slice(), DEFLATE_LEVEL);
        if part.name.len() as u64 > MAX_SHORT || part.data.len() as u64 > MAX_LONG {
            fit = false;
        }
        append_central_record(
            &mut dir,
            part.name.as_slice(),
            crc,
            part.data.len(),
            packed.len(),
            out.len(),
        );
        append_local_record(
            &mut out,
            part.name.as_slice(),
            crc,
            part.data.len(),
            packed.as_slice(),
        );
        i += 1;
    }
    let offset = out.len();
    let size = dir.len();
    if !fit || parts.len() as u64 > MAX_SHORT || offset as u64 > MAX_LONG || size as u64
        > MAX_LONG - offset as u64 {
        return Err(XlsxError::IoError);
    }
    append(&mut out, dir.as_slice());
    append_end_record(&mut out, parts.len(), size, offset);
    Ok(out)
}

} // verus!
