//! Byte layout of a ZIP archive whose entries are stored uncompressed and
//! whose sizes and checksums follow the data in a data descriptor.
use vstd::prelude::*;

verus! {

pub const LOCAL_HEADER_SIG: u32 = 0x04034b50;

pub const DATA_DESCRIPTOR_SIG: u32 = 0x08074b50;

pub const CENTRAL_HEADER_SIG: u32 = 0x02014b50;

pub const END_OF_DIRECTORY_SIG: u32 = 0x06054b50;

/// Version 2.0 of the format: enough for stored entries with a data descriptor.
pub const ZIP_VERSION: u16 = 20;

/// General-purpose flags: bit 3 (sizes and CRC-32 follow the data) and
/// bit 11 (the name is UTF-8).
pub const ENTRY_FLAGS: u16 = 0x0808;

/// Compression method 0: stored.
pub const METHOD_STORED: u16 = 0;

/// MS-DOS time 00:00:00.
pub const DOS_TIME: u16 = 0;

/// MS-DOS date 1980-01-01, the earliest the format can express.
pub const DOS_DATE: u16 = 0x0021;

/// Length of a local file header without its name.
pub const LOCAL_HEADER_LEN: u64 = 30;

/// Length of a data descriptor with its signature.
pub const DATA_DESCRIPTOR_LEN: u64 = 16;

/// Length of a central directory record without its name.
pub const CENTRAL_HEADER_LEN: u64 = 46;

/// Length of the end-of-central-directory record without a comment.
pub const END_RECORD_LEN: u64 = 22;

/// Largest value of a 32-bit field of the format.
pub const MAX_U32: u64 = 0xffff_ffff;

/// Largest value of a 16-bit field of the format.
pub const MAX_U16: u64 = 0xffff;

pub open spec fn le16(v: u16) -> Seq<u8> {
    seq![(v % 256) as u8, (v / 256) as u8]
}

pub open spec fn le32(v: u32) -> Seq<u8> {
    seq![
        (v % 256) as u8,
        ((v / 256) % 256) as u8,
        ((v / 65536) % 256) as u8,
        (v / 16777216) as u8,
    ]
}

/// Local file header of a stored entry, with CRC-32 and sizes left zero.
#[verifier::opaque]
pub open spec fn local_header(name: Seq<u8>) -> Seq<u8> {
    le32(LOCAL_HEADER_SIG) + le16(ZIP_VERSION) + le16(ENTRY_FLAGS) + le16(METHOD_STORED) + le16(
        DOS_TIME,
    ) + le16(DOS_DATE) + le32(0) + le32(0) + le32(0) + le16(name.len() as u16) + le16(0) + name
}

/// Data descriptor that follows the bytes of a stored entry.
#[verifier::opaque]
pub open spec fn data_descriptor(crc: u32, size: u32) -> Seq<u8> {
    le32(DATA_DESCRIPTOR_SIG) + le32(crc) + le32(size) + le32(size)
}

/// Central directory record of a stored entry whose local header starts at `offset`.
#[verifier::opaque]
pub open spec fn central_record(name: Seq<u8>, crc: u32, size: u32, offset: u32) -> Seq<u8> {
    le32(CENTRAL_HEADER_SIG) + le16(ZIP_VERSION) + le16(ZIP_VERSION) + le16(ENTRY_FLAGS) + le16(
        METHOD_STORED,
    ) + le16(DOS_TIME) + le16(DOS_DATE) + le32(crc) + le32(size) + le32(size) + le16(
        name.len() as u16,
    ) + le16(0) + le16(0) + le16(0) + le16(0) + le32(0) + le32(offset) + name
}

/// End-of-central-directory record of a single-disk archive without a comment.
#[verifier::opaque]
pub open spec fn end_record(count: u16, dir_size: u32, dir_offset: u32) -> Seq<u8> {
    le32(END_OF_DIRECTORY_SIG) + le16(0) + le16(0) + le16(count) + le16(count) + le32(dir_size)
        + le32(dir_offset) + le16(0)
}

pub proof fn lemma_central_record_len(name: Seq<u8>, crc: u32, size: u32, offset: u32)
    ensures
        central_record(name, crc, size, offset).len() == CENTRAL_HEADER_LEN + name.len(),
{
    reveal(central_record);
}

pub fn push_u16(out: &mut Vec<u8>, v: u16)
    ensures
        final(out)@ == old(out)@ + le16(v),
{
    out.push((v % 256) as u8);
    out.push((v / 256) as u8);
    assert(final(out)@ =~= old(out)@ + le16(v));
}

pub fn push_u32(out: &mut Vec<u8>, v: u32)
    ensures
        final(out)@ == old(out)@ + le32(v),
{
    out.push((v % 256) as u8);
    out.push(((v / 256) % 256) as u8);
    out.push(((v / 65536) % 256) as u8);
    out.push((v / 16777216) as u8);
    assert(final(out)@ =~= old(out)@ + le32(v));
}

pub fn push_bytes(out: &mut Vec<u8>, bytes: &[u8])
    ensures
        final(out)@ == old(out)@ + bytes@,
{
    let ghost start = out@;
    let mut i: usize = 0;
    while i < bytes.len()
        invariant
            i <= bytes@.len(),
            out@ == start + bytes@.subrange(0, i as int),
        decreases bytes@.len() - i,
    {
        out.push(bytes[i]);
        i = i + 1;
        assert(out@ =~= start + bytes@.subrange(0, i as int));
    }
    assert(bytes@.subrange(0, i as int) =~= bytes@);
}

/// Bytes of the local file header for an entry named `name`.
pub fn local_header_bytes(name: &[u8]) -> (r: Vec<u8>)
    requires
        name@.len() <= MAX_U16,
    ensures
        r@ == local_header(name@),
        r@.len() == LOCAL_HEADER_LEN + name@.len(),
{
    let mut out: Vec<u8> = Vec::new();
    push_u32(&mut out, LOCAL_HEADER_SIG);
    push_u16(&mut out, ZIP_VERSION);
    push_u16(&mut out, ENTRY_FLAGS);
    push_u16(&mut out, METHOD_STORED);
    push_u16(&mut out, DOS_TIME);
    push_u16(&mut out, DOS_DATE);
    push_u32(&mut out, 0);
    push_u32(&mut out, 0);
    push_u32(&mut out, 0);
    push_u16(&mut out, name.len() as u16);
    push_u16(&mut out, 0);
    push_bytes(&mut out, name);
    reveal(local_header);
    assert(out@ =~= local_header(name@));
    out
}

/// Bytes of the data descriptor for an entry with the given CRC-32 and size.
pub fn data_descriptor_bytes(crc: u32, size: u32) -> (r: Vec<u8>)
    ensures
        r@ == data_descriptor(crc, size),
        r@.len() == DATA_DESCRIPTOR_LEN,
{
    let mut out: Vec<u8> = Vec::new();
    push_u32(&mut out, DATA_DESCRIPTOR_SIG);
    push_u32(&mut out, crc);
    push_u32(&mut out, size);
    push_u32(&mut out, size);
    reveal(data_descriptor);
    assert(out@ =~= data_descriptor(crc, size));
    out
}

/// Appends the central directory record of one entry to `out`.
pub fn push_central_record(out: &mut Vec<u8>, name: &[u8], crc: u32, size: u32, offset: u32)
    requires
        name@.len() <= MAX_U16,
    ensures
        final(out)@ == old(out)@ + central_record(name@, crc, size, offset),
        central_record(name@, crc, size, offset).len() == CENTRAL_HEADER_LEN + name@.len(),
{
    let ghost start = out@;
    let mut rec: Vec<u8> = Vec::new();
    push_u32(&mut rec, CENTRAL_HEADER_SIG);
    push_u16(&mut rec, ZIP_VERSION);
    push_u16(&mut rec, ZIP_VERSION);
    push_u16(&mut rec, ENTRY_FLAGS);
    push_u16(&mut rec, METHOD_STORED);
    push_u16(&mut rec, DOS_TIME);
    push_u16(&mut rec, DOS_DATE);
    push_u32(&mut rec, crc);
    push_u32(&mut rec, size);
    push_u32(&mut rec, size);
    push_u16(&mut rec, name.len() as u16);
    push_u16(&mut rec, 0);
    push_u16(&mut rec, 0);
    push_u16(&mut rec, 0);
    push_u16(&mut rec, 0);
    push_u32(&mut rec, 0);
    push_u32(&mut rec, offset);
    push_bytes(&mut rec, name);
    reveal(central_record);
    assert(rec@ =~= central_record(name@, crc, size, offset));
    push_bytes(out, rec.as_slice());
}

/// Bytes of the end-of-central-directory record.
pub fn end_record_bytes(count: u16, dir_size: u32, dir_offset: u32) -> (r: Vec<u8>)
    ensures
        r@ == end_record(count, dir_size, dir_offset),
        r@.len() == END_RECORD_LEN,
{
    let mut out: Vec<u8> = Vec::new();
    push_u32(&mut out, END_OF_DIRECTORY_SIG);
    push_u16(&mut out, 0);
    push_u16(&mut out, 0);
    push_u16(&mut out, count);
    push_u16(&mut out, count);
    push_u32(&mut out, dir_size);
    push_u32(&mut out, dir_offset);
    push_u16(&mut out, 0);
    reveal(end_record);
    assert(out@ =~= end_record(count, dir_size, dir_offset));
    out
}

} // verus!
