//! CRC-32 of an entry whose bytes arrive in chunks.
use vstd::prelude::*;

verus! {

/// The CRC-32 (IEEE) of the bytes hashed so far, `crc`, continued over `data`.
pub uninterp spec fn crc32_extend(crc: u32, data: Seq<u8>) -> u32;

/// Relies on crc32fast::Hasher: `new_with_initial` resumes from a running
/// CRC-32, `update` feeds `data`, `finalize` returns the result, which depends
/// on the two arguments alone.
#[verifier::external_body]
pub(crate) fn crc32_update(crc: u32, data: &[u8]) -> (r: u32)
    ensures
        r == crc32_extend(crc, data@),
{
    let mut hasher = crc32fast::Hasher::new_with_initial(crc);
    hasher.update(data);
    hasher.finalize()
}

/// All chunks laid end to end.
pub open spec fn flatten(chunks: Seq<Seq<u8>>) -> Seq<u8>
    decreases chunks.len(),
{
    if chunks.len() == 0 {
        Seq::empty()
    } else {
        flatten(chunks.drop_last()) + chunks.last()
    }
}

/// CRC-32 of an entry fed chunk by chunk, starting from the CRC-32 of no bytes.
pub open spec fn crc_of_chunks(chunks: Seq<Seq<u8>>) -> u32
    decreases chunks.len(),
{
    if chunks.len() == 0 {
        0
    } else {
        crc32_extend(crc_of_chunks(chunks.drop_last()), chunks.last())
    }
}

pub proof fn lemma_flatten_push(chunks: Seq<Seq<u8>>, c: Seq<u8>)
    ensures
        flatten(chunks.push(c)) == flatten(chunks) + c,
        crc_of_chunks(chunks.push(c)) == crc32_extend(crc_of_chunks(chunks), c),
{
    assert(chunks.push(c).drop_last() =~= chunks);
}

} // verus!
