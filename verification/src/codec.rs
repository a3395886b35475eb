//! How an embedding is kept in a column of bytes, and the hash that places content in the index.
//!
//! An embedding is a vector of single-precision numbers. Each component is held as the bits of
//! its IEEE 754 representation, so the library handles whole numbers only.
use vstd::bytes::*;
use vstd::prelude::*;

verus! {

/// The bytes that keep an embedding: the number of components as eight bytes, then four bytes
/// for each component, all with the least significant byte first.
pub open spec fn embedding_blob(e: Seq<u32>) -> Seq<u8> {
    spec_u64_to_le_bytes(e.len() as u64) + Seq::new(
        4 * e.len(),
        |i: int| spec_u32_to_le_bytes(e[i / 4])[i % 4],
    )
}

/// The embedding that a column of bytes keeps: none where bytes are missing. Bytes behind the
/// last component do not count.
pub open spec fn blob_embedding(b: Seq<u8>) -> Option<Seq<u32>> {
    if b.len() < 8 {
        None
    } else {
        let n = spec_u64_from_le_bytes(b.take(8));
        if 8 + 4 * n > b.len() {
            None
        } else {
            Some(
                Seq::new(
                    n as nat,
                    |i: int| spec_u32_from_le_bytes(b.subrange(8 + 4 * i, 12 + 4 * i)),
                ),
            )
        }
    }
}

/// What is read back from the bytes of an embedding is that embedding.
pub proof fn lemma_embedding_round_trip(e: Seq<u32>)
    requires
        e.len() <= u64::MAX,
    ensures
        blob_embedding(embedding_blob(e)) == Some(e),
{
    lemma_auto_spec_u64_to_from_le_bytes();
    lemma_auto_spec_u32_to_from_le_bytes();
    let b = embedding_blob(e);
    let n = e.len() as u64;
    assert(spec_u64_to_le_bytes(n).len() == 8);
    assert(b.take(8) =~= spec_u64_to_le_bytes(n));
    assert(spec_u64_from_le_bytes(b.take(8)) == n);
    let back = blob_embedding(b)->0;
    assert forall|i: int| 0 <= i < e.len() implies back[i] == e[i] by {
        let word = spec_u32_to_le_bytes(e[i]);
        assert(word.len() == 4);
        let part = b.subrange(8 + 4 * i, 12 + 4 * i);
        assert forall|j: int| 0 <= j < 4 implies part[j] == word[j] by {
            assert((4 * i + j) / 4 == i && (4 * i + j) % 4 == j);
        }
        assert(part =~= word);
    }
    assert(back =~= e);
}

/// `bincode::serialize` on a vector of 32-bit numbers: it writes the length as a 64-bit number
/// and then every number, each with its least significant byte first. It never fails: there is
/// no size limit, and it writes to memory.
#[verifier::external_body]
pub(crate) fn encode_embedding(e: &Vec<u32>) -> (res: Vec<u8>)
    ensures
        res@ == embedding_blob(e@),
{
    bincode::serialize(e).unwrap()
}

/// What `bincode` says of bytes that keep no embedding, on a machine whose largest size is
/// `largest`: it names that size where the number of components does not fit it.
pub uninterp spec fn blob_error_of(bytes: Seq<u8>, largest: usize) -> Seq<char>;

/// `bincode::deserialize` into a vector of 32-bit numbers: it reads the layout above, fails
/// where bytes are missing, and leaves bytes behind the last number alone. The error is the text
/// of its error.
#[verifier::external_body]
pub(crate) fn decode_embedding(blob: &Vec<u8>) -> (res: Result<Vec<u32>, String>)
    ensures
        match res {
            Ok(e) => blob_embedding(blob@) == Some(e@),
            Err(text) => blob_embedding(blob@) is None && text@ == blob_error_of(blob@, usize::MAX),
        },
{
    bincode::deserialize(blob).map_err(|e| e.to_string())
}

/// The value of `farmhash::hash64` on the given bytes.
pub uninterp spec fn farmhash64(bytes: Seq<u8>) -> u64;

/// `farmhash::hash64` computes its value from the bytes alone, with no seed.
pub assume_specification[ farmhash::hash64 ](s: &[u8]) -> (res: u64)
    ensures
        res == farmhash64(s@),
;

} // verus!
