//! Streaming content hash of a file, and its text form in install records.
//!
//! The hash is a 64-bit wyhash with seed zero. A fixed preamble is fed to the
//! hasher before any content, so that even an empty file is hashed over a
//! non-empty input.
use crate::defines::{always_chars, defer_chars, directory_chars};
use crate::hexcodec::{hex_encode, hex_encode_spec, lemma_hex_encode_injective};
use std::hash::Hasher;
use vstd::bytes::{
    lemma_auto_spec_u64_to_from_le_bytes, spec_u64_to_le_bytes, u64_to_le_bytes,
};
use vstd::prelude::*;
use wyhash::WyHash;

verus! {

/// Makes `wyhash::WyHash`, the streaming hasher, known as an opaque type.
#[verifier::external_type_specification]
#[verifier::external_body]
pub struct ExWyHash(WyHash);

/// The running state of a `WyHash`: its field `h`.
pub uninterp spec fn hasher_h(h: WyHash) -> u64;

/// The number of bytes a `WyHash` has been fed: its field `size`.
pub uninterp spec fn hasher_size(h: WyHash) -> u64;

/// The running state after one `write` of `bytes` onto the state `state`.
pub uninterp spec fn wy_absorb(state: u64, bytes: Seq<u8>) -> u64;

/// The value that `finish` returns for a hasher that has been fed `size`
/// bytes and stands in the state `state`.
pub uninterp spec fn wy_finalize(size: u64, state: u64) -> u64;

/// The number of bytes in all of `chunks`.
pub open spec fn total_len(chunks: Seq<Seq<u8>>) -> nat
    decreases chunks.len(),
{
    if chunks.len() == 0 {
        0
    } else {
        total_len(chunks.drop_last()) + chunks.last().len()
    }
}

/// The running state after `chunks` were written, one by one, onto the
/// state `state`.
pub open spec fn absorb_all(state: u64, chunks: Seq<Seq<u8>>) -> u64
    decreases chunks.len(),
{
    if chunks.len() == 0 {
        state
    } else {
        wy_absorb(absorb_all(state, chunks.drop_last()), chunks.last())
    }
}

/// The value that `finish` returns for a hasher created with `seed` and fed
/// `chunks` in order. It depends on how the input was cut into chunks, not
/// only on the bytes.
pub open spec fn wyhash_digest(seed: u64, chunks: Seq<Seq<u8>>) -> u64 {
    wy_finalize(total_len(chunks) as u64, absorb_all(seed, chunks))
}

/// Calls `WyHash::with_seed`. Trusted: the new hasher stands in the state
/// `seed` and has been fed no byte.
#[verifier::external_body]
fn wy_with_seed(seed: u64) -> (h: WyHash)
    ensures
        hasher_h(h) == seed,
        hasher_size(h) == 0,
{
    WyHash::with_seed(seed)
}

/// Calls `Hasher::write` of `WyHash`. Trusted: the new state is a function
/// of the old state and of `bytes`, and the count of bytes grows by their
/// number. The count is kept in a `u64`, which must not overflow.
#[verifier::external_body]
fn wy_write(h: &mut WyHash, bytes: &[u8])
    requires
        hasher_size(*old(h)) + bytes@.len() <= u64::MAX,
    ensures
        hasher_h(*final(h)) == wy_absorb(hasher_h(*old(h)), bytes@),
        hasher_size(*final(h)) == hasher_size(*old(h)) + bytes@.len(),
{
    h.write(bytes)
}

/// Calls `Hasher::finish` of `WyHash`. Trusted: the result is a function of
/// the count of bytes and of the state.
#[verifier::external_body]
fn wy_finish(h: &WyHash) -> (r: u64)
    ensures
        r == wy_finalize(hasher_size(*h), hasher_h(*h)),
{
    h.finish()
}

/// The preamble that is hashed before any content: the ASCII text
/// `HASH_START`.
pub open spec fn preamble() -> Seq<u8> {
    seq![72u8, 65u8, 83u8, 72u8, 95u8, 83u8, 84u8, 65u8, 82u8, 84u8]
}

/// The content hash of a file that was read as `chunks`, in order.
pub open spec fn file_hash_spec(chunks: Seq<Seq<u8>>) -> u64 {
    wyhash_digest(0, seq![preamble()] + chunks)
}

/// The text under which a content hash is stored: the hexadecimal form of
/// its eight bytes, least significant first.
pub open spec fn hash_text_spec(hash: u64) -> Seq<char> {
    hex_encode_spec(spec_u64_to_le_bytes(hash))
}

/// Whether `text` is one of the three sentinels that stand in for a hash.
pub open spec fn is_sentinel(text: Seq<char>) -> bool {
    text == defer_chars() || text == always_chars() || text == directory_chars()
}

/// `total_len` of a sequence with one more chunk.
pub proof fn lemma_total_len_push(chunks: Seq<Seq<u8>>, chunk: Seq<u8>)
    ensures
        total_len(chunks.push(chunk)) == total_len(chunks) + chunk.len(),
{
    assert(chunks.push(chunk).drop_last() =~= chunks);
}

/// Every chunk is at most as long as the whole, and so is every prefix.
pub proof fn lemma_total_len_prefix(chunks: Seq<Seq<u8>>, n: int)
    requires
        0 <= n <= chunks.len(),
    ensures
        total_len(chunks.take(n)) <= total_len(chunks),
    decreases chunks.len(),
{
    if n < chunks.len() {
        lemma_total_len_prefix(chunks.drop_last(), n);
        assert(chunks.drop_last().take(n) =~= chunks.take(n));
    } else {
        assert(chunks.take(n) =~= chunks);
    }
}

/// A hasher for the content of one file, fed chunk by chunk as it is read.
pub struct FileHasher {
    inner: WyHash,
    fed: Ghost<Seq<Seq<u8>>>,
}

impl FileHasher {
    /// The chunks of file content fed so far.
    pub closed spec fn chunks(&self) -> Seq<Seq<u8>> {
        self.fed@
    }

    /// The hasher was created by [`FileHasher::new`] and fed through
    /// [`FileHasher::update`]: it stands in the state that the preamble and
    /// the chunks fed so far lead to from the seed zero.
    pub closed spec fn wf(&self) -> bool {
        &&& hasher_h(self.inner) == absorb_all(0, seq![preamble()] + self.fed@)
        &&& hasher_size(self.inner) == 10 + total_len(self.fed@)
    }

    /// A hasher that has seen no file content yet.
    pub fn new() -> (h: Self)
        ensures
            h.wf(),
            h.chunks() == Seq::<Seq<u8>>::empty(),
    {
        let mut inner = wy_with_seed(0);
        let pre: Vec<u8> = vec![72u8, 65u8, 83u8, 72u8, 95u8, 83u8, 84u8, 65u8, 82u8, 84u8];
        proof {
            assert(pre@ =~= preamble());
        }
        wy_write(&mut inner, pre.as_slice());
        let h = FileHasher { inner, fed: Ghost(Seq::empty()) };
        proof {
            let all = seq![preamble()] + h.fed@;
            assert(all =~= seq![preamble()]);
            assert(all.drop_last() =~= Seq::<Seq<u8>>::empty());
            assert(absorb_all(0, all.drop_last()) == 0);
            assert(total_len(h.fed@) == 0);
        }
        h
    }

    /// Feeds the next chunk of the file.
    pub fn update(&mut self, chunk: &[u8])
        requires
            old(self).wf(),
            10 + total_len(old(self).chunks()) + chunk@.len() <= u64::MAX,
        ensures
            final(self).wf(),
            final(self).chunks() == old(self).chunks().push(chunk@),
    {
        let ghost before = self.fed@;
        wy_write(&mut self.inner, chunk);
        self.fed = Ghost(before.push(chunk@));
        proof {
            let all = seq![preamble()] + before.push(chunk@);
            assert(all.drop_last() =~= seq![preamble()] + before);
            assert(all.last() == chunk@);
            lemma_total_len_push(before, chunk@);
        }
    }

    /// The hash of the content fed so far, as a number and as its eight
    /// bytes, least significant first.
    pub fn finish(&self) -> (r: (u64, Vec<u8>))
        requires
            self.wf(),
        ensures
            r.0 == file_hash_spec(self.chunks()),
            r.1@ == spec_u64_to_le_bytes(r.0),
    {
        proof {
            lemma_total_len_with_preamble(self.fed@);
        }
        let res = wy_finish(&self.inner);
        (res, u64_to_le_bytes(res))
    }
}

/// The preamble adds ten bytes to what the hasher has counted.
pub proof fn lemma_total_len_with_preamble(chunks: Seq<Seq<u8>>)
    ensures
        total_len(seq![preamble()] + chunks) == 10 + total_len(chunks),
    decreases chunks.len(),
{
    let all = seq![preamble()] + chunks;
    if chunks.len() == 0 {
        assert(all =~= seq![preamble()]);
        assert(all.drop_last() =~= Seq::<Seq<u8>>::empty());
        assert(total_len(all.drop_last()) == 0);
    } else {
        lemma_total_len_with_preamble(chunks.drop_last());
        assert(all.drop_last() =~= seq![preamble()] + chunks.drop_last());
        assert(all.last() == chunks.last());
    }
}

/// The byte strings that a vector of buffers holds.
pub open spec fn chunk_views(chunks: Seq<Vec<u8>>) -> Seq<Seq<u8>> {
    Seq::new(chunks.len(), |i: int| chunks[i]@)
}

/// Hashes a file whose content was read as `chunks`, in the order and with
/// the cuts in which it was read.
pub fn get_file_hash(chunks: &Vec<Vec<u8>>) -> (r: (u64, Vec<u8>))
    requires
        10 + total_len(chunk_views(chunks@)) <= u64::MAX,
    ensures
        r.0 == file_hash_spec(chunk_views(chunks@)),
        r.1@ == spec_u64_to_le_bytes(r.0),
{
    let mut hasher = FileHasher::new();
    let mut i: usize = 0;
    while i < chunks.len()
        invariant
            0 <= i <= chunks.len(),
            hasher.wf(),
            hasher.chunks() == chunk_views(chunks@).take(i as int),
            10 + total_len(chunk_views(chunks@)) <= u64::MAX,
        decreases chunks.len() - i,
    {
        proof {
            lemma_total_len_prefix(chunk_views(chunks@), i as int + 1);
            assert(chunk_views(chunks@).take(i as int + 1) =~= chunk_views(chunks@).take(
                i as int,
            ).push(chunks[i as int]@));
            lemma_total_len_push(chunk_views(chunks@).take(i as int), chunks[i as int]@);
        }
        hasher.update(chunks[i].as_slice());
        i += 1;
    }
    proof {
        assert(chunk_views(chunks@).take(i as int) =~= chunk_views(chunks@));
    }
    hasher.finish()
}

/// The text under which `hash` is stored in an install record.
pub fn hash_text(hash: u64) -> (r: String)
    ensures
        r@ == hash_text_spec(hash),
{
    let bytes = u64_to_le_bytes(hash);
    hex_encode(bytes.as_slice())
}

/// The text of a content hash has sixteen characters, so it is none of the
/// sentinels: a stored hash is never mistaken for "always replace",
/// "directory" or "not hashed yet", whatever the file holds.
pub proof fn lemma_hash_text_not_sentinel(hash: u64)
    ensures
        hash_text_spec(hash).len() == 16,
        !is_sentinel(hash_text_spec(hash)),
{
    lemma_auto_spec_u64_to_from_le_bytes();
    assert(spec_u64_to_le_bytes(hash).len() == 8);
}

/// Two hashes with the same text are the same hash.
pub proof fn lemma_hash_text_injective(a: u64, b: u64)
    requires
        hash_text_spec(a) == hash_text_spec(b),
    ensures
        a == b,
{
    lemma_auto_spec_u64_to_from_le_bytes();
    lemma_hex_encode_injective(spec_u64_to_le_bytes(a), spec_u64_to_le_bytes(b));
}

} // verus!
