use vstd::prelude::*;

use crate::error::PipelineError;

verus! {

/// Bytes of payload a single transport chunk ("blob") can carry: the blob
/// holds 4096 field elements, and each element carries 31 payload bytes so
/// that its 32-byte big-endian form stays below the field modulus.
pub const CHUNK_CAPACITY: usize = 126976;

/// Byte length of one encoded blob: 4096 field elements of 32 bytes each.
pub const BLOB_BYTES: usize = 131072;

/// The transport's hard limit on chunks attached to one transaction.
pub const MAX_CHUNKS: usize = 6;

/// Data-carrying gas the chain charges for each chunk of a transaction.
pub const DATA_GAS_PER_CHUNK: u64 = 131072;

/// The commitment the transport requires for a blob's bytes. It is computed
/// by an outside library; this library states only that it is a function of
/// the blob bytes alone.
pub uninterp spec fn kzg_commitment_of(blob: Seq<u8>) -> Seq<u8>;

/// The byte at position `i` of the blob encoding of `payload`: every 32nd
/// byte is zero (so each 32-byte word is a canonical field element), and the
/// remaining 31 bytes of each word carry the payload, zero-padded at the end.
pub open spec fn blob_byte(payload: Seq<u8>, i: int) -> u8 {
    if i % 32 == 0 {
        0u8
    } else {
        let p = 31 * (i / 32) + (i % 32) - 1;
        if p < payload.len() {
            payload[p]
        } else {
            0u8
        }
    }
}

/// The full blob encoding of a chunk payload.
pub open spec fn blob_encoding(payload: Seq<u8>) -> Seq<u8> {
    Seq::new(BLOB_BYTES as nat, |i: int| blob_byte(payload, i))
}

/// How many chunks a payload of `len` bytes needs: zero for an empty
/// payload, and one more for each started chunk of `CHUNK_CAPACITY` bytes.
pub open spec fn chunk_count(len: nat) -> nat
    decreases len,
{
    if len == 0 {
        0
    } else if len <= CHUNK_CAPACITY {
        1
    } else {
        1 + chunk_count((len - CHUNK_CAPACITY) as nat)
    }
}

/// `chunk_count` is the ceiling of `len / CHUNK_CAPACITY`.
pub proof fn lemma_chunk_count_is_ceil(len: nat)
    ensures
        chunk_count(len) == (len + CHUNK_CAPACITY - 1) / (CHUNK_CAPACITY as int),
    decreases len,
{
    if len > CHUNK_CAPACITY {
        lemma_chunk_count_is_ceil((len - CHUNK_CAPACITY) as nat);
        assert((len + CHUNK_CAPACITY - 1) / (CHUNK_CAPACITY as int) == (len - 1)
            / (CHUNK_CAPACITY as int) + 1) by {
            vstd::arithmetic::div_mod::lemma_div_plus_one(len - 1, CHUNK_CAPACITY as int);
        };
    }
}

/// A payload needing at most `n` chunks' worth of bytes packs into at most
/// `n` chunks.
pub proof fn lemma_chunk_count_le(len: nat, n: nat)
    requires
        len <= n * CHUNK_CAPACITY,
    ensures
        chunk_count(len) <= n,
    decreases n,
{
    if len > CHUNK_CAPACITY {
        lemma_chunk_count_le((len - CHUNK_CAPACITY) as nat, (n - 1) as nat);
    }
}

/// The concatenation, in order, of a sequence of chunk payloads.
pub open spec fn payload_concat(payloads: Seq<Seq<u8>>) -> Seq<u8>
    decreases payloads.len(),
{
    if payloads.len() == 0 {
        Seq::empty()
    } else {
        payload_concat(payloads.drop_last()) + payloads.last()
    }
}

/// One transport chunk: a slice of the packaged bytes together with the
/// commitment the transport requires for its blob encoding.
#[derive(Debug, PartialEq, Eq)]
pub struct Chunk {
    /// The bytes this chunk carries, at most `CHUNK_CAPACITY` of them.
    pub payload: Vec<u8>,
    /// The transport commitment to this chunk's blob encoding.
    pub commitment: Vec<u8>,
}

/// An ordered sequence of chunks covering one packaged byte buffer.
#[derive(Debug, PartialEq, Eq)]
pub struct Sidecar {
    /// The chunks, in payload order.
    pub chunks: Vec<Chunk>,
}

/// The payloads of a chunk sequence, in order.
pub open spec fn payloads_of(chunks: Seq<Chunk>) -> Seq<Seq<u8>> {
    chunks.map(|k: int, c: Chunk| c.payload@)
}

impl Sidecar {
    /// The chunk payloads, in order.
    pub open spec fn payloads(self) -> Seq<Seq<u8>> {
        payloads_of(self.chunks@)
    }

    /// The bytes this sidecar carries: its chunk payloads concatenated in
    /// order.
    pub open spec fn payload(self) -> Seq<u8> {
        payload_concat(self.payloads())
    }

    /// A well-formed sidecar: no more chunks than the transport allows,
    /// every chunk filled to capacity except the last, no empty chunk, and
    /// each commitment computed from its own chunk's blob encoding.
    pub open spec fn wf(self) -> bool {
        &&& self.chunks@.len() <= MAX_CHUNKS
        &&& forall|k: int|
            0 <= k < self.chunks@.len() ==> 1 <= (#[trigger] self.chunks@[k]).payload@.len()
                <= CHUNK_CAPACITY
        &&& forall|k: int|
            0 <= k < self.chunks@.len() - 1 ==> (#[trigger] self.chunks@[k]).payload@.len()
                == CHUNK_CAPACITY
        &&& forall|k: int|
            0 <= k < self.chunks@.len() ==> (#[trigger] self.chunks@[k]).commitment@
                == kzg_commitment_of(blob_encoding(self.chunks@[k].payload@))
    }

    /// The data-carrying gas the chain is expected to charge for this
    /// sidecar: the per-chunk constant once per chunk.
    pub open spec fn spec_expected_data_gas(self) -> int {
        self.chunks@.len() * DATA_GAS_PER_CHUNK
    }

    /// The data-carrying gas expected for this sidecar's transaction.
    pub fn expected_data_gas(&self) -> (r: u64)
        requires
            self.chunks@.len() <= MAX_CHUNKS,
        ensures
            r == self.spec_expected_data_gas(),
    {
        (self.chunks.len() as u64) * DATA_GAS_PER_CHUNK
    }
}

/// Relies on c-kzg's `blob_to_kzg_commitment` under the Ethereum mainnet
/// trusted setup, reached through alloy's EIP-4844 KZG settings: the
/// commitment is 48 bytes and a function of the blob bytes alone, and the
/// call succeeds because every 32-byte word with a zero leading byte is a
/// canonical field element.
#[verifier::external_body]
fn kzg_commit(blob: &Vec<u8>) -> (r: Vec<u8>)
    requires
        blob@.len() == BLOB_BYTES,
        forall|i: int| 0 <= i < BLOB_BYTES && i % 32 == 0 ==> blob@[i] == 0u8,
    ensures
        r@ == kzg_commitment_of(blob@),
        r@.len() == 48,
{
    let b = c_kzg::Blob::from_bytes(blob.as_slice()).unwrap();
    let settings = alloy::eips::eip4844::env_settings::EnvKzgSettings::Default;
    let commitment = settings.get().blob_to_kzg_commitment(&b).unwrap();
    commitment.to_vec()
}

/// Encodes a chunk payload as one blob: each 32-byte word starts with a zero
/// byte followed by 31 payload bytes, with zero padding after the payload.
pub fn encode_blob(payload: &Vec<u8>) -> (r: Vec<u8>)
    requires
        payload@.len() <= CHUNK_CAPACITY,
    ensures
        r@ == blob_encoding(payload@),
{
    let mut r: Vec<u8> = Vec::new();
    let mut i: usize = 0;
    while i < BLOB_BYTES
        invariant
            payload@.len() <= CHUNK_CAPACITY,
            i == r@.len() <= BLOB_BYTES,
            forall|k: int| 0 <= k < i ==> r@[k] == blob_byte(payload@, k),
        decreases BLOB_BYTES - i,
    {
        let b: u8 = if i % 32 == 0 {
            0u8
        } else {
            let p: usize = 31 * (i / 32) + (i % 32) - 1;
            if p < payload.len() {
                payload[p]
            } else {
                0u8
            }
        };
        r.push(b);
        i = i + 1;
    }
    proof {
        assert(r@ =~= blob_encoding(payload@));
    }
    r
}

/// Packages compressed proof bytes into a sidecar: the bytes are split, in
/// order, into chunks of `CHUNK_CAPACITY` bytes (the last chunk holding the
/// remainder), and each chunk is paired with the transport commitment to its
/// blob encoding. Input longer than the transport's aggregate capacity of
/// `MAX_CHUNKS` full chunks is rejected whole with `Oversize`; no partial
/// sidecar is produced.
pub fn package(bytes: &Vec<u8>) -> (r: Result<Sidecar, PipelineError>)
    ensures
        r is Ok <==> bytes@.len() <= MAX_CHUNKS * CHUNK_CAPACITY,
        r is Err ==> r->Err_0 == PipelineError::Oversize,
        r is Ok ==> {
            let s = r->Ok_0;
            &&& s.wf()
            &&& s.payload() == bytes@
            &&& s.chunks@.len() == chunk_count(bytes@.len() as nat)
            &&& chunked_shape(s.chunks@, bytes@)
        },
{
    if bytes.len() > MAX_CHUNKS * CHUNK_CAPACITY {
        return Err(PipelineError::Oversize);
    }
    let mut chunks: Vec<Chunk> = Vec::new();
    let mut i: usize = 0;
    while i < bytes.len()
        invariant
            i <= bytes@.len() <= MAX_CHUNKS * CHUNK_CAPACITY,
            chunks@.len() + chunk_count((bytes@.len() - i) as nat) == chunk_count(
                bytes@.len() as nat,
            ),
            i < bytes@.len() ==> i == chunks@.len() * CHUNK_CAPACITY,
            payload_concat(chunks@.map(|k: int, c: Chunk| c.payload@)) == bytes@.subrange(
                0,
                i as int,
            ),
            forall|k: int|
                0 <= k < chunks@.len() ==> 1 <= (#[trigger] chunks@[k]).payload@.len()
                    <= CHUNK_CAPACITY,
            forall|k: int|
                0 <= k < chunks@.len() - 1 ==> (#[trigger] chunks@[k]).payload@.len()
                    == CHUNK_CAPACITY,
            i < bytes@.len() ==> forall|k: int|
                0 <= k < chunks@.len() ==> (#[trigger] chunks@[k]).payload@.len()
                    == CHUNK_CAPACITY,
            forall|k: int|
                0 <= k < chunks@.len() ==> (#[trigger] chunks@[k]).commitment@
                    == kzg_commitment_of(blob_encoding(chunks@[k].payload@)),
        decreases bytes@.len() - i,
    {
        let take: usize = if bytes.len() - i < CHUNK_CAPACITY {
            bytes.len() - i
        } else {
            CHUNK_CAPACITY
        };
        let mut payload: Vec<u8> = Vec::new();
        let mut j: usize = 0;
        while j < take
            invariant
                i + take <= bytes@.len() <= MAX_CHUNKS * CHUNK_CAPACITY,
                j <= take,
                payload@ =~= bytes@.subrange(i as int, i + j as int),
            decreases take - j,
        {
            payload.push(bytes[i + j]);
            proof {
                assert(payload@ =~= bytes@.subrange(i as int, i + j + 1 as int));
            }
            j = j + 1;
        }
        let blob = encode_blob(&payload);
        let commitment = kzg_commit(&blob);
        let ghost old_chunks = chunks@;
        chunks.push(Chunk { payload, commitment });
        proof {
            let m = |k: int, c: Chunk| c.payload@;
            assert(chunks@.map(m).drop_last() =~= old_chunks.map(m));
            assert(payload_concat(chunks@.map(m)) =~= bytes@.subrange(0, (i + take) as int));
        }
        i = i + take;
    }
    proof {
        assert(bytes@.subrange(0, bytes@.len() as int) =~= bytes@);
    }
    let s = Sidecar { chunks };
    proof {
        lemma_chunk_count_le(bytes@.len() as nat, MAX_CHUNKS as nat);
    }
    Ok(s)
}

/// The packaged shape of a chunk sequence over a byte buffer: the payloads
/// concatenate to the buffer, every chunk but the last is full, no chunk is
/// empty, and each commitment is computed from its own chunk's blob
/// encoding. (The transport's chunk limit is deliberately not part of the
/// shape; uniqueness does not depend on it.)
pub open spec fn chunked_shape(chunks: Seq<Chunk>, bytes: Seq<u8>) -> bool {
    &&& payload_concat(payloads_of(chunks)) == bytes
    &&& forall|k: int|
        0 <= k < chunks.len() ==> 1 <= (#[trigger] chunks[k]).payload@.len() <= CHUNK_CAPACITY
    &&& forall|k: int|
        0 <= k < chunks.len() - 1 ==> (#[trigger] chunks[k]).payload@.len() == CHUNK_CAPACITY
    &&& forall|k: int|
        0 <= k < chunks.len() ==> (#[trigger] chunks[k]).commitment@ == kzg_commitment_of(
            blob_encoding(chunks[k].payload@),
        )
}

/// The concatenation of full chunk payloads holds one capacity's worth of
/// bytes per chunk.
proof fn lemma_full_concat_len(payloads: Seq<Seq<u8>>)
    requires
        forall|k: int|
            0 <= k < payloads.len() ==> (#[trigger] payloads[k]).len() == CHUNK_CAPACITY,
    ensures
        payload_concat(payloads).len() == payloads.len() * CHUNK_CAPACITY,
    decreases payloads.len(),
{
    if payloads.len() > 0 {
        lemma_full_concat_len(payloads.drop_last());
    }
}

/// Packaging is unique: two chunk sequences of the packaged shape over the
/// same bytes are identical, chunk for chunk. So the sidecar built from a
/// byte buffer — fresh from the codec, or read back from the durable
/// artifact — is byte-identical to any other sidecar packaged from the same
/// buffer.
pub proof fn lemma_packaging_unique(a: Seq<Chunk>, b: Seq<Chunk>, bytes: Seq<u8>)
    requires
        chunked_shape(a, bytes),
        chunked_shape(b, bytes),
    ensures
        a.len() == b.len(),
        forall|k: int|
            0 <= k < a.len() ==> (#[trigger] a[k]).payload@ == b[k].payload@ && a[k].commitment@
                == b[k].commitment@,
    decreases a.len(),
{
    lemma_shape_len(a, bytes);
    lemma_shape_len(b, bytes);
    if bytes.len() == 0 {
        assert(a.len() == 0 && b.len() == 0);
    } else {
        let n = a.len() as int;
        assert(b.len() == n);
        let l = bytes.len() - (n - 1) * CHUNK_CAPACITY;
        lemma_last_chunk_determined(a, bytes);
        lemma_last_chunk_determined(b, bytes);
        assert(a.last().payload@ == bytes.subrange(bytes.len() - l, bytes.len() as int));
        assert(a.last().payload@ == b.last().payload@);
        let rest = bytes.subrange(0, bytes.len() - l);
        lemma_drop_last_shape(a, bytes);
        lemma_drop_last_shape(b, bytes);
        lemma_packaging_unique(a.drop_last(), b.drop_last(), rest);
        assert forall|k: int|
            0 <= k < a.len() implies (#[trigger] a[k]).payload@ == b[k].payload@
            && a[k].commitment@ == b[k].commitment@ by {
            if k < n - 1 {
                assert(a.drop_last()[k] == a[k]);
                assert(b.drop_last()[k] == b[k]);
            } else {
                assert(a[k] == a.last());
                assert(b[k] == b.last());
            }
        }
    }
}

/// Under the packaged shape, the chunk count is forced by the byte length:
/// all chunks but the last carry a full capacity, and the last carries the
/// nonempty remainder.
proof fn lemma_shape_len(a: Seq<Chunk>, bytes: Seq<u8>)
    requires
        chunked_shape(a, bytes),
    ensures
        bytes.len() == 0 ==> a.len() == 0,
        bytes.len() > 0 ==> a.len() >= 1 && (a.len() - 1) * CHUNK_CAPACITY < bytes.len() <= a.len()
            * CHUNK_CAPACITY && a.len() == chunk_count(bytes.len() as nat),
{
    let p = payloads_of(a);
    if a.len() == 0 {
        assert(bytes.len() == 0);
    } else {
        lemma_full_concat_len(p.drop_last());
        assert(p.last() == a.last().payload@);
        assert(bytes.len() == (a.len() - 1) * CHUNK_CAPACITY + a.last().payload@.len());
        lemma_chunk_count_of_shape(a.len() as nat, a.last().payload@.len() as nat);
    }
}

/// The chunk count of a buffer of `(n - 1)` full chunks and a last chunk of
/// `l` bytes is `n`.
proof fn lemma_chunk_count_of_shape(n: nat, l: nat)
    requires
        n >= 1,
        1 <= l <= CHUNK_CAPACITY,
    ensures
        chunk_count(((n - 1) * CHUNK_CAPACITY + l) as nat) == n,
    decreases n,
{
    if n > 1 {
        lemma_chunk_count_of_shape((n - 1) as nat, l);
        assert((n - 1) * CHUNK_CAPACITY + l - CHUNK_CAPACITY == (n - 2) * CHUNK_CAPACITY + l);
    }
}

/// Under the packaged shape, the last chunk's payload is exactly the tail
/// of the buffer that the full chunks before it do not cover.
proof fn lemma_last_chunk_determined(a: Seq<Chunk>, bytes: Seq<u8>)
    requires
        chunked_shape(a, bytes),
        a.len() >= 1,
    ensures
        ({
            let l = a.last().payload@.len() as int;
            l == bytes.len() - (a.len() - 1) * CHUNK_CAPACITY && a.last().payload@
                == bytes.subrange(bytes.len() - l, bytes.len() as int)
        }),
{
    let p = payloads_of(a);
    lemma_full_concat_len(p.drop_last());
    assert(p.last() == a.last().payload@);
    let l = a.last().payload@.len() as int;
    assert(bytes == payload_concat(p.drop_last()) + p.last());
    assert(a.last().payload@ =~= bytes.subrange(bytes.len() - l, bytes.len() as int));
}

/// Dropping the last chunk of a packaged shape leaves a packaged shape over
/// the buffer without the last chunk's tail.
proof fn lemma_drop_last_shape(a: Seq<Chunk>, bytes: Seq<u8>)
    requires
        chunked_shape(a, bytes),
        a.len() >= 1,
    ensures
        ({
            let l = a.last().payload@.len() as int;
            chunked_shape(a.drop_last(), bytes.subrange(0, bytes.len() - l))
        }),
{
    let p = payloads_of(a);
    let l = a.last().payload@.len() as int;
    assert(p.last() == a.last().payload@);
    assert(bytes == payload_concat(p.drop_last()) + p.last());
    assert(payloads_of(a.drop_last()) =~= p.drop_last());
    assert(payload_concat(p.drop_last()) =~= bytes.subrange(0, bytes.len() - l));
}

} // verus!
