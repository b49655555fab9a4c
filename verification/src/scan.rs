//! Reading the PCM data of a WAV block by block: which structural checks
//! hold over all blocks, and which chunks can be recovered.

use vstd::prelude::*;
use vstd::slice::slice_subrange;

use crate::endian::read_be32;

use crate::pcm::{
    block_chunk, block_ebml_ok, block_fits, block_lb, block_magic_ok, block_segment_ok,
    chunk_ebml_ok, decode_pcm_block, first_segment_id, lemma_block_roundtrip, pcm_block_bytes,
    verdict_of, BlockVerdict, BLOCK_HEADER_SIZE, BLOCK_SIZE,
};

verus! {

/// Block `i` (from 0) of the PCM data.
pub open spec fn nth_block(data: Seq<u8>, i: int) -> Seq<u8> {
    data.subrange(i * BLOCK_SIZE, (i + 1) * BLOCK_SIZE)
}

/// Block `b` yields a chunk: magic numbers, sizes and Segment ID are right.
pub open spec fn block_recovered(b: Seq<u8>) -> bool {
    block_magic_ok(b) && block_fits(b) && block_segment_ok(b)
}

/// The chunks recovered from the first `n` blocks, in order, each with the
/// number of its block.
pub open spec fn recovered_chunks(data: Seq<u8>, n: nat) -> Seq<(int, Seq<u8>)>
    decreases n,
{
    if n == 0 {
        Seq::empty()
    } else {
        let prev = recovered_chunks(data, (n - 1) as nat);
        let b = nth_block(data, n - 1);
        if block_recovered(b) {
            prev.push((n - 1, block_chunk(b)))
        } else {
            prev
        }
    }
}

/// All of the first `n` blocks carry both magic numbers.
pub open spec fn all_magic_ok(data: Seq<u8>, n: nat) -> bool {
    forall|i: int| 0 <= i < n ==> block_magic_ok(#[trigger] nth_block(data, i))
}

/// Every one of the first `n` blocks that carries both magic numbers declares Lb = 288 000.
pub open spec fn all_lb_ok(data: Seq<u8>, n: nat) -> bool {
    forall|i: int|
        0 <= i < n && block_magic_ok(#[trigger] nth_block(data, i)) ==> block_lb(nth_block(data, i))
            == BLOCK_SIZE
}

/// Every one of the first `n` blocks that carries both magic numbers has sizes that fit.
pub open spec fn all_sizes_ok(data: Seq<u8>, n: nat) -> bool {
    forall|i: int|
        0 <= i < n && block_magic_ok(#[trigger] nth_block(data, i)) ==> block_fits(nth_block(data, i))
}

/// Every one of the first `n` blocks that gets as far as its EBML header has a valid one.
pub open spec fn all_ebml_ok(data: Seq<u8>, n: nat) -> bool {
    forall|i: int|
        0 <= i < n && block_magic_ok(#[trigger] nth_block(data, i)) && block_fits(nth_block(data, i))
            ==> block_ebml_ok(nth_block(data, i))
}

/// Every one of the first `n` blocks that gets as far as its Segment has a valid one.
pub open spec fn all_segments_ok(data: Seq<u8>, n: nat) -> bool {
    forall|i: int|
        0 <= i < n && block_magic_ok(#[trigger] nth_block(data, i)) && block_fits(nth_block(data, i))
            ==> block_segment_ok(nth_block(data, i))
}

/// A chunk recovered from block number `index`.
pub struct RecoveredChunk {
    pub index: usize,
    pub bytes: Vec<u8>,
}

/// The chunks as pairs of block number and bytes.
pub open spec fn chunks_view(chunks: Seq<RecoveredChunk>) -> Seq<(int, Seq<u8>)> {
    chunks.map_values(|c: RecoveredChunk| (c.index as int, c.bytes@))
}

/// What reading all blocks of the PCM data gives.
pub struct BlockScan {
    /// Number of whole 288 000-byte blocks.
    pub total_blocks: usize,
    /// Bytes left over after the whole blocks.
    pub remainder: usize,
    pub magic_ok: bool,
    pub lb_ok: bool,
    pub ebml_ok: bool,
    pub segment_ok: bool,
    pub size_ok: bool,
    /// The recovered chunks, in block order.
    pub chunks: Vec<RecoveredChunk>,
}

/// `scan` is what reading all blocks of `data` gives.
pub open spec fn scan_of(scan: BlockScan, data: Seq<u8>) -> bool {
    let n = (data.len() / (BLOCK_SIZE as nat)) as nat;
    &&& scan.total_blocks == n
    &&& scan.remainder == data.len() % (BLOCK_SIZE as nat)
    &&& scan.magic_ok == all_magic_ok(data, n)
    &&& scan.lb_ok == all_lb_ok(data, n)
    &&& scan.size_ok == all_sizes_ok(data, n)
    &&& scan.ebml_ok == all_ebml_ok(data, n)
    &&& scan.segment_ok == all_segments_ok(data, n)
    &&& chunks_view(scan.chunks@) == recovered_chunks(data, n)
}

/// Reads every whole 288 000-byte block of the PCM data `data`, records
/// which structural checks fail in some block, and recovers the chunk of
/// each block whose magic numbers, sizes and Segment ID are right.
pub fn scan_blocks(data: &[u8]) -> (scan: BlockScan)
    ensures
        scan_of(scan, data@),
        scan.chunks@.len() <= scan.total_blocks <= usize::MAX / BLOCK_SIZE,
{
    let len = data.len();
    let total = len / BLOCK_SIZE;
    let remainder = len % BLOCK_SIZE;
    let mut magic_ok = true;
    let mut lb_ok = true;
    let mut ebml_ok = true;
    let mut segment_ok = true;
    let mut size_ok = true;
    let mut chunks: Vec<RecoveredChunk> = Vec::new();
    let mut i: usize = 0;
    while i < total
        invariant
            len == data@.len(),
            total == len / BLOCK_SIZE,
            i <= total,
            magic_ok == all_magic_ok(data@, i as nat),
            lb_ok == all_lb_ok(data@, i as nat),
            size_ok == all_sizes_ok(data@, i as nat),
            ebml_ok == all_ebml_ok(data@, i as nat),
            segment_ok == all_segments_ok(data@, i as nat),
            chunks_view(chunks@) == recovered_chunks(data@, i as nat),
            chunks@.len() <= i,
        decreases total - i,
    {
        proof {
            assert((i + 1) * 288_000 <= len) by (nonlinear_arith)
                requires
                    i < total,
                    total == len / 288_000,
            ;
        }
        let start = i * BLOCK_SIZE;
        let block = slice_subrange(data, start, start + BLOCK_SIZE);
        let ghost b = nth_block(data@, i as int);
        assert(block@ == b);
        let verdict = decode_pcm_block(block);
        let ghost prev = chunks@;
        match verdict {
            BlockVerdict::MagicMismatch => {
                magic_ok = false;
            },
            BlockVerdict::Oversized { lb_ok: l } => {
                lb_ok = lb_ok && l;
                size_ok = false;
            },
            BlockVerdict::MissingSegment { lb_ok: l, ebml_ok: e } => {
                lb_ok = lb_ok && l;
                ebml_ok = ebml_ok && e;
                segment_ok = false;
            },
            BlockVerdict::Recovered { lb_ok: l, ebml_ok: e, chunk } => {
                lb_ok = lb_ok && l;
                ebml_ok = ebml_ok && e;
                chunks.push(RecoveredChunk { index: i, bytes: chunk });
                proof {
                    assert(chunks_view(chunks@) =~= chunks_view(prev).push((i as int, block_chunk(b))));
                }
            },
        }
        proof {
            assert(verdict_of(verdict, b));
            assert(nth_block(data@, i as int) == b);
        }
        i = i + 1;
    }
    BlockScan {
        total_blocks: total,
        remainder,
        magic_ok,
        lb_ok,
        ebml_ok,
        segment_ok,
        size_ok,
        chunks,
    }
}

} // verus!

verus! {

/// A chunk that `build_pcm_block` packs: it holds the Segment ID and fits
/// in a block beside the 20-byte header.
pub open spec fn packable(chunk: Seq<u8>) -> bool {
    first_segment_id(chunk) is Some && BLOCK_HEADER_SIZE + chunk.len() <= BLOCK_SIZE
}

/// The block that carries a packable chunk.
pub open spec fn block_for(chunk: Seq<u8>) -> Seq<u8> {
    pcm_block_bytes(chunk, first_segment_id(chunk)->Some_0)
}

/// The PCM data made of one block per chunk, in order.
pub open spec fn packed_data(chunks: Seq<Seq<u8>>) -> Seq<u8>
    decreases chunks.len(),
{
    if chunks.len() == 0 {
        Seq::empty()
    } else {
        packed_data(chunks.drop_last()) + block_for(chunks.last())
    }
}

proof fn lemma_packed_blocks(chunks: Seq<Seq<u8>>)
    requires
        forall|j: int| 0 <= j < chunks.len() ==> packable(#[trigger] chunks[j]),
    ensures
        packed_data(chunks).len() == chunks.len() * BLOCK_SIZE,
        forall|i: int|
            0 <= i < chunks.len() ==> #[trigger] nth_block(packed_data(chunks), i) == block_for(
                chunks[i],
            ),
    decreases chunks.len(),
{
    if chunks.len() > 0 {
        let prefix = chunks.drop_last();
        assert forall|j: int| 0 <= j < prefix.len() implies packable(#[trigger] prefix[j]) by {
            assert(prefix[j] == chunks[j]);
        }
        lemma_packed_blocks(prefix);
        let last = chunks.last();
        assert(packable(chunks[chunks.len() - 1]));
        lemma_block_roundtrip(last, first_segment_id(last)->Some_0);
        let d = packed_data(chunks);
        let p = packed_data(prefix);
        assert(d == p + block_for(last));
        let n = chunks.len() as int;
        assert forall|i: int| 0 <= i < chunks.len() implies #[trigger] nth_block(d, i) == block_for(
            chunks[i],
        ) by {
            if i < n - 1 {
                assert(nth_block(d, i) =~= nth_block(p, i));
                assert(chunks[i] == prefix[i]);
            } else {
                assert(nth_block(d, i) =~= block_for(last));
            }
        }
    }
}

proof fn lemma_recovered_prefix(chunks: Seq<Seq<u8>>, m: nat)
    requires
        forall|j: int| 0 <= j < chunks.len() ==> packable(#[trigger] chunks[j]),
        m <= chunks.len(),
    ensures
        recovered_chunks(packed_data(chunks), m) == Seq::new(m, |i: int| (i, chunks[i])),
    decreases m,
{
    lemma_packed_blocks(chunks);
    if m > 0 {
        lemma_recovered_prefix(chunks, (m - 1) as nat);
        let c = chunks[m - 1];
        lemma_block_roundtrip(c, first_segment_id(c)->Some_0);
        assert(nth_block(packed_data(chunks), m - 1) == block_for(c));
        assert(Seq::new(m, |i: int| (i, chunks[i])) =~= Seq::new((m - 1) as nat, |i: int| (i, chunks[i])).push(
            (m - 1, c),
        ));
    }
}

/// Validating PCM data made by packing chunks one block each recovers
/// exactly those chunks, in order, with the number of the block of each:
/// the data holds whole blocks only, all magic numbers, Lb values, sizes and
/// Segment IDs check out, and the EBML check holds exactly when every chunk
/// starts with an EBML header ID.
pub proof fn packed_chunks_are_recovered(chunks: Seq<Seq<u8>>, scan: BlockScan)
    requires
        forall|j: int| 0 <= j < chunks.len() ==> packable(#[trigger] chunks[j]),
        scan_of(scan, packed_data(chunks)),
    ensures
        scan.total_blocks == chunks.len(),
        scan.remainder == 0,
        scan.magic_ok,
        scan.lb_ok,
        scan.size_ok,
        scan.segment_ok,
        scan.ebml_ok == forall|j: int|
            0 <= j < chunks.len() ==> chunk_ebml_ok(
                #[trigger] chunks[j],
                first_segment_id(chunks[j])->Some_0,
            ),
        chunks_view(scan.chunks@) == Seq::new(chunks.len(), |i: int| (i, chunks[i])),
{
    lemma_packed_blocks(chunks);
    let d = packed_data(chunks);
    let n = chunks.len();
    assert(d.len() / (BLOCK_SIZE as nat) == n && d.len() % (BLOCK_SIZE as nat) == 0) by (
    nonlinear_arith)
        requires
            d.len() == n * BLOCK_SIZE,
            BLOCK_SIZE == 288_000,
    ;
    lemma_recovered_prefix(chunks, n);
    assert forall|i: int| 0 <= i < n implies {
        let b = #[trigger] nth_block(d, i);
        &&& block_magic_ok(b)
        &&& block_lb(b) == BLOCK_SIZE
        &&& block_fits(b)
        &&& block_segment_ok(b)
        &&& block_ebml_ok(b) == chunk_ebml_ok(chunks[i], first_segment_id(chunks[i])->Some_0)
    } by {
        let c = chunks[i];
        lemma_block_roundtrip(c, first_segment_id(c)->Some_0);
    }
    if scan.ebml_ok {
        assert forall|j: int| 0 <= j < n implies chunk_ebml_ok(
            #[trigger] chunks[j],
            first_segment_id(chunks[j])->Some_0,
        ) by {
            assert(block_magic_ok(nth_block(d, j)));
        }
    } else {
        let j = choose|j: int|
            0 <= j < n && block_magic_ok(#[trigger] nth_block(d, j)) && block_fits(nth_block(d, j))
                && !block_ebml_ok(nth_block(d, j));
        assert(!chunk_ebml_ok(chunks[j], first_segment_id(chunks[j])->Some_0));
    }
}

} // verus!

verus! {

proof fn lemma_recovered_chunks_shape(data: Seq<u8>, n: nat)
    ensures
        ({
            let r = recovered_chunks(data, n);
            &&& forall|k: int|
                0 <= k < r.len() ==> 0 <= (#[trigger] r[k]).0 < n && block_recovered(
                    nth_block(data, r[k].0),
                ) && r[k].1 == block_chunk(nth_block(data, r[k].0))
            &&& forall|k1: int, k2: int| 0 <= k1 < k2 < r.len() ==> (#[trigger] r[k1]).0 < (#[trigger] r[k2]).0
            &&& forall|j: int|
                0 <= j < n && block_recovered(#[trigger] nth_block(data, j)) ==> exists|k: int|
                    0 <= k < r.len() && (#[trigger] r[k]).0 == j
        }),
    decreases n,
{
    if n > 0 {
        lemma_recovered_chunks_shape(data, (n - 1) as nat);
        let prev = recovered_chunks(data, (n - 1) as nat);
        let r = recovered_chunks(data, n);
        if block_recovered(nth_block(data, n - 1)) {
            assert(r == prev.push((n - 1, block_chunk(nth_block(data, n - 1)))));
            assert forall|j: int|
                0 <= j < n && block_recovered(#[trigger] nth_block(data, j)) implies exists|k: int|
                    0 <= k < r.len() && (#[trigger] r[k]).0 == j by {
                if j == n - 1 {
                    assert(r[prev.len() as int].0 == j);
                } else {
                    let k = choose|k: int| 0 <= k < prev.len() && (#[trigger] prev[k]).0 == j;
                    assert(r[k] == prev[k]);
                }
            }
        } else {
            assert forall|j: int|
                0 <= j < n && block_recovered(#[trigger] nth_block(data, j)) implies exists|k: int|
                    0 <= k < r.len() && (#[trigger] r[k]).0 == j by {
                assert(j != n - 1);
            }
        }
    }
}

/// What the scan reports, read off the bytes of each whole 288 000-byte
/// block `b` (big-endian fields H1 at 0, Lv at 4, Lb at 8, Le at 12, H2 at
/// 16): the magic check fails when some block lacks 0xFFFFFFFF in H1 or H2;
/// among blocks with both, the Lb check fails when one declares another
/// length, the size check fails when one has 20 + Le + Lv > 288 000; among
/// those that fit, the EBML check fails when one's EBML header is shorter
/// than 4 bytes or does not start with 1A 45 DF A3, and the Segment check
/// fails when one's Segment is shorter than 4 bytes or does not start with
/// 18 53 80 67. The recovered chunks are, in block order, the bytes 20 ..
/// 20 + Le + Lv of exactly the blocks that pass the magic, size and Segment
/// checks.
pub proof fn scan_reads_the_blocks(data: Seq<u8>, scan: BlockScan)
    requires
        scan_of(scan, data),
    ensures
        scan.total_blocks == data.len() / 288000,
        scan.remainder == data.len() % 288000,
        scan.magic_ok <==> forall|i: int|
            0 <= i < scan.total_blocks ==> read_be32(#[trigger] nth_block(data, i), 0) == 0xFFFF_FFFF
                && read_be32(nth_block(data, i), 16) == 0xFFFF_FFFF,
        scan.lb_ok <==> forall|i: int|
            0 <= i < scan.total_blocks && read_be32(#[trigger] nth_block(data, i), 0) == 0xFFFF_FFFF
                && read_be32(nth_block(data, i), 16) == 0xFFFF_FFFF ==> read_be32(nth_block(data, i), 8)
                == 288000,
        scan.size_ok <==> forall|i: int|
            0 <= i < scan.total_blocks && read_be32(#[trigger] nth_block(data, i), 0) == 0xFFFF_FFFF
                && read_be32(nth_block(data, i), 16) == 0xFFFF_FFFF ==> 20 + read_be32(
                nth_block(data, i),
                12,
            ) + read_be32(nth_block(data, i), 4) <= 288000,
        scan.ebml_ok <==> forall|i: int|
            0 <= i < scan.total_blocks && read_be32(#[trigger] nth_block(data, i), 0) == 0xFFFF_FFFF
                && read_be32(nth_block(data, i), 16) == 0xFFFF_FFFF && 20 + read_be32(
                nth_block(data, i),
                12,
            ) + read_be32(nth_block(data, i), 4) <= 288000 ==> read_be32(nth_block(data, i), 12) >= 4
                && nth_block(data, i).subrange(20, 24) == seq![0x1Au8, 0x45u8, 0xDFu8, 0xA3u8],
        scan.segment_ok <==> forall|i: int|
            0 <= i < scan.total_blocks && read_be32(#[trigger] nth_block(data, i), 0) == 0xFFFF_FFFF
                && read_be32(nth_block(data, i), 16) == 0xFFFF_FFFF && 20 + read_be32(
                nth_block(data, i),
                12,
            ) + read_be32(nth_block(data, i), 4) <= 288000 ==> read_be32(nth_block(data, i), 4) >= 4
                && nth_block(data, i).subrange(
                20 + read_be32(nth_block(data, i), 12),
                24 + read_be32(nth_block(data, i), 12),
            ) == seq![0x18u8, 0x53u8, 0x80u8, 0x67u8],
        forall|k: int|
            #![trigger scan.chunks@[k]]
            0 <= k < scan.chunks@.len() ==> {
                let j = scan.chunks@[k].index as int;
                let b = nth_block(data, j);
                &&& 0 <= j < scan.total_blocks
                &&& read_be32(b, 0) == 0xFFFF_FFFF && read_be32(b, 16) == 0xFFFF_FFFF
                &&& 20 + read_be32(b, 12) + read_be32(b, 4) <= 288000
                &&& read_be32(b, 4) >= 4
                &&& b.subrange(20 + read_be32(b, 12), 24 + read_be32(b, 12)) == seq![
                    0x18u8,
                    0x53u8,
                    0x80u8,
                    0x67u8,
                ]
                &&& scan.chunks@[k].bytes@ == b.subrange(20, 20 + read_be32(b, 12) + read_be32(b, 4))
            },
        forall|k1: int, k2: int|
            0 <= k1 < k2 < scan.chunks@.len() ==> (#[trigger] scan.chunks@[k1]).index < (
            #[trigger] scan.chunks@[k2]).index,
        forall|j: int|
            0 <= j < scan.total_blocks && read_be32(#[trigger] nth_block(data, j), 0) == 0xFFFF_FFFF
                && read_be32(nth_block(data, j), 16) == 0xFFFF_FFFF && 20 + read_be32(
                nth_block(data, j),
                12,
            ) + read_be32(nth_block(data, j), 4) <= 288000 && read_be32(nth_block(data, j), 4) >= 4
                && nth_block(data, j).subrange(
                20 + read_be32(nth_block(data, j), 12),
                24 + read_be32(nth_block(data, j), 12),
            ) == seq![0x18u8, 0x53u8, 0x80u8, 0x67u8] ==> exists|k: int|
                0 <= k < scan.chunks@.len() && (#[trigger] scan.chunks@[k]).index == j,
{
    let n = scan.total_blocks as nat;
    lemma_recovered_chunks_shape(data, n);
    let r = recovered_chunks(data, n);
    assert(chunks_view(scan.chunks@) == r);
    assert forall|k: int| 0 <= k < scan.chunks@.len() implies #[trigger] chunks_view(scan.chunks@)[k]
        == (scan.chunks@[k].index as int, scan.chunks@[k].bytes@) by {}
    assert forall|k: int| #![trigger scan.chunks@[k]] 0 <= k < scan.chunks@.len() implies r[k] == (
    scan.chunks@[k].index as int, scan.chunks@[k].bytes@) by {
        assert(chunks_view(scan.chunks@)[k] == r[k]);
    }
    assert forall|k1: int, k2: int|
        0 <= k1 < k2 < scan.chunks@.len() implies (#[trigger] scan.chunks@[k1]).index < (
        #[trigger] scan.chunks@[k2]).index by {
        assert(r[k1] == (scan.chunks@[k1].index as int, scan.chunks@[k1].bytes@));
        assert(r[k2] == (scan.chunks@[k2].index as int, scan.chunks@[k2].bytes@));
    }
    assert forall|j: int|
        0 <= j < scan.total_blocks && block_recovered(#[trigger] nth_block(data, j)) implies exists|
        k: int,
    | 0 <= k < scan.chunks@.len() && (#[trigger] scan.chunks@[k]).index == j by {
        let k = choose|k: int| 0 <= k < r.len() && (#[trigger] r[k]).0 == j;
        assert(r[k] == (scan.chunks@[k].index as int, scan.chunks@[k].bytes@));
    }
}

} // verus!
