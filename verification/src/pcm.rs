//! One PCM block per 2-second WebM chunk: a 20-byte header of big-endian
//! fields (H1 = 0xFFFFFFFF, Lv, Lb = 288 000, Le, H2 = 0xFFFFFFFF), the
//! chunk's EBML header (Le bytes), its VP9 Segment (Lv bytes), then zero
//! padding up to Lb bytes.

use vstd::prelude::*;
use vstd::string::*;

use crate::endian::{be32, get_be32, lemma_be32_roundtrip, push_be32, read_be32};
use crate::text::{decimal, numbered, push_decimal};

verus! {

/// Size of a PCM block: two seconds of 48 kHz 24-bit mono samples.
pub const BLOCK_SIZE: usize = 288_000;

/// Size of the block header.
pub const BLOCK_HEADER_SIZE: usize = 20;

/// The value of the H1 and H2 header fields.
pub const MAGIC: u32 = 0xFFFF_FFFF;

/// Largest chunk (EBML header and Segment) that fits in a block.
pub const MAX_CHUNK_BYTES: u64 = 287_980;

/// The WebM Segment element ID, 0x18538067.
pub open spec fn segment_id() -> Seq<u8> {
    seq![0x18u8, 0x53u8, 0x80u8, 0x67u8]
}

/// The EBML header element ID, 0x1A45DFA3.
pub open spec fn ebml_magic() -> Seq<u8> {
    seq![0x1Au8, 0x45u8, 0xDFu8, 0xA3u8]
}

/// The Segment ID starts at position `i` of `s`.
pub open spec fn segment_id_at(s: Seq<u8>, i: int) -> bool {
    0 <= i && i + 4 <= s.len() && s.subrange(i, i + 4) == segment_id()
}

/// The first position at or after `from` where the Segment ID starts.
pub open spec fn segment_search(s: Seq<u8>, from: nat) -> Option<nat>
    decreases s.len() - from,
{
    if from + 4 > s.len() {
        None
    } else if segment_id_at(s, from as int) {
        Some(from)
    } else {
        segment_search(s, from + 1)
    }
}

/// The first position of `s` where the Segment ID starts.
pub open spec fn first_segment_id(s: Seq<u8>) -> Option<nat> {
    segment_search(s, 0)
}

/// `segment_search` gives the least position at or after `from` where the
/// Segment ID starts, and `None` when there is none.
pub proof fn lemma_segment_search(s: Seq<u8>, from: nat)
    ensures
        segment_search(s, from) matches Some(k) ==> from <= k && segment_id_at(s, k as int) && (
        forall|j: int| from <= j < k ==> !segment_id_at(s, j)),
        segment_search(s, from) is None ==> forall|j: int| from <= j ==> !segment_id_at(s, j),
    decreases s.len() - from,
{
    if from + 4 > s.len() {
    } else if segment_id_at(s, from as int) {
    } else {
        lemma_segment_search(s, from + 1);
    }
}

proof fn lemma_segment_id_bytes(s: Seq<u8>)
    ensures
        forall|j: int|
            #![trigger s.subrange(j, j + 4)]
            segment_id_at(s, j) <==> (0 <= j && j + 4 <= s.len() && s.subrange(j, j + 4) == seq![
                0x18u8,
                0x53u8,
                0x80u8,
                0x67u8,
            ]),
{
}

fn segment_id_here(s: &[u8], i: usize) -> (b: bool)
    requires
        i + 4 <= s@.len(),
    ensures
        b == segment_id_at(s@, i as int),
{
    let b = s[i] == 0x18 && s[i + 1] == 0x53 && s[i + 2] == 0x80 && s[i + 3] == 0x67;
    proof {
        let w = s@.subrange(i as int, i + 4);
        if b {
            assert(w =~= segment_id());
        } else if w == segment_id() {
            assert(w[0] == 0x18 && w[1] == 0x53 && w[2] == 0x80 && w[3] == 0x67);
        }
    }
    b
}

/// Position of the first occurrence of the Segment ID 0x18538067 in `data`.
pub fn find_segment_id(data: &[u8]) -> (r: Option<usize>)
    ensures
        r matches Some(k) ==> first_segment_id(data@) == Some(k as nat),
        r is None ==> first_segment_id(data@) is None,
        r matches Some(k) ==> segment_id_at(data@, k as int) && forall|j: int|
            0 <= j < k ==> !segment_id_at(data@, j),
        r is None ==> forall|j: int| !segment_id_at(data@, j),
        r matches Some(k) ==> k + 4 <= data@.len() && data@.subrange(k as int, k + 4) == seq![
            0x18u8,
            0x53u8,
            0x80u8,
            0x67u8,
        ],
        forall|j: int|
            0 <= j && j + 4 <= data@.len() && #[trigger] data@.subrange(j, j + 4) == seq![
                0x18u8,
                0x53u8,
                0x80u8,
                0x67u8,
            ] ==> (r matches Some(k) && k <= j),
{
    proof {
        lemma_segment_search(data@, 0);
        lemma_segment_id_bytes(data@);
    }
    if data.len() < 4 {
        return None;
    }
    let mut i: usize = 0;
    while i <= data.len() - 4
        invariant
            4 <= data@.len(),
            i <= data@.len() - 3,
            segment_search(data@, 0) == segment_search(data@, i as nat),
        decreases data@.len() - i,
    {
        if segment_id_here(data, i) {
            proof {
                lemma_segment_search(data@, 0);
                lemma_segment_id_bytes(data@);
            }
            return Some(i);
        }
        i = i + 1;
    }
    None
}

/// The block that carries `chunk`, whose EBML header is its first
/// `ebml_len` bytes and whose Segment is the rest.
pub open spec fn pcm_block_bytes(chunk: Seq<u8>, ebml_len: nat) -> Seq<u8> {
    be32(MAGIC) + be32((chunk.len() - ebml_len) as u32) + be32(BLOCK_SIZE as u32) + be32(
        ebml_len as u32,
    ) + be32(MAGIC) + chunk + Seq::new((BLOCK_SIZE - BLOCK_HEADER_SIZE - chunk.len()) as nat, |i: int| 0u8)
}

/// Why a chunk cannot be packed into a block.
#[derive(Debug, Clone, Copy, PartialEq, Eq)]
pub enum PcmBlockError {
    MissingSegmentId { chunk_index: usize },
    TooLarge { chunk_index: usize, ebml_len: usize, segment_len: usize },
}

/// The block that `build_pcm_block` makes of `chunk`, or the error it gives.
pub open spec fn packed_block(chunk: Seq<u8>, chunk_index: usize) -> Result<Seq<u8>, PcmBlockError> {
    match first_segment_id(chunk) {
        None => Err(PcmBlockError::MissingSegmentId { chunk_index }),
        Some(k) => if BLOCK_HEADER_SIZE + chunk.len() > BLOCK_SIZE {
            Err(
                PcmBlockError::TooLarge {
                    chunk_index,
                    ebml_len: k as usize,
                    segment_len: (chunk.len() - k) as usize,
                },
            )
        } else {
            Ok(pcm_block_bytes(chunk, k))
        },
    }
}

/// The text that explains a packing error to the user.
pub open spec fn pcm_block_error_text(e: PcmBlockError) -> Seq<char> {
    match e {
        PcmBlockError::MissingSegmentId { chunk_index } => "Chunk "@ + decimal(chunk_index as nat)
            + " não contém o ID de Segment WebM (0x18538067). O arquivo pode estar corrompido."@,
        PcmBlockError::TooLarge { chunk_index, ebml_len, segment_len } => "Chunk "@ + decimal(
            chunk_index as nat,
        ) + " é grande demais para um bloco PCM (header 20 + EBML "@ + decimal(ebml_len as nat)
            + " + Segment "@ + decimal(segment_len as nat) + " = "@ + decimal(
            (20 + ebml_len + segment_len) as nat,
        ) + " > 288000). O bitrate ficou acima de 1 Mbps."@,
    }
}

impl PcmBlockError {
    /// The text that explains the error to the user.
    pub fn message(&self) -> (s: String)
        ensures
            s@ == pcm_block_error_text(*self),
    {
        match self {
            PcmBlockError::MissingSegmentId { chunk_index } => numbered(
                "Chunk ",
                *chunk_index as u128,
                " não contém o ID de Segment WebM (0x18538067). O arquivo pode estar corrompido.",
            ),
            PcmBlockError::TooLarge { chunk_index, ebml_len, segment_len } => {
                let mut s = numbered(
                    "Chunk ",
                    *chunk_index as u128,
                    " é grande demais para um bloco PCM (header 20 + EBML ",
                );
                push_decimal(&mut s, *ebml_len as u128);
                s.append(" + Segment ");
                push_decimal(&mut s, *segment_len as u128);
                s.append(" = ");
                push_decimal(&mut s, 20 + *ebml_len as u128 + *segment_len as u128);
                s.append(" > 288000). O bitrate ficou acima de 1 Mbps.");
                s
            },
        }
    }
}

/// Appends the bytes of `src[from..to]`.
pub fn push_range(buf: &mut Vec<u8>, src: &[u8], from: usize, to: usize)
    requires
        from <= to <= src@.len(),
    ensures
        final(buf)@ == old(buf)@ + src@.subrange(from as int, to as int),
{
    let mut i = from;
    while i < to
        invariant
            from <= i <= to <= src@.len(),
            buf@ == old(buf)@ + src@.subrange(from as int, i as int),
        decreases to - i,
    {
        buf.push(src[i]);
        proof {
            assert(src@.subrange(from as int, i + 1) =~= src@.subrange(from as int, i as int).push(
                src@[i as int],
            ));
        }
        i = i + 1;
    }
}

fn push_zeros(buf: &mut Vec<u8>, n: usize)
    ensures
        final(buf)@ == old(buf)@ + Seq::new(n as nat, |i: int| 0u8),
{
    let mut i: usize = 0;
    while i < n
        invariant
            i <= n,
            buf@ == old(buf)@ + Seq::new(i as nat, |j: int| 0u8),
        decreases n - i,
    {
        buf.push(0);
        proof {
            assert(Seq::new((i + 1) as nat, |j: int| 0u8) =~= Seq::new(i as nat, |j: int| 0u8).push(
                0u8,
            ));
        }
        i = i + 1;
    }
}

/// Packs one chunk (EBML header followed by its Segment) into a 288 000-byte
/// PCM block. The Segment starts at the first occurrence of the Segment ID;
/// `chunk_index` only serves the error texts.
pub fn build_pcm_block(chunk: &[u8], chunk_index: usize) -> (r: Result<Vec<u8>, PcmBlockError>)
    ensures
        r matches Ok(b) ==> packed_block(chunk@, chunk_index) == Ok::<Seq<u8>, PcmBlockError>(b@),
        r matches Err(e) ==> packed_block(chunk@, chunk_index) == Err::<Seq<u8>, PcmBlockError>(e),
        r matches Ok(b) ==> b@.len() == BLOCK_SIZE,
        r matches Ok(b) ==> ({
            let k = first_segment_id(chunk@)->Some_0;
            &&& k + 4 <= chunk@.len()
            &&& chunk@.subrange(k as int, k + 4 as int) == seq![0x18u8, 0x53u8, 0x80u8, 0x67u8]
            &&& 20 + chunk@.len() <= 288000
            &&& read_be32(b@, 0) == 0xFFFF_FFFF
            &&& read_be32(b@, 4) == chunk@.len() - k
            &&& read_be32(b@, 8) == 288000
            &&& read_be32(b@, 12) == k
            &&& read_be32(b@, 16) == 0xFFFF_FFFF
            &&& b@.subrange(20, 20 + chunk@.len() as int) == chunk@
            &&& forall|i: int| 20 + chunk@.len() <= i < 288000 ==> b@[i] == 0
        }),
        r matches Err(PcmBlockError::MissingSegmentId { chunk_index: i }) ==> i == chunk_index
            && forall|j: int|
            0 <= j && j + 4 <= chunk@.len() ==> #[trigger] chunk@.subrange(j, j + 4) != seq![
                0x18u8,
                0x53u8,
                0x80u8,
                0x67u8,
            ],
        r matches Err(PcmBlockError::TooLarge { chunk_index: i, ebml_len, segment_len }) ==> i
            == chunk_index && ebml_len + segment_len == chunk@.len() && 20 + chunk@.len() > 288000,
        r is Err <==> (first_segment_id(chunk@) is None || 20 + chunk@.len() > 288000),
{
    proof {
        lemma_segment_search(chunk@, 0);
        lemma_segment_id_bytes(chunk@);
        if let Some(k) = first_segment_id(chunk@) {
            if BLOCK_HEADER_SIZE + chunk@.len() <= BLOCK_SIZE {
                lemma_block_roundtrip(chunk@, k);
                let b = pcm_block_bytes(chunk@, k);
                assert forall|i: int| 20 + chunk@.len() <= i < 288000 implies b[i] == 0 by {}
            }
        }
    }
    let seg_offset = match find_segment_id(chunk) {
        Some(k) => k,
        None => {
            return Err(PcmBlockError::MissingSegmentId { chunk_index });
        },
    };
    let le = seg_offset;
    let lv = chunk.len() - seg_offset;
    if chunk.len() > BLOCK_SIZE - BLOCK_HEADER_SIZE {
        return Err(PcmBlockError::TooLarge { chunk_index, ebml_len: le, segment_len: lv });
    }
    let padding_len = BLOCK_SIZE - BLOCK_HEADER_SIZE - chunk.len();
    let mut block: Vec<u8> = Vec::with_capacity(BLOCK_SIZE);
    push_be32(&mut block, MAGIC);
    push_be32(&mut block, lv as u32);
    push_be32(&mut block, BLOCK_SIZE as u32);
    push_be32(&mut block, le as u32);
    push_be32(&mut block, MAGIC);
    push_range(&mut block, chunk, 0, chunk.len());
    push_zeros(&mut block, padding_len);
    proof {
        assert(chunk@.subrange(0, chunk@.len() as int) =~= chunk@);
    }
    Ok(block)
}

} // verus!

verus! {

/// Both H1 and H2 of block `b` hold 0xFFFFFFFF.
pub open spec fn block_magic_ok(b: Seq<u8>) -> bool {
    read_be32(b, 0) == MAGIC && read_be32(b, 16) == MAGIC
}

/// The Segment length Lv that block `b` declares.
pub open spec fn block_lv(b: Seq<u8>) -> int {
    read_be32(b, 4)
}

/// The block length Lb that block `b` declares.
pub open spec fn block_lb(b: Seq<u8>) -> int {
    read_be32(b, 8)
}

/// The EBML header length Le that block `b` declares.
pub open spec fn block_le(b: Seq<u8>) -> int {
    read_be32(b, 12)
}

/// Header, EBML header and Segment of block `b` fit in a block.
pub open spec fn block_fits(b: Seq<u8>) -> bool {
    BLOCK_HEADER_SIZE + block_le(b) + block_lv(b) <= BLOCK_SIZE
}

/// The EBML header of block `b` has at least 4 bytes and starts with 0x1A45DFA3.
pub open spec fn block_ebml_ok(b: Seq<u8>) -> bool {
    block_le(b) >= 4 && b.subrange(20, 24) == ebml_magic()
}

/// The Segment of block `b` has at least 4 bytes and starts with the Segment ID.
pub open spec fn block_segment_ok(b: Seq<u8>) -> bool {
    block_lv(b) >= 4 && b.subrange(20 + block_le(b), 24 + block_le(b)) == segment_id()
}

/// The chunk that block `b` carries: its EBML header followed by its Segment.
pub open spec fn block_chunk(b: Seq<u8>) -> Seq<u8> {
    b.subrange(20, 20 + block_le(b) + block_lv(b))
}

/// A chunk whose Segment starts at `ebml_len` has an EBML header of at least
/// 4 bytes that starts with 0x1A45DFA3.
pub open spec fn chunk_ebml_ok(chunk: Seq<u8>, ebml_len: nat) -> bool {
    ebml_len >= 4 && chunk.subrange(0, 4) == ebml_magic()
}

/// What reading one block gives.
#[derive(Debug, PartialEq, Eq)]
pub enum BlockVerdict {
    /// H1 or H2 is not 0xFFFFFFFF; nothing else is read.
    MagicMismatch,
    /// Header, EBML header and Segment would not fit in the block.
    Oversized { lb_ok: bool },
    /// The Segment does not start with the Segment ID.
    MissingSegment { lb_ok: bool, ebml_ok: bool },
    /// The chunk (EBML header followed by Segment) was recovered.
    Recovered { lb_ok: bool, ebml_ok: bool, chunk: Vec<u8> },
}

/// `v` is what reading block `b` gives.
pub open spec fn verdict_of(v: BlockVerdict, b: Seq<u8>) -> bool {
    if !block_magic_ok(b) {
        v is MagicMismatch
    } else if !block_fits(b) {
        v matches BlockVerdict::Oversized { lb_ok } && lb_ok == (block_lb(b) == BLOCK_SIZE)
    } else if !block_segment_ok(b) {
        v matches BlockVerdict::MissingSegment { lb_ok, ebml_ok } && lb_ok == (block_lb(b)
            == BLOCK_SIZE) && ebml_ok == block_ebml_ok(b)
    } else {
        v matches BlockVerdict::Recovered { lb_ok, ebml_ok, chunk } && lb_ok == (block_lb(b)
            == BLOCK_SIZE) && ebml_ok == block_ebml_ok(b) && chunk@ == block_chunk(b)
    }
}

fn bytes_equal4(s: &[u8], off: usize, t0: u8, t1: u8, t2: u8, t3: u8) -> (b: bool)
    requires
        off + 4 <= s@.len(),
    ensures
        b == (s@.subrange(off as int, off + 4) == seq![t0, t1, t2, t3]),
{
    let b = s[off] == t0 && s[off + 1] == t1 && s[off + 2] == t2 && s[off + 3] == t3;
    proof {
        let w = s@.subrange(off as int, off + 4);
        if b {
            assert(w =~= seq![t0, t1, t2, t3]);
        } else if w == seq![t0, t1, t2, t3] {
            assert(w[0] == t0 && w[1] == t1 && w[2] == t2 && w[3] == t3);
        }
    }
    b
}

/// Reads one 288 000-byte block: its magic numbers, declared lengths, EBML
/// header and Segment, and recovers the chunk it carries.
pub fn decode_pcm_block(block: &[u8]) -> (v: BlockVerdict)
    requires
        block@.len() == BLOCK_SIZE,
    ensures
        verdict_of(v, block@),
{
    let h1 = get_be32(block, 0);
    if h1 != MAGIC {
        return BlockVerdict::MagicMismatch;
    }
    let lv = get_be32(block, 4);
    let lb = get_be32(block, 8);
    let le = get_be32(block, 12);
    let h2 = get_be32(block, 16);
    if h2 != MAGIC {
        return BlockVerdict::MagicMismatch;
    }
    let lb_ok = lb as usize == BLOCK_SIZE;
    if (BLOCK_HEADER_SIZE as u64) + (le as u64) + (lv as u64) > BLOCK_SIZE as u64 {
        return BlockVerdict::Oversized { lb_ok };
    }
    let le = le as usize;
    let lv = lv as usize;
    let ebml_ok = le >= 4 && bytes_equal4(block, BLOCK_HEADER_SIZE, 0x1A, 0x45, 0xDF, 0xA3);
    proof {
        if le >= 4 {
            assert(ebml_magic() == seq![0x1Au8, 0x45u8, 0xDFu8, 0xA3u8]);
        }
    }
    let seg_start = BLOCK_HEADER_SIZE + le;
    if !(lv >= 4 && bytes_equal4(block, seg_start, 0x18, 0x53, 0x80, 0x67)) {
        return BlockVerdict::MissingSegment { lb_ok, ebml_ok };
    }
    let mut chunk: Vec<u8> = Vec::with_capacity(le + lv);
    push_range(&mut chunk, block, BLOCK_HEADER_SIZE, seg_start + lv);
    BlockVerdict::Recovered { lb_ok, ebml_ok, chunk }
}

/// A block built by `build_pcm_block` reads back with its magic numbers,
/// Lb = 288 000, Le and Lv that split the chunk where its Segment ID first
/// occurs, a valid Segment, and the very chunk that was packed; its EBML
/// check holds exactly when the chunk starts with an EBML header ID.
pub proof fn lemma_block_roundtrip(chunk: Seq<u8>, k: nat)
    requires
        first_segment_id(chunk) == Some(k),
        BLOCK_HEADER_SIZE + chunk.len() <= BLOCK_SIZE,
    ensures
        ({
            let b = pcm_block_bytes(chunk, k);
            &&& b.len() == BLOCK_SIZE
            &&& block_magic_ok(b)
            &&& block_lb(b) == BLOCK_SIZE
            &&& block_le(b) == k
            &&& block_lv(b) == chunk.len() - k
            &&& block_fits(b)
            &&& block_segment_ok(b)
            &&& block_chunk(b) == chunk
            &&& block_ebml_ok(b) == chunk_ebml_ok(chunk, k)
        }),
{
    lemma_segment_search(chunk, 0);
    let b = pcm_block_bytes(chunk, k);
    let lv = (chunk.len() - k) as u32;
    let lb = BLOCK_SIZE as u32;
    let le = k as u32;
    assert(b.len() == BLOCK_SIZE);
    lemma_be32_roundtrip(MAGIC);
    lemma_be32_roundtrip(lv);
    lemma_be32_roundtrip(lb);
    lemma_be32_roundtrip(le);
    assert(read_be32(b, 0) == read_be32(be32(MAGIC), 0));
    assert(read_be32(b, 4) == read_be32(be32(lv), 0));
    assert(read_be32(b, 8) == read_be32(be32(lb), 0));
    assert(read_be32(b, 12) == read_be32(be32(le), 0));
    assert(read_be32(b, 16) == read_be32(be32(MAGIC), 0));
    assert(b.subrange(20, 20 + chunk.len() as int) =~= chunk);
    assert(b.subrange(20 + k as int, 24 + k as int) =~= chunk.subrange(k as int, k + 4 as int));
    if k >= 4 {
        assert(b.subrange(20, 24) =~= chunk.subrange(0, 4));
    }
}

} // verus!
