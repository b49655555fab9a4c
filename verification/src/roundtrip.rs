//! What holds of a WAV written by the packer when it is validated: its
//! header reads back, its blocks give back the packed chunks, and every
//! check of the report passes.

use vstd::prelude::*;

use crate::pcm::{chunk_ebml_ok, first_segment_id};
use crate::scan::{chunks_view, packable, packed_chunks_are_recovered, packed_data, scan_of, BlockScan};
use crate::validation::{all_passed, block_checks, header_checks, header_usable};
use crate::wav::{lemma_written_header_reads_back, parsed_wav_header, wav_header_bytes, WavData};

verus! {

/// The header written before packed data passes both header checks, so
/// the validation goes on.
pub proof fn written_header_passes_checks(file_size: u32, data_size: u32)
    ensures
        ({
            let parsed = parsed_wav_header(wav_header_bytes(file_size, data_size));
            let header: Result<WavData, Seq<char>> = Ok(parsed->Ok_0);
            &&& parsed is Ok
            &&& header_usable(header)
            &&& all_passed(header_checks(header))
        }),
{
    lemma_written_header_reads_back(file_size, data_size);
}

/// PCM data made by packing at least one chunk, each starting with an EBML
/// header, passes every block check, and the validation goes on to rebuild
/// a video from all the chunks.
pub proof fn packed_data_passes_block_checks(chunks: Seq<Seq<u8>>, scan: BlockScan)
    requires
        chunks.len() > 0,
        forall|j: int| 0 <= j < chunks.len() ==> packable(#[trigger] chunks[j]),
        forall|j: int|
            0 <= j < chunks.len() ==> chunk_ebml_ok(
                #[trigger] chunks[j],
                first_segment_id(chunks[j])->Some_0,
            ),
        scan_of(scan, packed_data(chunks)),
    ensures
        scan.total_blocks == chunks.len(),
        scan.chunks@.len() == chunks.len(),
        all_passed(block_checks(scan)),
{
    packed_chunks_are_recovered(chunks, scan);
    assert(chunks_view(scan.chunks@).len() == scan.chunks@.len());
}

} // verus!

verus! {

/// A WAV file made of the header written for `data` followed by `data`
/// reads back as a 48 kHz, 24-bit, mono PCM file whose data is `data`,
/// when `data` is under 4 GiB.
proof fn lemma_wav_file_reads_back(data: Seq<u8>)
    requires
        data.len() < 0x1_0000_0000,
    ensures
        ({
            let d = data.len();
            let file = wav_header_bytes((d + 36) as u32, d as u32) + data;
            let parsed = parsed_wav_header(file.subrange(0, 44));
            let header: Result<WavData, Seq<char>> = Ok(parsed->Ok_0);
            &&& parsed is Ok
            &&& parsed->Ok_0.data_offset == 44
            &&& parsed->Ok_0.data_size == d
            &&& file.subrange(44, 44 + d as int) == data
            &&& header_usable(header)
            &&& all_passed(header_checks(header))
        }),
{
    let d = data.len();
    let h = wav_header_bytes((d + 36) as u32, d as u32);
    let file = h + data;
    lemma_written_header_reads_back((d + 36) as u32, d as u32);
    assert(h.len() == 44);
    assert(file.subrange(0, 44) =~= h);
    assert(file.subrange(44, 44 + d as int) =~= data);
    written_header_passes_checks((d + 36) as u32, d as u32);
}

/// A WAV file written by the packer from at least one chunk, each starting
/// with an EBML header, validates: its header reads back as a 48 kHz,
/// 24-bit, mono PCM file whose data is exactly the packed blocks, both
/// header checks pass, every block check passes, and every chunk is
/// recovered. (The size fields of a WAV hold 32 bits, so the data must stay
/// under 4 GiB.)
pub proof fn packed_wav_validates(chunks: Seq<Seq<u8>>, scan: BlockScan)
    requires
        chunks.len() > 0,
        forall|j: int| 0 <= j < chunks.len() ==> packable(#[trigger] chunks[j]),
        forall|j: int|
            0 <= j < chunks.len() ==> chunk_ebml_ok(
                #[trigger] chunks[j],
                first_segment_id(chunks[j])->Some_0,
            ),
        packed_data(chunks).len() < 0x1_0000_0000,
        scan_of(scan, packed_data(chunks)),
    ensures
        ({
            let data = packed_data(chunks);
            let d = data.len();
            let file = wav_header_bytes((d + 36) as u32, d as u32) + data;
            let parsed = parsed_wav_header(file.subrange(0, 44));
            let header: Result<WavData, Seq<char>> = Ok(parsed->Ok_0);
            &&& parsed is Ok
            &&& parsed->Ok_0.data_offset == 44
            &&& parsed->Ok_0.data_size == d
            &&& file.subrange(44, 44 + d as int) == data
            &&& header_usable(header)
            &&& all_passed(header_checks(header))
            &&& all_passed(block_checks(scan))
            &&& chunks_view(scan.chunks@) == Seq::new(chunks.len(), |i: int| (i, chunks[i]))
        }),
{
    lemma_wav_file_reads_back(packed_data(chunks));
    packed_data_passes_block_checks(chunks, scan);
    packed_chunks_are_recovered(chunks, scan);
}

} // verus!
