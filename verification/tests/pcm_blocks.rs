use vp9_to_wav_dcp::pcm::{
    build_pcm_block, decode_pcm_block, find_segment_id, BlockVerdict, PcmBlockError, BLOCK_SIZE,
};

fn sample_chunk(ebml_len: usize, segment_len: usize) -> Vec<u8> {
    let mut c = vec![0x1A, 0x45, 0xDF, 0xA3];
    while c.len() < ebml_len {
        c.push(0x42);
    }
    c.extend_from_slice(&[0x18, 0x53, 0x80, 0x67]);
    while c.len() < ebml_len + segment_len {
        c.push((c.len() % 251) as u8);
    }
    c
}

#[test]
fn segment_id_first_occurrence() {
    assert_eq!(find_segment_id(&[1, 2, 0x18, 0x53, 0x80, 0x67, 0x18, 0x53, 0x80, 0x67]), Some(2));
    assert_eq!(find_segment_id(&[0x18, 0x53, 0x80]), None);
    assert_eq!(find_segment_id(&[]), None);
    assert_eq!(find_segment_id(&[0x18, 0x53, 0x80, 0x67]), Some(0));
}

#[test]
fn block_layout() {
    let chunk = sample_chunk(40, 1000);
    let block = build_pcm_block(&chunk, 0).unwrap();
    assert_eq!(block.len(), BLOCK_SIZE);
    assert_eq!(&block[0..4], &[0xFF; 4]);
    assert_eq!(&block[4..8], &1000u32.to_be_bytes());
    assert_eq!(&block[8..12], &288_000u32.to_be_bytes());
    assert_eq!(&block[12..16], &40u32.to_be_bytes());
    assert_eq!(&block[16..20], &[0xFF; 4]);
    assert_eq!(&block[20..1060], &chunk[..]);
    assert!(block[1060..].iter().all(|b| *b == 0));
}

#[test]
fn block_reads_back_to_its_chunk() {
    let chunk = sample_chunk(40, 5000);
    let block = build_pcm_block(&chunk, 3).unwrap();
    assert_eq!(
        decode_pcm_block(&block),
        BlockVerdict::Recovered { lb_ok: true, ebml_ok: true, chunk }
    );
}

#[test]
fn largest_chunk_fits_exactly() {
    let chunk = sample_chunk(100, 287_880);
    assert_eq!(chunk.len(), 287_980);
    let block = build_pcm_block(&chunk, 0).unwrap();
    assert_eq!(block.len(), BLOCK_SIZE);
    let too_big = sample_chunk(100, 287_881);
    assert_eq!(
        build_pcm_block(&too_big, 9),
        Err(PcmBlockError::TooLarge { chunk_index: 9, ebml_len: 100, segment_len: 287_881 })
    );
}

#[test]
fn chunk_without_segment_is_refused() {
    assert_eq!(
        build_pcm_block(&[0x1A, 0x45, 0xDF, 0xA3, 1, 2, 3], 4),
        Err(PcmBlockError::MissingSegmentId { chunk_index: 4 })
    );
}

#[test]
fn block_error_texts() {
    assert_eq!(
        PcmBlockError::MissingSegmentId { chunk_index: 4 }.message(),
        "Chunk 4 não contém o ID de Segment WebM (0x18538067). O arquivo pode estar corrompido."
    );
    assert_eq!(
        PcmBlockError::TooLarge { chunk_index: 2, ebml_len: 100, segment_len: 300_000 }.message(),
        "Chunk 2 é grande demais para um bloco PCM (header 20 + EBML 100 + Segment 300000 = 300120 > 288000). O bitrate ficou acima de 1 Mbps."
    );
}

#[test]
fn decode_reports_each_defect() {
    let chunk = sample_chunk(40, 1000);
    let good = build_pcm_block(&chunk, 0).unwrap();

    let mut b = good.clone();
    b[17] = 0;
    assert_eq!(decode_pcm_block(&b), BlockVerdict::MagicMismatch);

    let mut b = good.clone();
    b[8..12].copy_from_slice(&100u32.to_be_bytes());
    assert_eq!(
        decode_pcm_block(&b),
        BlockVerdict::Recovered { lb_ok: false, ebml_ok: true, chunk: chunk.clone() }
    );

    let mut b = good.clone();
    b[4..8].copy_from_slice(&300_000u32.to_be_bytes());
    assert_eq!(decode_pcm_block(&b), BlockVerdict::Oversized { lb_ok: true });

    let mut b = good.clone();
    b[60] = 0;
    assert_eq!(
        decode_pcm_block(&b),
        BlockVerdict::MissingSegment { lb_ok: true, ebml_ok: true }
    );

    let mut b = good;
    b[20] = 0;
    let mut broken = chunk;
    broken[0] = 0;
    assert_eq!(
        decode_pcm_block(&b),
        BlockVerdict::Recovered { lb_ok: true, ebml_ok: false, chunk: broken }
    );
}

#[test]
fn short_ebml_header_fails_its_check() {
    let chunk = vec![0x1A, 0x45, 0x18, 0x53, 0x80, 0x67, 9, 9];
    let block = build_pcm_block(&chunk, 0).unwrap();
    assert_eq!(
        decode_pcm_block(&block),
        BlockVerdict::Recovered { lb_ok: true, ebml_ok: false, chunk }
    );
}
