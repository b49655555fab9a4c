use vp9_to_wav_dcp::pcm::build_pcm_block;
use vp9_to_wav_dcp::scan::{scan_blocks, BlockScan};
use vp9_to_wav_dcp::validation::{
    all_checks_ok, check_blocks, check_header, fail, finish_validation, no_video, ok, CheckItem,
    ValidationStep,
};
use vp9_to_wav_dcp::wav::WavData;

fn sample_chunk(seed: u8, segment_len: usize) -> Vec<u8> {
    let mut c = vec![0x1A, 0x45, 0xDF, 0xA3, seed, seed, seed, seed];
    c.extend_from_slice(&[0x18, 0x53, 0x80, 0x67]);
    while c.len() < 8 + segment_len {
        c.push(seed.wrapping_add(c.len() as u8));
    }
    c
}

fn packed(chunks: &[Vec<u8>]) -> Vec<u8> {
    let mut data = Vec::new();
    for (i, c) in chunks.iter().enumerate() {
        data.extend(build_pcm_block(c, i).unwrap());
    }
    data
}

fn labels(checks: &[CheckItem]) -> Vec<(String, bool)> {
    checks.iter().map(|c| (c.label.clone(), c.ok)).collect()
}

fn good_meta() -> WavData {
    WavData { sample_rate: 48_000, bits_per_sample: 24, channels: 1, data_offset: 44, data_size: 0 }
}

#[test]
fn ok_and_fail_items() {
    let c = ok("A", "b");
    assert_eq!((c.label.as_str(), c.ok, c.detail.as_str()), ("A", true, "b"));
    let c = fail("A", "b");
    assert_eq!((c.label.as_str(), c.ok, c.detail.as_str()), ("A", false, "b"));
    let r = no_video(vec![ok("x", "y")]);
    assert_eq!(r.checks.len(), 1);
    assert_eq!((r.total_chunks, r.good_chunks, r.duration_secs), (0, 0, 0));
    assert!(r.video_path.is_none() && r.video_info.is_none() && !r.all_ok);
}

#[test]
fn all_checks_ok_needs_every_check() {
    assert!(all_checks_ok(&vec![]));
    assert!(all_checks_ok(&vec![ok("a", ""), ok("b", "")]));
    assert!(!all_checks_ok(&vec![ok("a", ""), fail("b", "")]));
}

#[test]
fn packed_chunks_scan_back() {
    let chunks = vec![sample_chunk(1, 1000), sample_chunk(2, 20_000), sample_chunk(3, 5)];
    let data = packed(&chunks);
    let scan = scan_blocks(&data);
    assert_eq!(scan.total_blocks, 3);
    assert_eq!(scan.remainder, 0);
    assert!(scan.magic_ok && scan.lb_ok && scan.ebml_ok && scan.segment_ok && scan.size_ok);
    let got: Vec<(usize, Vec<u8>)> = scan.chunks.iter().map(|c| (c.index, c.bytes.clone())).collect();
    let want: Vec<(usize, Vec<u8>)> = chunks.into_iter().enumerate().collect();
    assert_eq!(got, want);
}

#[test]
fn scan_skips_broken_blocks_and_counts_fragment() {
    let chunks = vec![sample_chunk(1, 100), sample_chunk(2, 100), sample_chunk(3, 100)];
    let mut data = packed(&chunks);
    data[288_000] = 0; // H1 of block 1
    data[2 * 288_000 + 28] = 0; // first byte of the Segment ID of block 2
    data.extend_from_slice(&[7, 7, 7]);
    let scan = scan_blocks(&data);
    assert_eq!(scan.total_blocks, 3);
    assert_eq!(scan.remainder, 3);
    assert!(!scan.magic_ok);
    assert!(!scan.segment_ok);
    assert!(scan.lb_ok && scan.ebml_ok && scan.size_ok);
    assert_eq!(scan.chunks.len(), 1);
    assert_eq!(scan.chunks[0].index, 0);
}

#[test]
fn unreadable_header_ends_the_report() {
    match check_header(Err("failed to fill whole buffer".to_string())) {
        ValidationStep::Finished(r) => {
            assert_eq!(labels(&r.checks), vec![("Cabeçalho WAV".to_string(), false)]);
            assert_eq!(r.checks[0].detail, "failed to fill whole buffer");
            assert!(!r.all_ok);
        }
        ValidationStep::Continue(_) => panic!("must stop"),
    }
}

#[test]
fn wrong_format_ends_the_report() {
    let meta = WavData { sample_rate: 44_100, ..good_meta() };
    match check_header(Ok(meta)) {
        ValidationStep::Finished(r) => {
            assert_eq!(
                labels(&r.checks),
                vec![("Cabeçalho WAV".to_string(), true), ("Formato WAV".to_string(), false)]
            );
            assert_eq!(r.checks[0].detail, "44100 Hz, 24-bit, 1 canal(is), PCM");
        }
        ValidationStep::Continue(_) => panic!("must stop"),
    }
}

#[test]
fn good_header_continues() {
    match check_header(Ok(good_meta())) {
        ValidationStep::Continue(c) => {
            assert_eq!(c.len(), 2);
            assert_eq!(c[0].detail, "48000 Hz, 24-bit, 1 canal(is), PCM");
            assert_eq!(c[1].detail, "48.000 Hz, 24-bit, mono — conforme ISDCF Doc 13");
            assert!(c[1].ok);
        }
        ValidationStep::Finished(_) => panic!("must continue"),
    }
}

#[test]
fn no_blocks_ends_the_report() {
    let scan = scan_blocks(&[1, 2, 3]);
    match check_blocks(vec![ok("h", "")], &scan) {
        ValidationStep::Finished(r) => {
            assert_eq!(r.checks.len(), 2);
            assert_eq!(r.checks[1].label, "Estrutura de blocos");
            assert!(!r.checks[1].ok);
        }
        ValidationStep::Continue(_) => panic!("must stop"),
    }
}

#[test]
fn block_checks_in_order() {
    let data = packed(&[sample_chunk(1, 100), sample_chunk(2, 100)]);
    let scan = scan_blocks(&data);
    match check_blocks(vec![], &scan) {
        ValidationStep::Continue(c) => {
            let names: Vec<&str> = c.iter().map(|x| x.label.as_str()).collect();
            assert_eq!(
                names,
                vec![
                    "Estrutura de blocos",
                    "Magic numbers",
                    "Consistência de Lb",
                    "EBML Headers",
                    "VP9 Segments",
                    "Tamanhos consistentes",
                    "Duração reconstruída"
                ]
            );
            assert!(c.iter().all(|x| x.ok));
            assert_eq!(c[0].detail, "2 bloco(s) completo(s) de 288.000 bytes");
            assert_eq!(c[4].detail, "ID de Segment (0x18538067) presente em 2 chunk(s)");
            assert_eq!(c[6].detail, "4.0 s (2 chunk(s) × 2 s)");
        }
        ValidationStep::Finished(_) => panic!("must continue"),
    }
}

#[test]
fn fragment_is_reported() {
    let mut data = packed(&[sample_chunk(1, 100)]);
    data.extend_from_slice(&[0; 10]);
    let scan = scan_blocks(&data);
    match check_blocks(vec![], &scan) {
        ValidationStep::Continue(c) => {
            assert!(!c[0].ok);
            assert_eq!(
                c[0].detail,
                "Encontrado(s) 1 bloco(s) completo(s), mas o último fragmento tem 10 bytes em vez de 288.000."
            );
        }
        ValidationStep::Finished(_) => panic!("must continue"),
    }
}

#[test]
fn no_recovered_chunk_ends_the_report() {
    let data = vec![0u8; 288_000];
    let scan = scan_blocks(&data);
    match check_blocks(vec![], &scan) {
        ValidationStep::Finished(r) => {
            assert_eq!(r.checks.len(), 8);
            assert_eq!(r.checks[7].label, "Reconstrução");
            assert_eq!(
                r.checks[7].detail,
                "Nenhum chunk válido encontrado para reconstruir o vídeo."
            );
            assert_eq!(r.checks[6].detail, "0.0 s (0 chunk(s) × 2 s)");
            assert!(!r.checks[1].ok);
        }
        ValidationStep::Continue(_) => panic!("must stop"),
    }
}

fn three_chunk_scan() -> BlockScan {
    let data = packed(&[sample_chunk(1, 100), sample_chunk(2, 100), sample_chunk(3, 100)]);
    scan_blocks(&data)
}

#[test]
fn finished_report_with_video() {
    let scan = three_chunk_scan();
    let r = finish_validation(vec![ok("a", "")], &scan, Ok("/tmp/recovered.webm".to_string()));
    assert_eq!(r.total_chunks, 3);
    assert_eq!(r.good_chunks, 3);
    assert_eq!(r.duration_secs, 6);
    assert_eq!(r.video_path.as_deref(), Some("/tmp/recovered.webm"));
    assert_eq!(
        r.video_info.as_deref(),
        Some("480×640 · 24 fps · VP9 · 144 frames · duração 6.0 s")
    );
    assert_eq!(r.checks[1].detail, "Vídeo reconstruído com 3 chunk(s)");
    assert!(r.all_ok);
}

#[test]
fn finished_report_after_failed_join() {
    let scan = three_chunk_scan();
    let r = finish_validation(vec![ok("a", "")], &scan, Err("sem ffmpeg".to_string()));
    assert!(r.video_path.is_none());
    assert!(r.video_info.is_none());
    assert_eq!(r.checks[1].detail, "Falha ao concatenar chunks: sem ffmpeg");
    assert!(!r.all_ok);
    assert_eq!(r.duration_secs, 6);
}
