use vp9_to_wav_dcp::chunks::{chunk_file_name, select_chunk_files};
use vp9_to_wav_dcp::pcm::build_pcm_block;
use vp9_to_wav_dcp::scan::scan_blocks;
use vp9_to_wav_dcp::validation::{check_blocks, check_header, finish_validation, ValidationStep};
use vp9_to_wav_dcp::wav::{parse_wav_header, wav_header};

fn sample_chunk(seed: u8, segment_len: usize) -> Vec<u8> {
    let mut c = vec![0x1A, 0x45, 0xDF, 0xA3, 0x9F, 0x42, 0x86, seed];
    c.extend_from_slice(&[0x18, 0x53, 0x80, 0x67]);
    while c.len() < 8 + segment_len {
        c.push(seed ^ (c.len() as u8));
    }
    c
}

#[test]
fn packed_wav_file_validates_and_gives_back_its_chunks() {
    let chunks = vec![sample_chunk(1, 250_000), sample_chunk(2, 120), sample_chunk(3, 287_972)];
    let mut data = Vec::new();
    for (i, c) in chunks.iter().enumerate() {
        data.extend(build_pcm_block(c, i).unwrap());
    }
    let mut file = wav_header(data.len() as u64);
    file.extend_from_slice(&data);

    let meta = parse_wav_header(&file[..44]).unwrap();
    assert_eq!(meta.data_size, data.len() as u64);
    let start = meta.data_offset as usize;
    let region = &file[start..start + meta.data_size as usize];

    let checks = match check_header(Ok(meta)) {
        ValidationStep::Continue(c) => c,
        ValidationStep::Finished(_) => panic!("header must pass"),
    };
    let scan = scan_blocks(region);
    let checks = match check_blocks(checks, &scan) {
        ValidationStep::Continue(c) => c,
        ValidationStep::Finished(_) => panic!("blocks must pass"),
    };
    let recovered: Vec<Vec<u8>> = scan.chunks.iter().map(|c| c.bytes.clone()).collect();
    assert_eq!(recovered, chunks);
    let r = finish_validation(checks, &scan, Ok("v.webm".to_string()));
    assert!(r.all_ok);
    assert_eq!(r.checks.len(), 10);
    assert_eq!(r.good_chunks, 3);
    assert_eq!(r.duration_secs, 6);
}

#[test]
fn chunk_names_follow_numbers() {
    let mut names: Vec<String> = [12, 3, 99_999, 0, 100, 1_000, 10, 9].iter().map(|i| chunk_file_name(*i)).collect();
    names.reverse();
    let sorted = select_chunk_files(names).unwrap();
    let expected: Vec<String> = [0, 3, 9, 10, 12, 100, 1_000, 99_999].iter().map(|i| chunk_file_name(*i)).collect();
    assert_eq!(sorted, expected);
}
