use vp9_to_wav_dcp::wav::{
    parse_wav_header, placeholder_header, validate_wav_format, wav_header, WavData, WavHeaderError,
};

fn expected_header(file_size: u32, data_size: u32) -> Vec<u8> {
    let mut h = Vec::new();
    h.extend_from_slice(b"RIFF");
    h.extend_from_slice(&file_size.to_le_bytes());
    h.extend_from_slice(b"WAVE");
    h.extend_from_slice(b"fmt ");
    h.extend_from_slice(&16u32.to_le_bytes());
    h.extend_from_slice(&1u16.to_le_bytes());
    h.extend_from_slice(&1u16.to_le_bytes());
    h.extend_from_slice(&48_000u32.to_le_bytes());
    h.extend_from_slice(&144_000u32.to_le_bytes());
    h.extend_from_slice(&3u16.to_le_bytes());
    h.extend_from_slice(&24u16.to_le_bytes());
    h.extend_from_slice(b"data");
    h.extend_from_slice(&data_size.to_le_bytes());
    h
}

#[test]
fn placeholder_header_has_zero_sizes() {
    let h = placeholder_header();
    assert_eq!(h.len(), 44);
    assert_eq!(h, expected_header(0, 0));
}

#[test]
fn final_header_holds_both_sizes() {
    let h = wav_header(576_000);
    assert_eq!(h, expected_header(576_036, 576_000));
}

#[test]
fn final_header_keeps_low_32_bits_of_sizes() {
    let h = wav_header(0x1_0000_0005);
    assert_eq!(h, expected_header(41, 5));
}

#[test]
fn written_header_reads_back() {
    let h = wav_header(288_000);
    let meta = parse_wav_header(&h).unwrap();
    assert_eq!(meta.sample_rate, 48_000);
    assert_eq!(meta.bits_per_sample, 24);
    assert_eq!(meta.channels, 1);
    assert_eq!(meta.data_offset, 44);
    assert_eq!(meta.data_size, 288_000);
    assert!(validate_wav_format(&meta).is_none());
}

#[test]
fn header_errors_name_the_first_misplaced_tag() {
    let good = wav_header(10);
    let mut h = good.clone();
    h[0] = b'X';
    assert_eq!(parse_wav_header(&h).err(), Some(WavHeaderError::MissingRiff));
    let mut h = good.clone();
    h[9] = b'X';
    assert_eq!(parse_wav_header(&h).err(), Some(WavHeaderError::MissingWave));
    let mut h = good.clone();
    h[15] = b'X';
    assert_eq!(parse_wav_header(&h).err(), Some(WavHeaderError::MissingFmt));
    let mut h = good.clone();
    h[36] = b'X';
    assert_eq!(parse_wav_header(&h).err(), Some(WavHeaderError::MissingData));
    let mut h = good;
    h[20] = 3;
    assert_eq!(
        parse_wav_header(&h).err(),
        Some(WavHeaderError::Compressed { audio_format: 3 })
    );
}

#[test]
fn header_error_texts() {
    assert_eq!(
        WavHeaderError::MissingRiff.message(),
        "Este arquivo não é um WAV válido (marcador RIFF ausente)."
    );
    assert_eq!(
        WavHeaderError::MissingData.message(),
        "Este WAV não tem o sub-chunk 'data' no local esperado."
    );
    assert_eq!(
        WavHeaderError::Compressed { audio_format: 85 }.message(),
        "Este WAV está comprimido (formato 85). É necessário WAV PCM linear (formato 1)."
    );
}

#[test]
fn other_formats_are_explained() {
    let meta = WavData {
        sample_rate: 44_100,
        bits_per_sample: 16,
        channels: 2,
        data_offset: 44,
        data_size: 0,
    };
    assert_eq!(
        validate_wav_format(&meta).unwrap(),
        "Este WAV está no formato 44100 Hz, 16-bit, 2 canal(is). Para conter vídeo ISDCF Doc 13, ele precisa ser 48.000 Hz, 24-bit, mono."
    );
}

#[test]
fn fields_are_read_little_endian() {
    let mut h = expected_header(0, 0);
    h[24..28].copy_from_slice(&96_000u32.to_le_bytes());
    h[22..24].copy_from_slice(&6u16.to_le_bytes());
    h[34..36].copy_from_slice(&32u16.to_le_bytes());
    h[40..44].copy_from_slice(&0xDEAD_BEEFu32.to_le_bytes());
    let meta = parse_wav_header(&h).unwrap();
    assert_eq!(meta.sample_rate, 96_000);
    assert_eq!(meta.channels, 6);
    assert_eq!(meta.bits_per_sample, 32);
    assert_eq!(meta.data_size, 0xDEAD_BEEF);
    assert!(validate_wav_format(&meta).is_some());
}
