use vp9_to_wav_dcp::analyzer::{build_video_info, Attribute, AttributeStatus};
use vp9_to_wav_dcp::packager::{
    encoder_step, EncodeError, EncoderAction, EncoderEvent, expected_chunk_count, largest_chunk, next_target_kbps, start_packing, step_packing,
    PackAction, PackError, PackEvent, PackPhase,
};

fn attr(status: AttributeStatus) -> Attribute {
    Attribute { current: "x".to_string(), target: None, status, label: "l".to_string() }
}

fn conformant_info() -> vp9_to_wav_dcp::analyzer::VideoInfo {
    build_video_info(
        Some("vp9".to_string()),
        Some("yuv420p".to_string()),
        Some(480),
        Some(640),
        attr(AttributeStatus::Conformant),
        attr(AttributeStatus::Conformant),
        6_000_000,
    )
}

#[test]
fn bitrate_ladder() {
    let mut k = 900;
    let mut seen = vec![k];
    while let Some(n) = next_target_kbps(k) {
        assert!(n < k && n >= 300);
        seen.push(n);
        k = n;
    }
    assert_eq!(seen, vec![900, 765, 650, 552, 469, 398, 338]);
}

#[test]
fn chunk_counts() {
    assert_eq!(expected_chunk_count(0), 0);
    assert_eq!(expected_chunk_count(2_000_000), 1);
    assert_eq!(expected_chunk_count(2_000_001), 2);
    assert_eq!(expected_chunk_count(9_500_000), 5);
    assert_eq!(largest_chunk(&[]), 0);
    assert_eq!(largest_chunk(&[5, 300_000, 7]), 300_000);
}

#[test]
fn conformant_input_is_reused_when_chunks_fit() {
    let (p, a) = start_packing(false, &conformant_info(), 3);
    assert_eq!(a, PackAction::SegmentInput);
    assert_eq!(p.phase, PackPhase::CheckingInput);
    let (p, a) = step_packing(p, PackEvent::Segmented { chunk_count: 3, max_chunk_bytes: 287_980 });
    assert_eq!(a, PackAction::Assemble);
    assert_eq!(p.phase, PackPhase::Done);
}

#[test]
fn misaligned_input_is_encoded() {
    let (p, _) = start_packing(false, &conformant_info(), 3);
    let (p, a) = step_packing(p, PackEvent::Segmented { chunk_count: 4, max_chunk_bytes: 1000 });
    assert_eq!(a, PackAction::Encode { target_kbps: 900 });
    assert_eq!(p.phase, PackPhase::Encoding);
    let (_, a) = start_packing(true, &conformant_info(), 3);
    assert_eq!(a, PackAction::Encode { target_kbps: 900 });
}

#[test]
fn retries_until_the_floor() {
    let (mut p, mut a) = start_packing(true, &conformant_info(), 3);
    let mut encodes = Vec::new();
    loop {
        match a {
            PackAction::Encode { target_kbps } => {
                encodes.push(target_kbps);
                let (q, b) = step_packing(p, PackEvent::Encoded);
                assert_eq!(b, PackAction::SegmentEncoded);
                let (q, b) = step_packing(q, PackEvent::Segmented { chunk_count: 3, max_chunk_bytes: 400_000 });
                p = q;
                a = b;
            }
            PackAction::Fail(e) => {
                assert_eq!(e, PackError::ChunkTooLarge { max_chunk_bytes: 400_000 });
                break;
            }
            other => panic!("unexpected {:?}", other),
        }
    }
    assert_eq!(encodes, vec![900, 765, 650, 552, 469, 398, 338]);
}

#[test]
fn retry_then_fit() {
    let (p, _) = start_packing(true, &conformant_info(), 3);
    let (p, _) = step_packing(p, PackEvent::Encoded);
    let (p, a) = step_packing(p, PackEvent::Segmented { chunk_count: 3, max_chunk_bytes: 300_000 });
    assert_eq!(a, PackAction::Encode { target_kbps: 765 });
    let (p, _) = step_packing(p, PackEvent::Encoded);
    let (_, a) = step_packing(p, PackEvent::Segmented { chunk_count: 3, max_chunk_bytes: 287_980 });
    assert_eq!(a, PackAction::Assemble);
}

#[test]
fn cancel_and_empty_segmentation_fail() {
    let (p, _) = start_packing(true, &conformant_info(), 3);
    let (_, a) = step_packing(p, PackEvent::Cancelled);
    assert_eq!(a, PackAction::Fail(PackError::Cancelled));
    let (p, _) = step_packing(p, PackEvent::Encoded);
    let (_, a) = step_packing(p, PackEvent::Segmented { chunk_count: 0, max_chunk_bytes: 0 });
    assert_eq!(a, PackAction::Fail(PackError::NoChunks));
}

#[test]
fn pack_error_texts() {
    assert_eq!(PackError::Cancelled.message(), "Cancelado pelo usuário.");
    assert_eq!(
        PackError::NoChunks.message(),
        "Nenhum chunk de vídeo foi gerado. O vídeo pode ser muito curto."
    );
    assert_eq!(
        PackError::ChunkTooLarge { max_chunk_bytes: 300001 }.message(),
        "Mesmo reduzindo o bitrate ao mínimo, um trecho de 2s do vídeo não coube no bloco PCM (maior chunk: 300001 bytes, limite: 287980 bytes). O vídeo tem movimento ou detalhe demais. Tente reduzir a resolução ou simplificar o fundo."
    );
}

#[test]
fn encoder_events() {
    assert_eq!(encoder_step(EncoderEvent::Output), EncoderAction::Wait);
    assert_eq!(encoder_step(EncoderEvent::Closed), EncoderAction::Finish);
    assert_eq!(encoder_step(EncoderEvent::Terminated { code: Some(0) }), EncoderAction::Finish);
    assert_eq!(
        encoder_step(EncoderEvent::Terminated { code: Some(1) }),
        EncoderAction::Fail(EncodeError::ExitCode { code: Some(1) })
    );
    assert_eq!(
        encoder_step(EncoderEvent::Cancelled),
        EncoderAction::KillAndFail(EncodeError::Cancelled)
    );
}

#[test]
fn encode_error_texts() {
    assert_eq!(EncodeError::Cancelled.message(), "Cancelado pelo usuário.");
    assert_eq!(
        EncodeError::ExitCode { code: Some(1) }.message(),
        "A codificação falhou (código Some(1)). Verifique se o vídeo está íntegro."
    );
    assert_eq!(
        EncodeError::ExitCode { code: Some(-9) }.message(),
        format!("A codificação falhou (código {:?}). Verifique se o vídeo está íntegro.", Some(-9))
    );
    assert_eq!(
        EncodeError::ExitCode { code: None }.message(),
        "A codificação falhou (código None). Verifique se o vídeo está íntegro."
    );
    assert_eq!(
        EncodeError::ExitCode { code: Some(i32::MIN) }.message(),
        format!("A codificação falhou (código {:?}). Verifique se o vídeo está íntegro.", Some(i32::MIN))
    );
}
