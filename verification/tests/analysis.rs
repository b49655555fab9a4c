use vp9_to_wav_dcp::analyzer::{
    bitrate_attribute, build_resolution_attribute, encode_filter, build_video_info, codec_attribute, find_video_stream,
    is_long_enough, is_reuse_eligible, pixel_format_attribute, Attribute, AttributeStatus,
};

fn attr(status: AttributeStatus) -> Attribute {
    Attribute { current: "x".to_string(), target: None, status, label: "l".to_string() }
}

#[test]
fn target_resolution_is_conformant() {
    let (a, crop, desc, filter) = build_resolution_attribute(480, 640);
    assert_eq!(a.current, "480×640");
    assert_eq!(a.status, AttributeStatus::Conformant);
    assert!(a.target.is_none());
    assert_eq!(a.label, "Resolução");
    assert!(!crop && desc.is_none() && filter.is_none());
}

#[test]
fn three_by_four_is_scaled() {
    let (a, crop, desc, filter) = build_resolution_attribute(960, 1280);
    assert_eq!(a.status, AttributeStatus::WillAdjust);
    assert_eq!(a.target.as_deref(), Some("480×640"));
    assert!(!crop && desc.is_none());
    assert_eq!(filter.as_deref(), Some("scale=480:640"));
    // 0.76 is within 0.02 of 0.75; 0.77 is not.
    assert_eq!(build_resolution_attribute(76, 100).0.status, AttributeStatus::WillAdjust);
    assert_eq!(build_resolution_attribute(77, 100).0.status, AttributeStatus::NeedsConfirm);
    assert_eq!(build_resolution_attribute(73, 100).0.status, AttributeStatus::NeedsConfirm);
    assert_eq!(build_resolution_attribute(74, 100).0.status, AttributeStatus::WillAdjust);
}

#[test]
fn landscape_is_cropped() {
    let (a, crop, desc, filter) = build_resolution_attribute(1920, 1080);
    assert_eq!(a.status, AttributeStatus::NeedsConfirm);
    assert_eq!(a.target.as_deref(), Some("480×640 (com crop)"));
    assert!(crop);
    assert_eq!(filter.as_deref(), Some("crop=ih*3/4:ih,scale=480:640"));
    assert_eq!(
        desc.as_deref(),
        Some("O vídeo é no formato paisagem (1920×1080). Será feito um crop centralizado para a proporção 3:4 (portrait), mantendo a altura completa e cortando as laterais.")
    );
}

#[test]
fn tall_portrait_is_cropped() {
    let (a, crop, desc, filter) = build_resolution_attribute(720, 1280);
    assert_eq!(a.status, AttributeStatus::NeedsConfirm);
    assert!(crop);
    assert_eq!(filter.as_deref(), Some("crop=iw:iw*4/3,scale=480:640"));
    assert_eq!(
        desc.as_deref(),
        Some("O vídeo é portrait (720×1280) mas não está na proporção 3:4. Será feito um crop centralizado cortando topo e base para encaixar em 480×640.")
    );
}

#[test]
fn square_and_wide_portrait_crop_the_sides() {
    let (a, crop, desc, filter) = build_resolution_attribute(640, 640);
    assert_eq!(a.status, AttributeStatus::NeedsConfirm);
    assert!(crop);
    assert_eq!(filter.as_deref(), Some("crop=ih*3/4:ih,scale=480:640"));
    assert_eq!(
        desc.as_deref(),
        Some("O vídeo é portrait (640×640) mas não está na proporção 3:4. Será feito um crop centralizado cortando as laterais para encaixar em 480×640.")
    );
    let (_, _, _, filter) = build_resolution_attribute(720, 800);
    assert_eq!(filter.as_deref(), Some("crop=ih*3/4:ih,scale=480:640"));
    // Exactly 3:4 is scaled, not cropped; just narrower than 3:4 crops top and bottom.
    assert_eq!(build_resolution_attribute(300, 400).3.as_deref(), Some("scale=480:640"));
    assert_eq!(build_resolution_attribute(100, 150).3.as_deref(), Some("crop=iw:iw*4/3,scale=480:640"));
}

#[test]
fn unknown_size_needs_crop() {
    let (a, crop, _, filter) = build_resolution_attribute(0, 0);
    assert_eq!(a.current, "0×0");
    assert!(crop);
    assert_eq!(filter.as_deref(), Some("crop=iw:iw*4/3,scale=480:640"));
}

#[test]
fn codec_and_pixel_format() {
    let a = codec_attribute(Some("vp9".to_string()));
    assert_eq!((a.current.as_str(), a.status), ("VP9", AttributeStatus::Conformant));
    let a = codec_attribute(Some("h264".to_string()));
    assert_eq!(a.current, "H264");
    assert_eq!(a.target.as_deref(), Some("VP9"));
    assert_eq!(a.status, AttributeStatus::WillAdjust);
    let a = codec_attribute(None);
    assert_eq!(a.current, "DESCONHECIDO");
    let p = pixel_format_attribute(Some("yuv420p".to_string()));
    assert_eq!(p.status, AttributeStatus::Conformant);
    assert!(p.target.is_none());
    let p = pixel_format_attribute(Some("yuv444p10le".to_string()));
    assert_eq!(p.current, "yuv444p10le");
    assert_eq!(p.target.as_deref(), Some("yuv420p"));
    let p = pixel_format_attribute(None);
    assert_eq!(p.current, "desconhecido");
    assert_eq!(p.label, "Pixel format");
}

#[test]
fn reuse_needs_every_attribute() {
    let info = build_video_info(
        Some("vp9".to_string()),
        Some("yuv420p".to_string()),
        Some(480),
        Some(640),
        attr(AttributeStatus::Conformant),
        attr(AttributeStatus::WillAdjust),
        10_000_000,
    );
    assert!(info.has_video);
    assert!(!info.needs_crop);
    assert_eq!(info.duration_micros, 10_000_000);
    assert!(is_reuse_eligible(&info));
    let info = build_video_info(
        Some("vp9".to_string()),
        Some("yuv420p".to_string()),
        Some(480),
        Some(640),
        attr(AttributeStatus::WillAdjust),
        attr(AttributeStatus::Conformant),
        10_000_000,
    );
    assert!(!is_reuse_eligible(&info));
    let info = build_video_info(
        Some("h264".to_string()),
        Some("yuv420p".to_string()),
        None,
        Some(640),
        attr(AttributeStatus::Conformant),
        attr(AttributeStatus::Conformant),
        10_000_000,
    );
    assert!(info.needs_crop);
    assert_eq!(info.resolution.current, "0×640");
    assert!(!is_reuse_eligible(&info));
}

#[test]
fn first_video_stream() {
    let types = vec![Some("audio".to_string()), None, Some("video".to_string()), Some("video".to_string())];
    assert_eq!(find_video_stream(&types), Some(2));
    assert_eq!(find_video_stream(&vec![Some("audio".to_string())]), None);
}

#[test]
fn minimum_duration_is_two_seconds() {
    assert!(is_long_enough(2_000_000));
    assert!(!is_long_enough(1_999_999));
}

#[test]
fn bitrate_up_to_one_mbps_is_conformant() {
    let a = bitrate_attribute(1_000_000, "1.0 Mbps".to_string());
    assert_eq!(a.status, AttributeStatus::Conformant);
    assert!(a.target.is_none());
    assert_eq!((a.current.as_str(), a.label.as_str()), ("1.0 Mbps", "Bitrate"));
    let a = bitrate_attribute(1_000_001, "1.0 Mbps".to_string());
    assert_eq!(a.status, AttributeStatus::WillAdjust);
    assert_eq!(a.target.as_deref(), Some("1.0 Mbps"));
    assert_eq!(bitrate_attribute(0, "0.0 Mbps".to_string()).status, AttributeStatus::Conformant);
}

#[test]
fn encoding_filter_is_crop_or_scale() {
    let mk = |w, h| build_video_info(None, None, Some(w), Some(h), attr(AttributeStatus::Conformant), attr(AttributeStatus::Conformant), 4_000_000);
    assert_eq!(encode_filter(&mk(480, 640)), "scale=480:640");
    assert_eq!(encode_filter(&mk(960, 1280)), "scale=480:640");
    assert_eq!(encode_filter(&mk(1920, 1080)), "crop=ih*3/4:ih,scale=480:640");
}
