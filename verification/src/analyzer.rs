//! The attributes of an input video against the target format (VP9,
//! 480×640, 24 fps, yuv420p, at most 1 Mbps) and what is done about each.

use vstd::prelude::*;
use vstd::string::*;

use crate::text::{decimal, numbered, push_decimal};

verus! {

/// What is done about one attribute of the input video.
#[derive(Clone, Copy, Debug, PartialEq, Eq, Structural)]
pub enum AttributeStatus {
    /// Already as required.
    Conformant,
    /// Adjusted without asking.
    WillAdjust,
    /// Adjusted only once the user confirms.
    NeedsConfirm,
}

/// One attribute of the input video: its current value, the value it will
/// get when it differs, and what is done about it.
pub struct Attribute {
    pub current: String,
    pub target: Option<String>,
    pub status: AttributeStatus,
    pub label: String,
}

/// The texts of an optional string.
pub open spec fn opt_view(s: Option<String>) -> Option<Seq<char>> {
    match s {
        Some(t) => Some(t@),
        None => None,
    }
}

/// An attribute as current value, target value, status and label.
pub type AttributeView = (Seq<char>, Option<Seq<char>>, AttributeStatus, Seq<char>);

/// The current value, target value, status and label of `a`.
pub open spec fn attribute_view(a: Attribute) -> AttributeView {
    (a.current@, opt_view(a.target), a.status, a.label@)
}

fn attribute(current: String, target: Option<&str>, status: AttributeStatus, label: &str) -> (a:
    Attribute)
    ensures
        a.current == current,
        opt_view(a.target) == (match target {
            Some(t) => Some(t@),
            None => None::<Seq<char>>,
        }),
        a.status == status,
        a.label@ == label@,
{
    let target = match target {
        Some(t) => Some(String::from_str(t)),
        None => None,
    };
    Attribute { current, target, status, label: String::from_str(label) }
}

/// The proportion of `w` × `h` is 3:4 within 0.02, that is
/// |w/h − 3/4| < 0.02, written over the integers.
pub open spec fn is_portrait_3_4(w: u32, h: u32) -> bool {
    h > 0 && w > 0 && 100 * (if 4 * w >= 3 * h {
        4 * w - 3 * h
    } else {
        3 * h - 4 * w
    }) < 8 * h
}

/// "W×H".
pub open spec fn dimensions_text(w: u32, h: u32) -> Seq<char> {
    decimal(w as nat) + "×"@ + decimal(h as nat)
}

/// The resolution attribute of a `w` × `h` video, whether it needs a crop,
/// the description of the crop, and the FFmpeg filter that scales (and
/// crops) it to 480×640.
pub open spec fn resolution_plan(w: u32, h: u32) -> (
    AttributeView,
    bool,
    Option<Seq<char>>,
    Option<Seq<char>>,
) {
    let current = dimensions_text(w, h);
    if w == 480 && h == 640 {
        ((current, None, AttributeStatus::Conformant, "Resolução"@), false, None, None)
    } else if is_portrait_3_4(w, h) {
        (
            (current, Some("480×640"@), AttributeStatus::WillAdjust, "Resolução"@),
            false,
            None,
            Some("scale=480:640"@),
        )
    } else if 4 * w > 3 * h {
        (
            (current, Some("480×640 (com crop)"@), AttributeStatus::NeedsConfirm, "Resolução"@),
            true,
            Some(side_crop_text(w, h)),
            Some("crop=ih*3/4:ih,scale=480:640"@),
        )
    } else {
        (
            (current, Some("480×640 (com crop)"@), AttributeStatus::NeedsConfirm, "Resolução"@),
            true,
            Some(
                "O vídeo é portrait ("@ + current
                    + ") mas não está na proporção 3:4. Será feito um crop centralizado cortando topo e base para encaixar em 480×640."@,
            ),
            Some("crop=iw:iw*4/3,scale=480:640"@),
        )
    }
}

/// The description of a centred crop of the sides, for a frame wider than
/// 3:4: a landscape one, or a square or portrait one that is still too wide.
pub open spec fn side_crop_text(w: u32, h: u32) -> Seq<char> {
    if w > h {
        "O vídeo é no formato paisagem ("@ + dimensions_text(w, h)
            + "). Será feito um crop centralizado para a proporção 3:4 (portrait), mantendo a altura completa e cortando as laterais."@
    } else {
        "O vídeo é portrait ("@ + dimensions_text(w, h)
            + ") mas não está na proporção 3:4. Será feito um crop centralizado cortando as laterais para encaixar em 480×640."@
    }
}

fn dimensions(w: u32, h: u32) -> (s: String)
    ensures
        s@ == dimensions_text(w, h),
{
    let mut s = String::new();
    push_decimal(&mut s, w as u128);
    s.append("×");
    push_decimal(&mut s, h as u128);
    proof {
        assert(Seq::<char>::empty() + decimal(w as nat) =~= decimal(w as nat));
    }
    s
}

/// Decides what is done about the resolution of a `w` × `h` video: nothing
/// at 480×640; a plain scale when the proportion is already 3:4 (within
/// 0.02); otherwise a centred crop to 3:4 that the user must confirm,
/// cutting the sides of a frame wider than 3:4 or the top and bottom of a
/// frame narrower than 3:4. Returns the attribute, whether a crop is needed, the
/// description of the crop, and the FFmpeg filter.
pub fn build_resolution_attribute(w: u32, h: u32) -> (r: (
    Attribute,
    bool,
    Option<String>,
    Option<String>,
))
    ensures
        (attribute_view(r.0), r.1, opt_view(r.2), opt_view(r.3)) == resolution_plan(w, h),
        r.0.status == AttributeStatus::Conformant <==> (w == 480 && h == 640),
        r.0.status == AttributeStatus::Conformant ==> r.3 is None && !r.1,
        (r.3 matches Some(f) && f@ == "scale=480:640"@) ==> (h > 0 && w > 0 && 100 * (if 4 * w >= 3
            * h {
            4 * w - 3 * h
        } else {
            3 * h - 4 * w
        }) < 8 * h && !r.1),
        r.1 <==> r.0.status == AttributeStatus::NeedsConfirm,
        w > h ==> r.1 && (r.3 matches Some(f) && f@ == "crop=ih*3/4:ih,scale=480:640"@),
{
    let r = plan_resolution(w, h);
    proof {
        resolution_plan_decides_by_proportion(w, h);
    }
    r
}

fn plan_resolution(w: u32, h: u32) -> (r: (Attribute, bool, Option<String>, Option<String>))
    ensures
        (attribute_view(r.0), r.1, opt_view(r.2), opt_view(r.3)) == resolution_plan(w, h),
{
    let current = dimensions(w, h);
    if w == 480 && h == 640 {
        return (attribute(current, None, AttributeStatus::Conformant, "Resolução"), false, None, None);
    }
    let four_w = 4 * (w as u64);
    let three_h = 3 * (h as u64);
    let diff = if four_w >= three_h {
        four_w - three_h
    } else {
        three_h - four_w
    };
    let is_portrait_34 = h > 0 && w > 0 && 100 * diff < 8 * (h as u64);
    if is_portrait_34 {
        return (
            attribute(current, Some("480×640"), AttributeStatus::WillAdjust, "Resolução"),
            false,
            None,
            Some(String::from_str("scale=480:640")),
        );
    }
    if four_w > three_h {
        let description = if w > h {
            String::from_str("O vídeo é no formato paisagem (").concat(current.as_str()).concat(
                "). Será feito um crop centralizado para a proporção 3:4 (portrait), mantendo a altura completa e cortando as laterais.",
            )
        } else {
            String::from_str("O vídeo é portrait (").concat(current.as_str()).concat(
                ") mas não está na proporção 3:4. Será feito um crop centralizado cortando as laterais para encaixar em 480×640.",
            )
        };
        (
            attribute(current, Some("480×640 (com crop)"), AttributeStatus::NeedsConfirm, "Resolução"),
            true,
            Some(description),
            Some(String::from_str("crop=ih*3/4:ih,scale=480:640")),
        )
    } else {
        let description = String::from_str("O vídeo é portrait (").concat(current.as_str()).concat(
            ") mas não está na proporção 3:4. Será feito um crop centralizado cortando topo e base para encaixar em 480×640.",
        );
        (
            attribute(current, Some("480×640 (com crop)"), AttributeStatus::NeedsConfirm, "Resolução"),
            true,
            Some(description),
            Some(String::from_str("crop=iw:iw*4/3,scale=480:640")),
        )
    }
}

/// The resolution is kept only at 480×640; a plain scale (no crop) is
/// chosen only when the proportion w/h is within 0.02 of 3/4, so a frame
/// wider than tall (landscape) is always cropped, and cropped at the sides.
pub proof fn resolution_plan_decides_by_proportion(w: u32, h: u32)
    ensures
        ({
            let p = resolution_plan(w, h);
            &&& p.0.2 == AttributeStatus::Conformant <==> (w == 480 && h == 640)
            &&& p.0.2 == AttributeStatus::Conformant ==> p.3 is None && !p.1
            &&& p.3 == Some("scale=480:640"@) ==> (h > 0 && w > 0 && 100 * (if 4 * w >= 3 * h {
                4 * w - 3 * h
            } else {
                3 * h - 4 * w
            }) < 8 * h && !p.1)
            &&& p.1 <==> p.0.2 == AttributeStatus::NeedsConfirm
            &&& w > h ==> p.1 && p.3 == Some("crop=ih*3/4:ih,scale=480:640"@)
        }),
{
    reveal_strlit("crop=ih*3/4:ih,scale=480:640");
    reveal_strlit("crop=iw:iw*4/3,scale=480:640");
    reveal_strlit("scale=480:640");
    assert("crop=ih*3/4:ih,scale=480:640"@ != "scale=480:640"@) by {
        assert("crop=ih*3/4:ih,scale=480:640"@.len() != "scale=480:640"@.len());
    }
    assert("crop=iw:iw*4/3,scale=480:640"@ != "scale=480:640"@) by {
        assert("crop=iw:iw*4/3,scale=480:640"@.len() != "scale=480:640"@.len());
    }
}

/// The resolution decision is consistent: a crop is needed exactly when the
/// user must confirm, no filter is needed exactly when the video is already
/// 480×640, and a crop description comes exactly with a crop. A crop always
/// fits inside the frame: the sides are cut (to a width of 3/4 of the
/// height) only when the frame is wider than 3:4, and the top and bottom
/// (to a height of 4/3 of the width) only when it is not.
pub proof fn resolution_plan_is_consistent(w: u32, h: u32)
    ensures
        ({
            let p = resolution_plan(w, h);
            &&& p.1 <==> p.0.2 == AttributeStatus::NeedsConfirm
            &&& p.3 is None <==> p.0.2 == AttributeStatus::Conformant
            &&& p.0.2 == AttributeStatus::Conformant <==> (w == 480 && h == 640)
            &&& p.2 is Some <==> p.1
            &&& p.0.1 is None <==> p.0.2 == AttributeStatus::Conformant
            &&& p.3 == Some("crop=ih*3/4:ih,scale=480:640"@) ==> 3 * h < 4 * w
            &&& p.3 == Some("crop=iw:iw*4/3,scale=480:640"@) ==> 4 * w <= 3 * h
        }),
{
    reveal_strlit("crop=ih*3/4:ih,scale=480:640");
    reveal_strlit("crop=iw:iw*4/3,scale=480:640");
    reveal_strlit("scale=480:640");
    let p = resolution_plan(w, h);
    if p.3 == Some("crop=ih*3/4:ih,scale=480:640"@) {
        assert("crop=ih*3/4:ih,scale=480:640"@[6] != "crop=iw:iw*4/3,scale=480:640"@[6]);
        assert("crop=ih*3/4:ih,scale=480:640"@ != "scale=480:640"@) by {
            assert("crop=ih*3/4:ih,scale=480:640"@.len() != "scale=480:640"@.len());
        }
    }
    if p.3 == Some("crop=iw:iw*4/3,scale=480:640"@) {
        assert("crop=ih*3/4:ih,scale=480:640"@[6] != "crop=iw:iw*4/3,scale=480:640"@[6]);
        assert("crop=iw:iw*4/3,scale=480:640"@ != "scale=480:640"@) by {
            assert("crop=iw:iw*4/3,scale=480:640"@.len() != "scale=480:640"@.len());
        }
    }
}

} // verus!

verus! {

/// The upper-case form of `s` that `str::to_uppercase` gives (Unicode case
/// mapping).
pub uninterp spec fn uppercase(s: Seq<char>) -> Seq<char>;

/// Calls `str::to_uppercase`; the contract names its result `uppercase`
/// of the text, a function of the text alone. Nothing more of the Unicode
/// case mapping is stated.
#[verifier::external_body]
fn to_uppercase(s: &str) -> (r: String)
    ensures
        r@ == uppercase(s@),
{
    s.to_uppercase()
}

/// The name that ffprobe reported, or "desconhecido" when it reported none.
pub open spec fn name_or_unknown(name: Option<String>) -> Seq<char> {
    match name {
        Some(n) => n@,
        None => "desconhecido"@,
    }
}

fn name_or_unknown_exec(name: Option<String>) -> (s: String)
    ensures
        s@ == name_or_unknown(name),
{
    match name {
        Some(n) => n,
        None => String::from_str("desconhecido"),
    }
}

/// The codec attribute of a stream whose codec ffprobe named `codec_name`.
pub open spec fn codec_plan(codec_name: Option<String>) -> AttributeView {
    let name = name_or_unknown(codec_name);
    if name == "vp9"@ {
        ("VP9"@, None, AttributeStatus::Conformant, "Codec"@)
    } else {
        (uppercase(name), Some("VP9"@), AttributeStatus::WillAdjust, "Codec"@)
    }
}

/// The codec attribute: conformant for VP9, otherwise re-encoded to VP9.
pub fn codec_attribute(codec_name: Option<String>) -> (a: Attribute)
    ensures
        attribute_view(a) == codec_plan(codec_name),
        a.status == AttributeStatus::Conformant <==> (codec_name matches Some(n) && n@ == "vp9"@),
        a.status == AttributeStatus::Conformant ==> a.current@ == "VP9"@ && a.target is None,
        a.status != AttributeStatus::Conformant ==> a.status == AttributeStatus::WillAdjust
            && opt_view(a.target) == Some("VP9"@),
        a.label@ == "Codec"@,
{
    proof {
        reveal_strlit("desconhecido");
        reveal_strlit("vp9");
        assert("desconhecido"@ != "vp9"@) by {
            assert("desconhecido"@.len() != "vp9"@.len());
        }
    }
    let name = name_or_unknown_exec(codec_name);
    let vp9 = String::from_str("vp9");
    if name == vp9 {
        attribute(String::from_str("VP9"), None, AttributeStatus::Conformant, "Codec")
    } else {
        attribute(to_uppercase(name.as_str()), Some("VP9"), AttributeStatus::WillAdjust, "Codec")
    }
}

/// The pixel-format attribute of a stream whose pixel format ffprobe named `pix_fmt`.
pub open spec fn pixel_format_plan(pix_fmt: Option<String>) -> AttributeView {
    let name = name_or_unknown(pix_fmt);
    if name == "yuv420p"@ {
        ("yuv420p"@, None, AttributeStatus::Conformant, "Pixel format"@)
    } else {
        (name, Some("yuv420p"@), AttributeStatus::WillAdjust, "Pixel format"@)
    }
}

/// The pixel-format attribute: conformant for yuv420p, otherwise converted.
pub fn pixel_format_attribute(pix_fmt: Option<String>) -> (a: Attribute)
    ensures
        attribute_view(a) == pixel_format_plan(pix_fmt),
        a.status == AttributeStatus::Conformant <==> (pix_fmt matches Some(n) && n@ == "yuv420p"@),
        a.status == AttributeStatus::Conformant ==> a.current@ == "yuv420p"@ && a.target is None,
        a.status != AttributeStatus::Conformant ==> a.status == AttributeStatus::WillAdjust
            && opt_view(a.target) == Some("yuv420p"@),
        a.label@ == "Pixel format"@,
{
    proof {
        reveal_strlit("desconhecido");
        reveal_strlit("yuv420p");
        assert("desconhecido"@ != "yuv420p"@) by {
            assert("desconhecido"@.len() != "yuv420p"@.len());
        }
    }
    let name = name_or_unknown_exec(pix_fmt);
    let yuv = String::from_str("yuv420p");
    if name == yuv {
        attribute(String::from_str("yuv420p"), None, AttributeStatus::Conformant, "Pixel format")
    } else {
        attribute(name, Some("yuv420p"), AttributeStatus::WillAdjust, "Pixel format")
    }
}

/// What the analysis of an input video found. The duration is in
/// microseconds, the precision with which ffprobe reports it.
pub struct VideoInfo {
    pub codec: Attribute,
    pub frame_rate: Attribute,
    pub bitrate: Attribute,
    pub pixel_format: Attribute,
    pub resolution: Attribute,
    pub duration_micros: u64,
    pub has_video: bool,
    pub needs_crop: bool,
    pub crop_description: Option<String>,
    pub crop_filter: Option<String>,
}

/// Highest bitrate of the target format, in bit/s (1 Mbps).
pub const MAX_BITRATE_BPS: u64 = 1_000_000;

/// The bitrate attribute of a stream of `bps` bit/s whose value is shown as
/// `current`: conformant up to 1 Mbps, otherwise brought down to 1 Mbps.
pub open spec fn bitrate_plan(bps: u64, current: Seq<char>) -> AttributeView {
    if bps <= MAX_BITRATE_BPS {
        (current, None, AttributeStatus::Conformant, "Bitrate"@)
    } else {
        (current, Some("1.0 Mbps"@), AttributeStatus::WillAdjust, "Bitrate"@)
    }
}

/// The bitrate attribute of a stream of `bps` bit/s (0 when unknown);
/// `current` is its value as shown to the user, in Mbps. The comparison is
/// made on the integer bitrate: `bps / 10^6 <= 1.0` holds exactly when
/// `bps <= 10^6`.
pub fn bitrate_attribute(bps: u64, current: String) -> (a: Attribute)
    ensures
        attribute_view(a) == bitrate_plan(bps, current@),
        a.status == AttributeStatus::Conformant <==> bps <= 1_000_000,
        a.status != AttributeStatus::Conformant ==> a.status == AttributeStatus::WillAdjust
            && opt_view(a.target) == Some("1.0 Mbps"@),
        a.status == AttributeStatus::Conformant ==> a.target is None,
        a.current == current,
{
    if bps <= MAX_BITRATE_BPS {
        attribute(current, None, AttributeStatus::Conformant, "Bitrate")
    } else {
        attribute(current, Some("1.0 Mbps"), AttributeStatus::WillAdjust, "Bitrate")
    }
}

/// The video filter of an encoding: the crop filter of the analysis, or a
/// plain scale to 480×640 when there is none.
pub open spec fn encode_filter_text(info: VideoInfo) -> Seq<char> {
    match info.crop_filter {
        Some(f) => f@,
        None => "scale=480:640"@,
    }
}

/// The video filter with which the input is encoded.
pub fn encode_filter(info: &VideoInfo) -> (f: String)
    ensures
        f@ == encode_filter_text(*info),
        info.crop_filter matches Some(t) ==> f@ == t@,
        info.crop_filter is None ==> f@ == "scale=480:640"@,
{
    match &info.crop_filter {
        Some(f) => f.clone(),
        None => String::from_str("scale=480:640"),
    }
}

/// Shortest input that makes one whole 2-second chunk, in microseconds.
pub const MIN_DURATION_MICROS: u64 = 2_000_000;

/// The input is long enough to make at least one 2-second chunk.
pub fn is_long_enough(duration_micros: u64) -> (b: bool)
    ensures
        b == (duration_micros >= MIN_DURATION_MICROS),
        b <==> duration_micros >= 2_000_000,
{
    duration_micros >= MIN_DURATION_MICROS
}

/// The analysis of a video stream: codec, pixel format and resolution are
/// decided here; the frame-rate and bitrate attributes come in already
/// decided, since they are computed in floating point.
pub fn build_video_info(
    codec_name: Option<String>,
    pix_fmt: Option<String>,
    width: Option<u32>,
    height: Option<u32>,
    frame_rate: Attribute,
    bitrate: Attribute,
    duration_micros: u64,
) -> (info: VideoInfo)
    ensures
        ({
            let w = match width {
                Some(w) => w,
                None => 0u32,
            };
            let h = match height {
                Some(h) => h,
                None => 0u32,
            };
            let plan = resolution_plan(w, h);
            &&& attribute_view(info.codec) == codec_plan(codec_name)
            &&& attribute_view(info.pixel_format) == pixel_format_plan(pix_fmt)
            &&& attribute_view(info.resolution) == plan.0
            &&& info.needs_crop == plan.1
            &&& opt_view(info.crop_description) == plan.2
            &&& opt_view(info.crop_filter) == plan.3
            &&& info.frame_rate == frame_rate
            &&& info.bitrate == bitrate
            &&& info.duration_micros == duration_micros
            &&& info.has_video
        }),
{
    let codec = codec_attribute(codec_name);
    let pixel_format = pixel_format_attribute(pix_fmt);
    let w = match width {
        Some(w) => w,
        None => 0,
    };
    let h = match height {
        Some(h) => h,
        None => 0,
    };
    let (resolution, needs_crop, crop_description, crop_filter) = build_resolution_attribute(w, h);
    VideoInfo {
        codec,
        frame_rate,
        bitrate,
        pixel_format,
        resolution,
        duration_micros,
        has_video: true,
        needs_crop,
        crop_description,
        crop_filter,
    }
}

/// The input can be packed as it is, without re-encoding: codec,
/// resolution, frame rate and pixel format are all conformant and no crop
/// is needed.
pub open spec fn reusable(info: VideoInfo) -> bool {
    &&& info.codec.status == AttributeStatus::Conformant
    &&& info.resolution.status == AttributeStatus::Conformant
    &&& info.frame_rate.status == AttributeStatus::Conformant
    &&& info.pixel_format.status == AttributeStatus::Conformant
    &&& !info.needs_crop
}

fn is_conformant(s: AttributeStatus) -> (b: bool)
    ensures
        b == (s == AttributeStatus::Conformant),
{
    match s {
        AttributeStatus::Conformant => true,
        _ => false,
    }
}

/// True when the input is already a fully conforming VP9 that may be
/// packed without re-encoding (its chunks are still measured afterwards).
pub fn is_reuse_eligible(info: &VideoInfo) -> (b: bool)
    ensures
        b == reusable(*info),
        b <==> (info.codec.status == AttributeStatus::Conformant && info.resolution.status
            == AttributeStatus::Conformant && info.frame_rate.status == AttributeStatus::Conformant
            && info.pixel_format.status == AttributeStatus::Conformant && !info.needs_crop),
{
    is_conformant(info.codec.status) && is_conformant(info.resolution.status) && is_conformant(
        info.frame_rate.status,
    ) && is_conformant(info.pixel_format.status) && !info.needs_crop
}

/// ffprobe reported the stream type "video".
pub open spec fn is_video_type(t: Option<String>) -> bool {
    t matches Some(s) && s@ == "video"@
}

/// Position of the first stream whose type ffprobe reported as "video".
pub fn find_video_stream(codec_types: &Vec<Option<String>>) -> (r: Option<usize>)
    ensures
        r matches Some(i) ==> i < codec_types@.len() && is_video_type(codec_types@[i as int]),
        r matches Some(i) ==> forall|j: int| 0 <= j < i ==> !is_video_type(#[trigger] codec_types@[j]),
        r is None ==> forall|j: int|
            0 <= j < codec_types@.len() ==> !is_video_type(#[trigger] codec_types@[j]),
{
    let video = String::from_str("video");
    let mut i: usize = 0;
    while i < codec_types.len()
        invariant
            i <= codec_types@.len(),
            video@ == "video"@,
            forall|j: int| 0 <= j < i ==> !is_video_type(#[trigger] codec_types@[j]),
        decreases codec_types@.len() - i,
    {
        match &codec_types[i] {
            Some(t) => {
                if *t == video {
                    return Some(i);
                }
            },
            None => {},
        }
        i = i + 1;
    }
    None
}

} // verus!
