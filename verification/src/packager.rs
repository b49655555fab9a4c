//! The decisions of packing a video into a WAV: whether the input can be
//! packed as it is, the bitrate of each encoding attempt, when the chunks
//! fit, and when to give up. The encoding, segmentation and file work are
//! done by the caller, which reports each outcome as an event.
//!
//! Every 2-second chunk must fit in a 288 000-byte block: either the input
//! is already conformant VP9 whose chunks fit, or it is re-encoded with a
//! bitrate that drops about 15% per attempt until the largest chunk fits.

use vstd::prelude::*;
use vstd::string::*;

use crate::analyzer::{is_reuse_eligible, reusable, AttributeStatus, VideoInfo};
use crate::pcm::{BLOCK_HEADER_SIZE, BLOCK_SIZE, MAX_CHUNK_BYTES};
use crate::text::{decimal, numbered, push_decimal};

verus! {

/// Bitrate of the first encoding attempt, in kbit/s (within the 1 Mbps ceiling).
pub const INITIAL_TARGET_KBPS: u32 = 900;

/// Lowest bitrate tried before giving up, in kbit/s.
pub const MIN_TARGET_KBPS: u32 = 300;

/// Length of a chunk, in microseconds.
pub const CHUNK_MICROS: u64 = 2_000_000;

/// The bitrate of the attempt after one whose largest chunk did not fit:
/// 85% of it, rounded down, unless that falls below the floor.
pub open spec fn next_target(kbps: u32) -> Option<u32> {
    let next = kbps * 85 / 100;
    if next < MIN_TARGET_KBPS {
        None
    } else {
        Some(next as u32)
    }
}

/// The bitrate of the next encoding attempt, or `None` when it would fall
/// below 300 kbit/s.
pub fn next_target_kbps(kbps: u32) -> (r: Option<u32>)
    requires
        kbps <= u32::MAX / 85,
    ensures
        r == next_target(kbps),
{
    let next = kbps * 85 / 100;
    if next < MIN_TARGET_KBPS {
        None
    } else {
        Some(next)
    }
}

/// Each retry lowers the bitrate and keeps it at or above the floor.
pub proof fn retry_lowers_bitrate(kbps: u32)
    requires
        0 < kbps <= u32::MAX / 85,
    ensures
        next_target(kbps) matches Some(n) ==> MIN_TARGET_KBPS <= n < kbps,
{
}

/// Number of 2-second chunks that a video of the given duration makes:
/// the duration divided by two seconds, rounded up.
pub fn expected_chunk_count(duration_micros: u64) -> (n: u64)
    ensures
        n == (duration_micros + CHUNK_MICROS - 1) / (CHUNK_MICROS as int),
{
    duration_micros / CHUNK_MICROS + if duration_micros % CHUNK_MICROS == 0 {
        0
    } else {
        1
    }
}

/// The largest of the chunk sizes, or 0 when there is none.
pub fn largest_chunk(sizes: &[u64]) -> (m: u64)
    ensures
        forall|i: int| 0 <= i < sizes@.len() ==> sizes@[i] <= m,
        sizes@.len() == 0 ==> m == 0,
        sizes@.len() > 0 ==> exists|i: int| 0 <= i < sizes@.len() && sizes@[i] == m,
{
    let mut m: u64 = 0;
    let mut i: usize = 0;
    while i < sizes.len()
        invariant
            i <= sizes@.len(),
            forall|j: int| 0 <= j < i ==> sizes@[j] <= m,
            i == 0 ==> m == 0,
            i > 0 ==> exists|j: int| 0 <= j < i && sizes@[j] == m,
        decreases sizes@.len() - i,
    {
        if sizes[i] > m {
            m = sizes[i];
        }
        i = i + 1;
    }
    m
}

/// A chunk within the budget fits in a block beside its header.
pub proof fn budget_chunk_fits_block(chunk_len: nat)
    requires
        chunk_len <= MAX_CHUNK_BYTES,
    ensures
        BLOCK_HEADER_SIZE + chunk_len <= BLOCK_SIZE,
{
}

/// Why packing stopped.
#[derive(Debug, Clone, Copy, PartialEq, Eq)]
pub enum PackError {
    /// The user cancelled.
    Cancelled,
    /// Segmentation made no chunk.
    NoChunks,
    /// Even at the lowest bitrate a chunk did not fit in a block.
    ChunkTooLarge { max_chunk_bytes: u64 },
}

/// The text that explains why packing stopped.
pub open spec fn pack_error_text(e: PackError) -> Seq<char> {
    match e {
        PackError::Cancelled => "Cancelado pelo usuário."@,
        PackError::NoChunks => "Nenhum chunk de vídeo foi gerado. O vídeo pode ser muito curto."@,
        PackError::ChunkTooLarge { max_chunk_bytes } =>
            "Mesmo reduzindo o bitrate ao mínimo, um trecho de 2s do vídeo não coube no bloco PCM (maior chunk: "@
            + decimal(max_chunk_bytes as nat)
            + " bytes, limite: 287980 bytes). O vídeo tem movimento ou detalhe demais. Tente reduzir a resolução ou simplificar o fundo."@,
    }
}

impl PackError {
    /// The text that explains why packing stopped.
    pub fn message(&self) -> (s: String)
        ensures
            s@ == pack_error_text(*self),
    {
        match self {
            PackError::Cancelled => String::from_str("Cancelado pelo usuário."),
            PackError::NoChunks => String::from_str(
                "Nenhum chunk de vídeo foi gerado. O vídeo pode ser muito curto.",
            ),
            PackError::ChunkTooLarge { max_chunk_bytes } => numbered(
                "Mesmo reduzindo o bitrate ao mínimo, um trecho de 2s do vídeo não coube no bloco PCM (maior chunk: ",
                *max_chunk_bytes as u128,
                " bytes, limite: 287980 bytes). O vídeo tem movimento ou detalhe demais. Tente reduzir a resolução ou simplificar o fundo.",
            ),
        }
    }
}

/// Where packing stands.
#[derive(Debug, Clone, Copy, PartialEq, Eq, Structural)]
pub enum PackPhase {
    /// The conformant input is being cut into chunks to measure them.
    CheckingInput,
    /// An encoding attempt at the current bitrate is under way.
    Encoding,
    /// The encoded video is being cut into chunks to measure them.
    Segmenting,
    /// The chunks are to be assembled, or packing failed.
    Done,
}

/// The state of packing: the phase, the bitrate of the current attempt and
/// the number of chunks the input should make.
#[derive(Debug, Clone, Copy, PartialEq, Eq, Structural)]
pub struct Packing {
    pub phase: PackPhase,
    pub target_kbps: u32,
    pub expected_chunks: u64,
}

/// What the caller is to do next.
#[derive(Debug, Clone, Copy, PartialEq, Eq)]
pub enum PackAction {
    /// Cut the input as it is into 2-second chunks.
    SegmentInput,
    /// Encode the input to VP9 at this bitrate (unless cancelled).
    Encode { target_kbps: u32 },
    /// Cut the encoded video into 2-second chunks.
    SegmentEncoded,
    /// Build one PCM block per chunk and write the WAV.
    Assemble,
    /// Stop with this error.
    Fail(PackError),
}

/// What came of the caller's last action.
#[derive(Debug, Clone, Copy, PartialEq, Eq)]
pub enum PackEvent {
    /// Segmentation made `chunk_count` chunks, the largest of `max_chunk_bytes` bytes.
    Segmented { chunk_count: u64, max_chunk_bytes: u64 },
    /// The encoding finished.
    Encoded,
    /// The user cancelled, before or right after an encoding.
    Cancelled,
}

/// The state is one that packing can reach: the bitrate stays between the
/// floor and the first attempt's.
pub open spec fn packing_wf(p: Packing) -> bool {
    MIN_TARGET_KBPS <= p.target_kbps <= INITIAL_TARGET_KBPS
}

/// `event` can follow the action that led to `phase`.
pub open spec fn event_expected(phase: PackPhase, event: PackEvent) -> bool {
    match phase {
        PackPhase::CheckingInput => event is Segmented,
        PackPhase::Encoding => event is Encoded || event is Cancelled,
        PackPhase::Segmenting => event is Segmented,
        PackPhase::Done => false,
    }
}

/// A measure that every step lowers: a run of packing ends.
pub open spec fn packing_measure(p: Packing) -> nat {
    match p.phase {
        PackPhase::CheckingInput => 3 * (INITIAL_TARGET_KBPS as nat) + 3,
        PackPhase::Encoding => 3 * (p.target_kbps as nat) + 2,
        PackPhase::Segmenting => 3 * (p.target_kbps as nat) + 1,
        PackPhase::Done => 0,
    }
}

/// The first action of packing. The input is packed as it is when it is
/// conformant VP9 and no crop was asked for; otherwise it is encoded at
/// 900 kbit/s.
pub fn start_packing(crop: bool, info: &VideoInfo, expected_chunks: u64) -> (r: (Packing, PackAction))
    ensures
        packing_wf(r.0),
        r.0.expected_chunks == expected_chunks,
        (!crop && reusable(*info)) ==> r.0.phase == PackPhase::CheckingInput && r.1
            == PackAction::SegmentInput,
        !(!crop && reusable(*info)) ==> r.0.phase == PackPhase::Encoding && r.0.target_kbps
            == INITIAL_TARGET_KBPS && r.1 == (PackAction::Encode { target_kbps: INITIAL_TARGET_KBPS }),
        r.1 == PackAction::SegmentInput <==> (!crop && info.codec.status
            == AttributeStatus::Conformant && info.resolution.status == AttributeStatus::Conformant
            && info.frame_rate.status == AttributeStatus::Conformant && info.pixel_format.status
            == AttributeStatus::Conformant && !info.needs_crop),
        r.1 != PackAction::SegmentInput ==> r.1 == (PackAction::Encode { target_kbps: 900 }),
{
    if !crop && is_reuse_eligible(info) {
        (
            Packing { phase: PackPhase::CheckingInput, target_kbps: INITIAL_TARGET_KBPS, expected_chunks },
            PackAction::SegmentInput,
        )
    } else {
        (
            Packing { phase: PackPhase::Encoding, target_kbps: INITIAL_TARGET_KBPS, expected_chunks },
            PackAction::Encode { target_kbps: INITIAL_TARGET_KBPS },
        )
    }
}

/// The step of packing that an event causes:
/// - after the input was cut, its chunks are assembled when there are as
///   many as its duration calls for and the largest fits; otherwise the
///   input is encoded at 900 kbit/s;
/// - after an encoding, the result is cut into chunks; a cancellation fails;
/// - after the encoded video was cut, no chunk fails, chunks that fit are
///   assembled, and otherwise the input is encoded again at 85% of the
///   bitrate, or packing fails once that would fall below 300 kbit/s.
pub fn step_packing(p: Packing, event: PackEvent) -> (r: (Packing, PackAction))
    requires
        packing_wf(p),
        event_expected(p.phase, event),
    ensures
        packing_wf(r.0),
        r.0.expected_chunks == p.expected_chunks,
        packing_measure(r.0) < packing_measure(p),
        r.1 matches PackAction::Encode { target_kbps } ==> r.0.phase == PackPhase::Encoding
            && r.0.target_kbps == target_kbps,
        r.1 is SegmentEncoded ==> r.0.phase == PackPhase::Segmenting && r.0.target_kbps == p.target_kbps,
        (r.1 is Assemble || r.1 is Fail) <==> r.0.phase == PackPhase::Done,
        r.1 is SegmentInput ==> false,
        r.1 is Assemble ==> (event matches PackEvent::Segmented { max_chunk_bytes, .. }
            && max_chunk_bytes <= MAX_CHUNK_BYTES),
        p.phase == PackPhase::CheckingInput ==> (event matches PackEvent::Segmented {
            chunk_count,
            max_chunk_bytes,
        } && (if chunk_count == p.expected_chunks && max_chunk_bytes <= MAX_CHUNK_BYTES {
            r.1 == PackAction::Assemble
        } else {
            r.1 == (PackAction::Encode { target_kbps: INITIAL_TARGET_KBPS })
        })),
        p.phase == PackPhase::Encoding ==> (event is Encoded ==> r.1 == PackAction::SegmentEncoded)
            && (event is Cancelled ==> r.1 == PackAction::Fail(PackError::Cancelled)),
        p.phase == PackPhase::Segmenting ==> (event matches PackEvent::Segmented {
            chunk_count,
            max_chunk_bytes,
        } && (if chunk_count == 0 {
            r.1 == PackAction::Fail(PackError::NoChunks)
        } else if max_chunk_bytes <= MAX_CHUNK_BYTES {
            r.1 == PackAction::Assemble
        } else {
            match next_target(p.target_kbps) {
                Some(n) => r.1 == (PackAction::Encode { target_kbps: n }) && n < p.target_kbps,
                None => r.1 == PackAction::Fail(PackError::ChunkTooLarge { max_chunk_bytes }),
            }
        })),
{
    let done = Packing { phase: PackPhase::Done, target_kbps: p.target_kbps, expected_chunks: p.expected_chunks };
    match p.phase {
        PackPhase::CheckingInput => {
            match event {
                PackEvent::Segmented { chunk_count, max_chunk_bytes } => {
                    if chunk_count == p.expected_chunks && max_chunk_bytes <= MAX_CHUNK_BYTES {
                        (done, PackAction::Assemble)
                    } else {
                        (
                            Packing {
                                phase: PackPhase::Encoding,
                                target_kbps: INITIAL_TARGET_KBPS,
                                expected_chunks: p.expected_chunks,
                            },
                            PackAction::Encode { target_kbps: INITIAL_TARGET_KBPS },
                        )
                    }
                },
                _ => (done, PackAction::Fail(PackError::NoChunks)),
            }
        },
        PackPhase::Encoding => {
            match event {
                PackEvent::Cancelled => (done, PackAction::Fail(PackError::Cancelled)),
                _ => (
                    Packing {
                        phase: PackPhase::Segmenting,
                        target_kbps: p.target_kbps,
                        expected_chunks: p.expected_chunks,
                    },
                    PackAction::SegmentEncoded,
                ),
            }
        },
        PackPhase::Segmenting => {
            match event {
                PackEvent::Segmented { chunk_count, max_chunk_bytes } => {
                    if chunk_count == 0 {
                        (done, PackAction::Fail(PackError::NoChunks))
                    } else if max_chunk_bytes <= MAX_CHUNK_BYTES {
                        (done, PackAction::Assemble)
                    } else {
                        match next_target_kbps(p.target_kbps) {
                            Some(next) => (
                                Packing {
                                    phase: PackPhase::Encoding,
                                    target_kbps: next,
                                    expected_chunks: p.expected_chunks,
                                },
                                PackAction::Encode { target_kbps: next },
                            ),
                            None => (
                                done,
                                PackAction::Fail(PackError::ChunkTooLarge { max_chunk_bytes }),
                            ),
                        }
                    }
                },
                _ => (done, PackAction::Fail(PackError::NoChunks)),
            }
        },
        PackPhase::Done => (done, PackAction::Fail(PackError::NoChunks)),
    }
}

} // verus!

verus! {

/// Number of encoding attempts made from bitrate `kbps` when no attempt fits.
pub open spec fn attempts_from(kbps: u32) -> nat
    decreases kbps,
{
    match next_target(kbps) {
        Some(n) => if n < kbps {
            1 + attempts_from(n)
        } else {
            1
        },
        None => 1,
    }
}

/// Starting at 900 kbit/s, packing encodes at most 7 times (900, 765, 650,
/// 552, 469, 398 and 338 kbit/s) before it gives up.
pub proof fn encoding_attempts_are_bounded()
    ensures
        attempts_from(INITIAL_TARGET_KBPS) == 7,
{
    assert(next_target(338) is None);
    assert(attempts_from(338) == 1);
    assert(next_target(398) == Some(338u32));
    assert(attempts_from(398) == 2);
    assert(next_target(469) == Some(398u32));
    assert(attempts_from(469) == 3);
    assert(next_target(552) == Some(469u32));
    assert(attempts_from(552) == 4);
    assert(next_target(650) == Some(552u32));
    assert(attempts_from(650) == 5);
    assert(next_target(765) == Some(650u32));
    assert(attempts_from(765) == 6);
    assert(next_target(900) == Some(765u32));
}

} // verus!

verus! {

/// What the caller saw while an encoding runs: the user cancelled (checked
/// before each wait), the encoder wrote output, it terminated with an exit
/// code (if any), or its event channel closed.
#[derive(Debug, Clone, Copy, PartialEq, Eq)]
pub enum EncoderEvent {
    Cancelled,
    Output,
    Terminated { code: Option<i32> },
    Closed,
}

/// Why an encoding failed.
#[derive(Debug, Clone, Copy, PartialEq, Eq)]
pub enum EncodeError {
    /// The user cancelled.
    Cancelled,
    /// The encoder exited with a code other than 0, or without one.
    ExitCode { code: Option<i32> },
}

/// What the caller is to do next with a running encoding.
#[derive(Debug, Clone, Copy, PartialEq, Eq)]
pub enum EncoderAction {
    /// Wait for the next event.
    Wait,
    /// The encoding succeeded.
    Finish,
    /// Kill the encoder and fail.
    KillAndFail(EncodeError),
    /// Fail; the encoder has already stopped.
    Fail(EncodeError),
}

/// What is done about each event of a running encoding: a cancellation
/// kills the encoder; termination with code 0, or a closed channel, ends
/// it successfully; termination with another code, or none, fails it.
pub open spec fn encoder_reaction(event: EncoderEvent) -> EncoderAction {
    match event {
        EncoderEvent::Cancelled => EncoderAction::KillAndFail(EncodeError::Cancelled),
        EncoderEvent::Output => EncoderAction::Wait,
        EncoderEvent::Terminated { code } => if code == Some(0i32) {
            EncoderAction::Finish
        } else {
            EncoderAction::Fail(EncodeError::ExitCode { code })
        },
        EncoderEvent::Closed => EncoderAction::Finish,
    }
}

/// The decision about one event of a running encoding.
pub fn encoder_step(event: EncoderEvent) -> (a: EncoderAction)
    ensures
        a == encoder_reaction(event),
        a == EncoderAction::Finish <==> (event == EncoderEvent::Closed || event
            == (EncoderEvent::Terminated { code: Some(0i32) })),
        a == EncoderAction::Wait <==> event == EncoderEvent::Output,
        a == EncoderAction::KillAndFail(EncodeError::Cancelled) <==> event == EncoderEvent::Cancelled,
        event matches EncoderEvent::Terminated { code } ==> (code != Some(0i32) ==> a
            == EncoderAction::Fail(EncodeError::ExitCode { code })),
{
    match event {
        EncoderEvent::Cancelled => EncoderAction::KillAndFail(EncodeError::Cancelled),
        EncoderEvent::Output => EncoderAction::Wait,
        EncoderEvent::Terminated { code } => match code {
            Some(0) => EncoderAction::Finish,
            _ => EncoderAction::Fail(EncodeError::ExitCode { code }),
        },
        EncoderEvent::Closed => EncoderAction::Finish,
    }
}

/// The numeral of `c`, with a minus sign when it is negative.
pub open spec fn signed_decimal(c: i32) -> Seq<char> {
    if c < 0 {
        "-"@ + decimal((-c) as nat)
    } else {
        decimal(c as nat)
    }
}

/// An optional exit code as `{:?}` shows it: "None" or "Some(<code>)".
pub open spec fn exit_code_text(code: Option<i32>) -> Seq<char> {
    match code {
        None => "None"@,
        Some(c) => "Some("@ + signed_decimal(c) + ")"@,
    }
}

/// The text that explains why an encoding failed.
pub open spec fn encode_error_text(e: EncodeError) -> Seq<char> {
    match e {
        EncodeError::Cancelled => "Cancelado pelo usuário."@,
        EncodeError::ExitCode { code } => "A codificação falhou (código "@ + exit_code_text(code)
            + "). Verifique se o vídeo está íntegro."@,
    }
}

impl EncodeError {
    /// The text that explains why the encoding failed.
    pub fn message(&self) -> (s: String)
        ensures
            s@ == encode_error_text(*self),
    {
        match self {
            EncodeError::Cancelled => String::from_str("Cancelado pelo usuário."),
            EncodeError::ExitCode { code } => {
                let mut s = String::from_str("A codificação falhou (código ");
                match code {
                    None => s.append("None"),
                    Some(c) => {
                        s.append("Some(");
                        if *c < 0 {
                            s.append("-");
                            push_decimal(&mut s, (-(*c as i64)) as u128);
                        } else {
                            push_decimal(&mut s, *c as u128);
                        }
                        s.append(")");
                    },
                }
                s.append("). Verifique se o vídeo está íntegro.");
                s
            },
        }
    }
}

} // verus!
