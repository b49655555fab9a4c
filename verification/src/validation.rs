//! The report of a WAV validation: the checks in the order the user sees
//! them, and how each step of the validation extends or ends the report.

use vstd::prelude::*;
use vstd::string::*;

use crate::scan::BlockScan;
use crate::text::{decimal, decimal_string, numbered, push_decimal};
use crate::wav::{carries_video_format, validate_wav_format, wav_format_text, WavData};

verus! {

/// One line of the report.
pub struct CheckItem {
    pub label: String,
    pub ok: bool,
    pub detail: String,
}

/// A check as label, verdict and detail text.
pub type CheckView = (Seq<char>, bool, Seq<char>);

/// The label, verdict and detail text of `c`.
pub open spec fn check_view(c: CheckItem) -> CheckView {
    (c.label@, c.ok, c.detail@)
}

/// The checks of a report, each as label, verdict and detail text.
pub open spec fn checks_view(checks: Seq<CheckItem>) -> Seq<CheckView> {
    checks.map_values(|c: CheckItem| check_view(c))
}

/// A passed check.
pub open spec fn passed(label: Seq<char>, detail: Seq<char>) -> CheckView {
    (label, true, detail)
}

/// A failed check.
pub open spec fn failed(label: Seq<char>, detail: Seq<char>) -> CheckView {
    (label, false, detail)
}

/// A passed check with the given label and detail.
pub fn ok(label: &str, detail: &str) -> (c: CheckItem)
    ensures
        check_view(c) == passed(label@, detail@),
{
    CheckItem { label: String::from_str(label), ok: true, detail: String::from_str(detail) }
}

/// A failed check with the given label and detail.
pub fn fail(label: &str, detail: &str) -> (c: CheckItem)
    ensures
        check_view(c) == failed(label@, detail@),
{
    CheckItem { label: String::from_str(label), ok: false, detail: String::from_str(detail) }
}

/// The outcome of validating a WAV file. The duration is in whole seconds:
/// two per recovered chunk.
pub struct ValidationResult {
    pub checks: Vec<CheckItem>,
    pub total_chunks: usize,
    pub good_chunks: usize,
    pub duration_secs: u64,
    pub video_path: Option<String>,
    pub video_info: Option<String>,
    pub all_ok: bool,
}

/// `r` reports the checks `checks` and no recovered video.
pub open spec fn is_no_video(r: ValidationResult, checks: Seq<CheckView>) -> bool {
    &&& checks_view(r.checks@) == checks
    &&& r.total_chunks == 0
    &&& r.good_chunks == 0
    &&& r.duration_secs == 0
    &&& r.video_path is None
    &&& r.video_info is None
    &&& !r.all_ok
}

/// The report that ends with `checks` and recovers no video.
pub fn no_video(checks: Vec<CheckItem>) -> (r: ValidationResult)
    ensures
        is_no_video(r, checks_view(checks@)),
{
    ValidationResult {
        checks,
        total_chunks: 0,
        good_chunks: 0,
        duration_secs: 0,
        video_path: None,
        video_info: None,
        all_ok: false,
    }
}

/// Every check passed.
pub open spec fn all_passed(checks: Seq<CheckView>) -> bool {
    forall|i: int| 0 <= i < checks.len() ==> (#[trigger] checks[i]).1
}

/// Whether every check of `checks` passed.
pub fn all_checks_ok(checks: &Vec<CheckItem>) -> (b: bool)
    ensures
        b == all_passed(checks_view(checks@)),
{
    let mut i: usize = 0;
    while i < checks.len()
        invariant
            i <= checks@.len(),
            forall|j: int| 0 <= j < i ==> (#[trigger] checks@[j]).ok,
        decreases checks@.len() - i,
    {
        if !checks[i].ok {
            assert(checks_view(checks@)[i as int].1 == checks@[i as int].ok);
            return false;
        }
        i = i + 1;
    }
    proof {
        assert forall|j: int| 0 <= j < checks_view(checks@).len() implies (
        #[trigger] checks_view(checks@)[j]).1 by {
            assert(checks_view(checks@)[j].1 == checks@[j].ok);
        }
    }
    true
}

/// Where a validation stands after one of its steps.
pub enum ValidationStep {
    /// The report is complete.
    Finished(ValidationResult),
    /// The checks so far; the validation goes on.
    Continue(Vec<CheckItem>),
}

/// The detail of a readable header.
pub open spec fn header_detail(m: WavData) -> Seq<char> {
    decimal(m.sample_rate as nat) + " Hz, "@ + decimal(m.bits_per_sample as nat) + "-bit, "@
        + decimal(m.channels as nat) + " canal(is), PCM"@
}

/// The checks of the header and of its format, given what reading the
/// header gave: its fields, or the text of the error.
pub open spec fn header_checks(header: Result<WavData, Seq<char>>) -> Seq<CheckView> {
    match header {
        Err(e) => seq![failed("Cabeçalho WAV"@, e)],
        Ok(m) => seq![
            passed("Cabeçalho WAV"@, header_detail(m)),
            if carries_video_format(m) {
                passed("Formato WAV"@, "48.000 Hz, 24-bit, mono — conforme ISDCF Doc 13"@)
            } else {
                failed("Formato WAV"@, wav_format_text(m))
            },
        ],
    }
}

/// The header was read and its format can carry video.
pub open spec fn header_usable(header: Result<WavData, Seq<char>>) -> bool {
    header matches Ok(m) && carries_video_format(m)
}

/// What reading the header gave, with the error as its text.
pub open spec fn header_view(header: Result<WavData, String>) -> Result<WavData, Seq<char>> {
    match header {
        Ok(m) => Ok(m),
        Err(e) => Err(e@),
    }
}

/// First step: the header checks. The validation goes on only when the
/// header was read and the track is 48 kHz, 24-bit, mono; otherwise the
/// report ends with no video.
pub fn check_header(header: Result<WavData, String>) -> (step: ValidationStep)
    ensures
        header_usable(header_view(header)) ==> (step matches ValidationStep::Continue(c)
            && checks_view(c@) == header_checks(header_view(header))),
        !header_usable(header_view(header)) ==> (step matches ValidationStep::Finished(r)
            && is_no_video(r, header_checks(header_view(header)))),
{
    let mut checks: Vec<CheckItem> = Vec::new();
    match header {
        Err(e) => {
            checks.push(fail("Cabeçalho WAV", e.as_str()));
            proof {
                assert(checks_view(checks@) =~= header_checks(header_view(header)));
            }
            ValidationStep::Finished(no_video(checks))
        },
        Ok(m) => {
            let mut detail = decimal_string(m.sample_rate as u128);
            detail.append(" Hz, ");
            push_decimal(&mut detail, m.bits_per_sample as u128);
            detail.append("-bit, ");
            push_decimal(&mut detail, m.channels as u128);
            detail.append(" canal(is), PCM");
            checks.push(CheckItem { label: String::from_str("Cabeçalho WAV"), ok: true, detail });
            match validate_wav_format(&m) {
                Some(msg) => {
                    checks.push(fail("Formato WAV", msg.as_str()));
                    proof {
                        assert(checks_view(checks@) =~= header_checks(header_view(header)));
                    }
                    ValidationStep::Finished(no_video(checks))
                },
                None => {
                    checks.push(ok("Formato WAV", "48.000 Hz, 24-bit, mono — conforme ISDCF Doc 13"));
                    proof {
                        assert(checks_view(checks@) =~= header_checks(header_view(header)));
                    }
                    ValidationStep::Continue(checks)
                },
            }
        },
    }
}

} // verus!

verus! {

/// The block-structure check: whole blocks only, or a fragment left over.
pub open spec fn structure_check(total: nat, remainder: nat) -> CheckView {
    if remainder == 0 {
        passed("Estrutura de blocos"@, decimal(total) + " bloco(s) completo(s) de 288.000 bytes"@)
    } else {
        failed(
            "Estrutura de blocos"@,
            "Encontrado(s) "@ + decimal(total)
                + " bloco(s) completo(s), mas o último fragmento tem "@ + decimal(remainder)
                + " bytes em vez de 288.000."@,
        )
    }
}

/// The check that no whole block was found.
pub open spec fn no_blocks_check() -> CheckView {
    failed(
        "Estrutura de blocos"@,
        "Nenhum bloco de 288.000 bytes encontrado. Este WAV não parece conter vídeo encapsulado no formato ISDCF Doc 13."@,
    )
}

/// The magic-number check.
pub open spec fn magic_check(ok: bool) -> CheckView {
    if ok {
        passed("Magic numbers"@, "0xFFFFFFFF encontrado em todos os blocos"@)
    } else {
        failed(
            "Magic numbers"@,
            "Não foi possível encontrar os marcadores 0xFFFFFFFF em todos os blocos. Este WAV pode não conter vídeo encapsulado."@,
        )
    }
}

/// The check of the declared block lengths.
pub open spec fn lb_check(ok: bool) -> CheckView {
    if ok {
        passed("Consistência de Lb"@, "Todos os blocos declaram Lb = 288.000"@)
    } else {
        failed("Consistência de Lb"@, "Alguns blocos declaram um valor de Lb diferente de 288.000."@)
    }
}

/// The EBML header check.
pub open spec fn ebml_check(ok: bool) -> CheckView {
    if ok {
        passed("EBML Headers"@, "Cabeçalhos EBML válidos em todos os chunks"@)
    } else {
        failed(
            "EBML Headers"@,
            "O cabeçalho EBML não foi encontrado ou está corrompido em um ou mais chunks."@,
        )
    }
}

/// The Segment ID check, counting the recovered chunks.
pub open spec fn segment_check(ok: bool, good: nat) -> CheckView {
    if ok {
        passed("VP9 Segments"@, "ID de Segment (0x18538067) presente em "@ + decimal(good) + " chunk(s)"@)
    } else {
        failed(
            "VP9 Segments"@,
            "O ID de Segment 0x18538067 não foi encontrado em um ou mais chunks. Os dados VP9 podem estar corrompidos."@,
        )
    }
}

/// The check of the declared sizes.
pub open spec fn size_check(ok: bool) -> CheckView {
    if ok {
        passed("Tamanhos consistentes"@, "HEADER_SIZE + Le + Lv ≤ Lb em todos os blocos"@)
    } else {
        failed(
            "Tamanhos consistentes"@,
            "Em um ou mais blocos, Lv + Le + 20 excede Lb = 288.000. O empacotamento original pode ter tido bitrate excessivo."@,
        )
    }
}

/// The duration of the recovered video: two seconds per chunk.
pub open spec fn duration_check(good: nat) -> CheckView {
    passed("Duração reconstruída"@, decimal(2 * good) + ".0 s ("@ + decimal(good) + " chunk(s) × 2 s)"@)
}

/// The check that no chunk could be recovered.
pub open spec fn no_chunks_check() -> CheckView {
    failed("Reconstrução"@, "Nenhum chunk válido encontrado para reconstruir o vídeo."@)
}

/// The checks that reading the blocks adds, in order.
pub open spec fn block_checks(scan: BlockScan) -> Seq<CheckView> {
    seq![
        structure_check(scan.total_blocks as nat, scan.remainder as nat),
        magic_check(scan.magic_ok),
        lb_check(scan.lb_ok),
        ebml_check(scan.ebml_ok),
        segment_check(scan.segment_ok, scan.chunks@.len()),
        size_check(scan.size_ok),
        duration_check(scan.chunks@.len()),
    ]
}

fn choose_check(cond: bool, label: &str, yes: &str, no: &str) -> (c: CheckItem)
    ensures
        check_view(c) == (if cond {
            passed(label@, yes@)
        } else {
            failed(label@, no@)
        }),
{
    if cond {
        ok(label, yes)
    } else {
        fail(label, no)
    }
}

/// Second step: the checks of the blocks read from the PCM data. With no
/// whole block, or no recovered chunk, the report ends with no video;
/// otherwise the validation goes on to rebuild the video.
pub fn check_blocks(checks: Vec<CheckItem>, scan: &BlockScan) -> (step: ValidationStep)
    requires
        scan.chunks@.len() <= u64::MAX / 2,
    ensures
        scan.total_blocks == 0 ==> (step matches ValidationStep::Finished(r) && is_no_video(
            r,
            checks_view(checks@).push(no_blocks_check()),
        )),
        scan.total_blocks > 0 && scan.chunks@.len() == 0 ==> (step matches ValidationStep::Finished(r)
            && is_no_video(r, checks_view(checks@) + block_checks(*scan) + seq![no_chunks_check()])),
        scan.total_blocks > 0 && scan.chunks@.len() > 0 ==> (step matches ValidationStep::Continue(c)
            && checks_view(c@) == checks_view(checks@) + block_checks(*scan)),
{
    let ghost before = checks_view(checks@);
    let mut checks = checks;
    if scan.total_blocks == 0 {
        checks.push(
            fail(
                "Estrutura de blocos",
                "Nenhum bloco de 288.000 bytes encontrado. Este WAV não parece conter vídeo encapsulado no formato ISDCF Doc 13.",
            ),
        );
        proof {
            assert(checks_view(checks@) =~= before.push(no_blocks_check()));
        }
        return ValidationStep::Finished(no_video(checks));
    }
    if scan.remainder == 0 {
        let mut detail = decimal_string(scan.total_blocks as u128);
        detail.append(" bloco(s) completo(s) de 288.000 bytes");
        checks.push(CheckItem { label: String::from_str("Estrutura de blocos"), ok: true, detail });
    } else {
        let mut detail = numbered(
            "Encontrado(s) ",
            scan.total_blocks as u128,
            " bloco(s) completo(s), mas o último fragmento tem ",
        );
        push_decimal(&mut detail, scan.remainder as u128);
        detail.append(" bytes em vez de 288.000.");
        checks.push(CheckItem { label: String::from_str("Estrutura de blocos"), ok: false, detail });
    }
    checks.push(
        choose_check(
            scan.magic_ok,
            "Magic numbers",
            "0xFFFFFFFF encontrado em todos os blocos",
            "Não foi possível encontrar os marcadores 0xFFFFFFFF em todos os blocos. Este WAV pode não conter vídeo encapsulado.",
        ),
    );
    checks.push(
        choose_check(
            scan.lb_ok,
            "Consistência de Lb",
            "Todos os blocos declaram Lb = 288.000",
            "Alguns blocos declaram um valor de Lb diferente de 288.000.",
        ),
    );
    checks.push(
        choose_check(
            scan.ebml_ok,
            "EBML Headers",
            "Cabeçalhos EBML válidos em todos os chunks",
            "O cabeçalho EBML não foi encontrado ou está corrompido em um ou mais chunks.",
        ),
    );
    let good = scan.chunks.len();
    if scan.segment_ok {
        let detail = numbered("ID de Segment (0x18538067) presente em ", good as u128, " chunk(s)");
        checks.push(CheckItem { label: String::from_str("VP9 Segments"), ok: true, detail });
    } else {
        checks.push(
            fail(
                "VP9 Segments",
                "O ID de Segment 0x18538067 não foi encontrado em um ou mais chunks. Os dados VP9 podem estar corrompidos.",
            ),
        );
    }
    checks.push(
        choose_check(
            scan.size_ok,
            "Tamanhos consistentes",
            "HEADER_SIZE + Le + Lv ≤ Lb em todos os blocos",
            "Em um ou mais blocos, Lv + Le + 20 excede Lb = 288.000. O empacotamento original pode ter tido bitrate excessivo.",
        ),
    );
    let mut detail = String::new();
    push_decimal(&mut detail, 2 * good as u128);
    detail.append(".0 s (");
    push_decimal(&mut detail, good as u128);
    detail.append(" chunk(s) × 2 s)");
    proof {
        assert(Seq::<char>::empty() + decimal(2 * good as nat) =~= decimal(2 * good as nat));
    }
    checks.push(CheckItem { label: String::from_str("Duração reconstruída"), ok: true, detail });
    proof {
        assert(checks_view(checks@) =~= before + block_checks(*scan));
    }
    if good == 0 {
        checks.push(
            fail("Reconstrução", "Nenhum chunk válido encontrado para reconstruir o vídeo."),
        );
        proof {
            assert(checks_view(checks@) =~= before + block_checks(*scan) + seq![no_chunks_check()]);
        }
        return ValidationStep::Finished(no_video(checks));
    }
    ValidationStep::Continue(checks)
}

/// The reconstruction check, given the path of the rebuilt video or the
/// text of the error that stopped it.
pub open spec fn reconstruction_check(concat: Result<Seq<char>, Seq<char>>, good: nat) -> CheckView {
    match concat {
        Ok(_) => passed("Reconstrução"@, "Vídeo reconstruído com "@ + decimal(good) + " chunk(s)"@),
        Err(e) => failed("Reconstrução"@, "Falha ao concatenar chunks: "@ + e),
    }
}

/// The description of a rebuilt video of `good` chunks.
pub open spec fn video_info_text(good: nat) -> Seq<char> {
    "480×640 · 24 fps · VP9 · "@ + decimal(48 * good) + " frames · duração "@ + decimal(2 * good)
        + ".0 s"@
}

/// What rebuilding the video gave, with the texts as sequences.
pub open spec fn concat_view(concat: Result<String, String>) -> Result<Seq<char>, Seq<char>> {
    match concat {
        Ok(p) => Ok(p@),
        Err(e) => Err(e@),
    }
}

/// Last step: the report once the recovered chunks were joined into one
/// video, at the path given, or failed to be with the error text given.
pub fn finish_validation(checks: Vec<CheckItem>, scan: &BlockScan, concat: Result<String, String>) -> (r: ValidationResult)
    requires
        scan.chunks@.len() <= u64::MAX / 48,
    ensures
        ({
            let good = scan.chunks@.len();
            let all = checks_view(checks@).push(reconstruction_check(concat_view(concat), good));
            &&& checks_view(r.checks@) == all
            &&& r.total_chunks == scan.total_blocks
            &&& r.good_chunks == good
            &&& r.duration_secs == 2 * good
            &&& (concat matches Ok(p) ==> r.video_path == Some(p))
            &&& (concat is Err ==> r.video_path is None)
            &&& (concat is Ok ==> (r.video_info matches Some(t) && t@ == video_info_text(good)))
            &&& (concat is Err ==> r.video_info is None)
            &&& r.all_ok == all_passed(all)
        }),
        r.all_ok <==> (concat is Ok && forall|i: int| 0 <= i < checks@.len() ==> (#[trigger] checks@[i]).ok),
        r.checks@.len() == checks@.len() + 1,
        r.checks@[checks@.len() as int].ok == concat is Ok,
{
    let ghost before = checks_view(checks@);
    let ghost old_checks = checks@;
    let mut checks = checks;
    let good = scan.chunks.len();
    let video_path = match concat {
        Ok(path) => {
            let detail = numbered("Vídeo reconstruído com ", good as u128, " chunk(s)");
            checks.push(CheckItem { label: String::from_str("Reconstrução"), ok: true, detail });
            Some(path)
        },
        Err(e) => {
            let detail = String::from_str("Falha ao concatenar chunks: ").concat(e.as_str());
            checks.push(CheckItem { label: String::from_str("Reconstrução"), ok: false, detail });
            None
        },
    };
    proof {
        assert(checks_view(checks@) =~= before.push(
            reconstruction_check(concat_view(concat), good as nat),
        ));
    }
    let all_ok = all_checks_ok(&checks);
    let video_info = match video_path {
        Some(_) => {
            let mut t = numbered("480×640 · 24 fps · VP9 · ", 48 * good as u128, " frames · duração ");
            push_decimal(&mut t, 2 * good as u128);
            t.append(".0 s");
            Some(t)
        },
        None => None,
    };
    proof {
        let all = checks_view(checks@);
        assert(all.len() == old_checks.len() + 1);
        assert(checks@[old_checks.len() as int].ok == all[old_checks.len() as int].1);
        assert forall|i: int| 0 <= i < old_checks.len() implies #[trigger] old_checks[i].ok
            == all[i].1 by {
            assert(all[i] == before[i]);
        }
        if all_ok {
            assert(all[old_checks.len() as int].1);
        } else {
            let i = choose|i: int| 0 <= i < all.len() && !(#[trigger] all[i]).1;
            if i < old_checks.len() {
                assert(!old_checks[i].ok);
            }
        }
    }
    ValidationResult {
        checks,
        total_chunks: scan.total_blocks,
        good_chunks: good,
        duration_secs: 2 * good as u64,
        video_path,
        video_info,
        all_ok,
    }
}

} // verus!

verus! {

/// What each item of the report says, in terms of what was read: the
/// header items pass exactly when the header was read, and when it is
/// 48000 Hz, 24-bit, 1 channel; the block items, in order, pass exactly
/// when no fragment is left over, and when the magic numbers, Lb values,
/// EBML headers, Segment IDs and sizes checked out (the Segment item does
/// not depend on how many chunks were recovered); the duration item always
/// passes; the reconstruction item passes exactly when the chunks were
/// joined; the items that end a report early always fail.
pub proof fn report_items_follow_what_was_read(
    header: Result<WavData, Seq<char>>,
    scan: BlockScan,
    concat: Result<Seq<char>, Seq<char>>,
    good: nat,
)
    ensures
        header is Err ==> header_checks(header).len() == 1 && header_checks(header)[0].0
            == "Cabeçalho WAV"@ && !header_checks(header)[0].1,
        header matches Ok(m) ==> header_checks(header).len() == 2 && header_checks(header)[0].0
            == "Cabeçalho WAV"@ && header_checks(header)[0].1 && header_checks(header)[1].0
            == "Formato WAV"@ && (header_checks(header)[1].1 <==> (m.sample_rate == 48000
            && m.bits_per_sample == 24 && m.channels == 1)),
        header_usable(header) <==> (header matches Ok(m) && m.sample_rate == 48000
            && m.bits_per_sample == 24 && m.channels == 1),
        block_checks(scan).len() == 7,
        block_checks(scan)[0].0 == "Estrutura de blocos"@,
        block_checks(scan)[0].1 == (scan.remainder == 0),
        block_checks(scan)[1].0 == "Magic numbers"@,
        block_checks(scan)[1].1 == scan.magic_ok,
        block_checks(scan)[2].0 == "Consistência de Lb"@,
        block_checks(scan)[2].1 == scan.lb_ok,
        block_checks(scan)[3].0 == "EBML Headers"@,
        block_checks(scan)[3].1 == scan.ebml_ok,
        block_checks(scan)[4].0 == "VP9 Segments"@,
        block_checks(scan)[4].1 == scan.segment_ok,
        block_checks(scan)[5].0 == "Tamanhos consistentes"@,
        block_checks(scan)[5].1 == scan.size_ok,
        block_checks(scan)[6].0 == "Duração reconstruída"@,
        block_checks(scan)[6].1,
        reconstruction_check(concat, good).0 == "Reconstrução"@,
        reconstruction_check(concat, good).1 == concat is Ok,
        no_blocks_check().0 == "Estrutura de blocos"@ && !no_blocks_check().1,
        no_chunks_check().0 == "Reconstrução"@ && !no_chunks_check().1,
{
}

} // verus!
