//! The command lines given to ffprobe and FFmpeg: the probe of an input,
//! the VP9 encoding that the target format asks for, the cut into
//! 2-second chunks and the joining of recovered chunks.

use vstd::prelude::*;
use vstd::string::*;

use crate::text::{decimal, decimal_string};

verus! {

/// The texts of the arguments.
pub open spec fn args_view(args: Seq<String>) -> Seq<Seq<char>> {
    args.map_values(|a: String| a@)
}

fn push_arg(args: &mut Vec<String>, a: &str)
    ensures
        args_view(final(args)@) == args_view(old(args)@).push(a@),
{
    args.push(String::from_str(a));
    proof {
        assert(args_view(args@) =~= args_view(old(args)@).push(a@));
    }
}

/// ffprobe arguments that print the streams and format of `path` as JSON.
pub open spec fn probe_args_text(path: Seq<char>) -> Seq<Seq<char>> {
    seq!["-v"@, "quiet"@, "-print_format"@, "json"@, "-show_streams"@, "-show_format"@, path]
}

/// ffprobe arguments that print the streams and format of `path` as JSON.
pub fn probe_args(path: &str) -> (args: Vec<String>)
    ensures
        args_view(args@) == probe_args_text(path@),
{
    let mut args: Vec<String> = Vec::new();
    push_arg(&mut args, "-v");
    push_arg(&mut args, "quiet");
    push_arg(&mut args, "-print_format");
    push_arg(&mut args, "json");
    push_arg(&mut args, "-show_streams");
    push_arg(&mut args, "-show_format");
    push_arg(&mut args, path);
    proof {
        assert(args_view(args@) =~= probe_args_text(path@));
    }
    args
}

/// ffprobe arguments that print only the format of `path` (its duration) as JSON.
pub open spec fn format_probe_args_text(path: Seq<char>) -> Seq<Seq<char>> {
    seq!["-v"@, "quiet"@, "-print_format"@, "json"@, "-show_format"@, path]
}

/// ffprobe arguments that print only the format of `path` as JSON.
pub fn format_probe_args(path: &str) -> (args: Vec<String>)
    ensures
        args_view(args@) == format_probe_args_text(path@),
{
    let mut args: Vec<String> = Vec::new();
    push_arg(&mut args, "-v");
    push_arg(&mut args, "quiet");
    push_arg(&mut args, "-print_format");
    push_arg(&mut args, "json");
    push_arg(&mut args, "-show_format");
    push_arg(&mut args, path);
    proof {
        assert(args_view(args@) =~= format_probe_args_text(path@));
    }
    args
}

/// The bitrate argument: "<kbps>k".
pub open spec fn rate_text(kbps: u32) -> Seq<char> {
    decimal(kbps as nat) + "k"@
}

/// FFmpeg arguments that encode `input` to a VP9 WebM at `output`: the
/// video filter `vf_filter`, a constrained bitrate (target, peak and
/// buffer all `kbps`), 24 fps, yuv420p, no audio, and a keyframe exactly
/// every 2 seconds so that the segmenter cuts on clean 2-second chunks.
pub open spec fn encode_args_text(
    input: Seq<char>,
    output: Seq<char>,
    vf_filter: Seq<char>,
    kbps: u32,
) -> Seq<Seq<char>> {
    let rate = rate_text(kbps);
    seq![
        "-y"@,
        "-i"@,
        input,
        "-c:v"@,
        "libvpx-vp9"@,
        "-b:v"@,
        rate,
        "-maxrate"@,
        rate,
        "-bufsize"@,
        rate,
        "-vf"@,
        vf_filter,
        "-r"@,
        "24"@,
        "-pix_fmt"@,
        "yuv420p"@,
        "-an"@,
        "-g"@,
        "48"@,
        "-keyint_min"@,
        "48"@,
        "-force_key_frames"@,
        "expr:gte(t,n_forced*2)"@,
        "-deadline"@,
        "good"@,
        "-cpu-used"@,
        "2"@,
        output,
    ]
}

/// FFmpeg arguments of the VP9 encoding at `kbps` kbit/s.
pub fn encode_args(input: &str, output: &str, vf_filter: &str, kbps: u32) -> (args: Vec<String>)
    ensures
        args_view(args@) == encode_args_text(input@, output@, vf_filter@, kbps),
{
    let mut rate = decimal_string(kbps as u128);
    rate.append("k");
    let mut args: Vec<String> = Vec::new();
    push_arg(&mut args, "-y");
    push_arg(&mut args, "-i");
    push_arg(&mut args, input);
    push_arg(&mut args, "-c:v");
    push_arg(&mut args, "libvpx-vp9");
    push_arg(&mut args, "-b:v");
    push_arg(&mut args, rate.as_str());
    push_arg(&mut args, "-maxrate");
    push_arg(&mut args, rate.as_str());
    push_arg(&mut args, "-bufsize");
    push_arg(&mut args, rate.as_str());
    push_arg(&mut args, "-vf");
    push_arg(&mut args, vf_filter);
    push_arg(&mut args, "-r");
    push_arg(&mut args, "24");
    push_arg(&mut args, "-pix_fmt");
    push_arg(&mut args, "yuv420p");
    push_arg(&mut args, "-an");
    push_arg(&mut args, "-g");
    push_arg(&mut args, "48");
    push_arg(&mut args, "-keyint_min");
    push_arg(&mut args, "48");
    push_arg(&mut args, "-force_key_frames");
    push_arg(&mut args, "expr:gte(t,n_forced*2)");
    push_arg(&mut args, "-deadline");
    push_arg(&mut args, "good");
    push_arg(&mut args, "-cpu-used");
    push_arg(&mut args, "2");
    push_arg(&mut args, output);
    proof {
        assert(args_view(args@) =~= encode_args_text(input@, output@, vf_filter@, kbps));
    }
    args
}

/// FFmpeg arguments that cut `input`, without re-encoding, into 2-second
/// chunks named after `pattern`, each starting at time 0.
pub open spec fn segment_args_text(input: Seq<char>, pattern: Seq<char>) -> Seq<Seq<char>> {
    seq![
        "-y"@,
        "-i"@,
        input,
        "-c"@,
        "copy"@,
        "-f"@,
        "segment"@,
        "-segment_time"@,
        "2"@,
        "-reset_timestamps"@,
        "1"@,
        pattern,
    ]
}

/// FFmpeg arguments of the cut into 2-second chunks.
pub fn segment_args(input: &str, pattern: &str) -> (args: Vec<String>)
    ensures
        args_view(args@) == segment_args_text(input@, pattern@),
{
    let mut args: Vec<String> = Vec::new();
    push_arg(&mut args, "-y");
    push_arg(&mut args, "-i");
    push_arg(&mut args, input);
    push_arg(&mut args, "-c");
    push_arg(&mut args, "copy");
    push_arg(&mut args, "-f");
    push_arg(&mut args, "segment");
    push_arg(&mut args, "-segment_time");
    push_arg(&mut args, "2");
    push_arg(&mut args, "-reset_timestamps");
    push_arg(&mut args, "1");
    push_arg(&mut args, pattern);
    proof {
        assert(args_view(args@) =~= segment_args_text(input@, pattern@));
    }
    args
}

/// FFmpeg arguments that join, without re-encoding, the files listed in
/// `list_path` into `output`.
pub open spec fn concat_args_text(list_path: Seq<char>, output: Seq<char>) -> Seq<Seq<char>> {
    seq!["-y"@, "-f"@, "concat"@, "-safe"@, "0"@, "-i"@, list_path, "-c"@, "copy"@, output]
}

/// FFmpeg arguments of the joining of the chunks.
pub fn concat_args(list_path: &str, output: &str) -> (args: Vec<String>)
    ensures
        args_view(args@) == concat_args_text(list_path@, output@),
{
    let mut args: Vec<String> = Vec::new();
    push_arg(&mut args, "-y");
    push_arg(&mut args, "-f");
    push_arg(&mut args, "concat");
    push_arg(&mut args, "-safe");
    push_arg(&mut args, "0");
    push_arg(&mut args, "-i");
    push_arg(&mut args, list_path);
    push_arg(&mut args, "-c");
    push_arg(&mut args, "copy");
    push_arg(&mut args, output);
    proof {
        assert(args_view(args@) =~= concat_args_text(list_path@, output@));
    }
    args
}

/// The concat list of the given files, in order: one line "file '<path>'" each.
pub open spec fn concat_list_text(paths: Seq<Seq<char>>) -> Seq<char>
    decreases paths.len(),
{
    if paths.len() == 0 {
        Seq::empty()
    } else {
        concat_list_text(paths.drop_last()) + "file '"@ + paths.last() + "'\n"@
    }
}

/// The concat list of the given files, in playback order.
pub fn concat_list(paths: &Vec<String>) -> (s: String)
    ensures
        s@ == concat_list_text(args_view(paths@)),
{
    let mut s = String::new();
    let mut i: usize = 0;
    while i < paths.len()
        invariant
            i <= paths@.len(),
            s@ == concat_list_text(args_view(paths@).take(i as int)),
        decreases paths@.len() - i,
    {
        s.append("file '");
        s.append(paths[i].as_str());
        s.append("'\n");
        proof {
            let next = args_view(paths@).take(i + 1);
            assert(next.drop_last() =~= args_view(paths@).take(i as int));
            assert(next.last() == paths@[i as int]@);
        }
        i = i + 1;
    }
    proof {
        assert(args_view(paths@).take(paths@.len() as int) =~= args_view(paths@));
    }
    s
}

} // verus!
