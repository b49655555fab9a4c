use vp9_to_wav_dcp::chunks::{chunk_file_name, chunk_file_name_matches, select_chunk_files, ChunkListError};
use vp9_to_wav_dcp::commands::{
    concat_args, concat_list, encode_args, format_probe_args, probe_args, segment_args,
};
use vp9_to_wav_dcp::logging::{join_log, log_event, log_line, LogLevel};
use vp9_to_wav_dcp::text::numbered;

#[test]
fn decimal_numerals() {
    assert_eq!(numbered("a", 0, "b"), "a0b");
    assert_eq!(numbered("", 1234567890123, ""), "1234567890123");
    assert_eq!(numbered("x=", u64::MAX as u128, "."), "x=18446744073709551615.");
}

#[test]
fn chunk_names() {
    assert_eq!(chunk_file_name(0), "chunk_00000.webm");
    assert_eq!(chunk_file_name(7), "chunk_00007.webm");
    assert_eq!(chunk_file_name(4321), "chunk_04321.webm");
    assert_eq!(chunk_file_name(99999), "chunk_99999.webm");
    assert_eq!(chunk_file_name(123456), "chunk_123456.webm");
    assert!(chunk_file_name_matches("chunk_00001.webm"));
    assert!(!chunk_file_name_matches("chunk_00001.webm.txt"));
    assert!(!chunk_file_name_matches("Chunk_00001.webm"));
    assert!(!chunk_file_name_matches("chunk_.WEBM"));
    assert!(chunk_file_name_matches("chunk_.webm"));
}

#[test]
fn chunk_files_are_kept_and_sorted() {
    let names = vec![
        "chunk_00002.webm".to_string(),
        "encoded.webm".to_string(),
        "chunk_00000.webm".to_string(),
        "chunk_00010.webm".to_string(),
        "chunk_00001.webm".to_string(),
        "chunk_00003.txt".to_string(),
    ];
    assert_eq!(
        select_chunk_files(names).unwrap(),
        vec!["chunk_00000.webm", "chunk_00001.webm", "chunk_00002.webm", "chunk_00010.webm"]
    );
    assert_eq!(
        select_chunk_files(vec!["x.webm".to_string()]).err(),
        Some(ChunkListError::NoChunks)
    );
    assert_eq!(
        ChunkListError::NoChunks.message(),
        "Nenhum chunk gerado. O vídeo pode ser muito curto."
    );
}

#[test]
fn log_lines_and_events() {
    assert_eq!(log_line(LogLevel::Info, "ok"), "[INFO] ok");
    assert_eq!(log_line(LogLevel::Warn, "hm"), "[WARN] hm");
    assert_eq!(log_line(LogLevel::Error, "no"), "[ERRO] no");
    let e = log_event(LogLevel::Error, "falhou");
    assert_eq!((e.level.as_str(), e.message.as_str()), ("error", "falhou"));
    assert_eq!(join_log(&vec![]), "");
    assert_eq!(join_log(&vec!["a".to_string()]), "a");
    assert_eq!(join_log(&vec!["a".to_string(), "b".to_string(), "c".to_string()]), "a\nb\nc");
}

#[test]
fn command_lines() {
    assert_eq!(
        probe_args("in.mp4"),
        vec!["-v", "quiet", "-print_format", "json", "-show_streams", "-show_format", "in.mp4"]
    );
    assert_eq!(
        format_probe_args("in.mp4"),
        vec!["-v", "quiet", "-print_format", "json", "-show_format", "in.mp4"]
    );
    assert_eq!(
        encode_args("in.mp4", "out.webm", "scale=480:640", 765),
        vec![
            "-y", "-i", "in.mp4", "-c:v", "libvpx-vp9", "-b:v", "765k", "-maxrate", "765k",
            "-bufsize", "765k", "-vf", "scale=480:640", "-r", "24", "-pix_fmt", "yuv420p", "-an",
            "-g", "48", "-keyint_min", "48", "-force_key_frames", "expr:gte(t,n_forced*2)",
            "-deadline", "good", "-cpu-used", "2", "out.webm"
        ]
    );
    assert_eq!(
        segment_args("e.webm", "d/chunk_%05d.webm"),
        vec!["-y", "-i", "e.webm", "-c", "copy", "-f", "segment", "-segment_time", "2",
            "-reset_timestamps", "1", "d/chunk_%05d.webm"]
    );
    assert_eq!(
        concat_args("l.txt", "o.webm"),
        vec!["-y", "-f", "concat", "-safe", "0", "-i", "l.txt", "-c", "copy", "o.webm"]
    );
    assert_eq!(
        concat_list(&vec!["/a/chunk_00000.webm".to_string(), "/a/chunk_00001.webm".to_string()]),
        "file '/a/chunk_00000.webm'\nfile '/a/chunk_00001.webm'\n"
    );
}
