use moviebay::args::build_arguments;
use moviebay::args::ArgBuilder;
use moviebay::args::ArgError;
use moviebay::config::CodecConfig;
use moviebay::config::FFmpegConfig;
use moviebay::ffmpeg::FFmpeg;
use moviebay::ffmpeg::TranscodeError;
use std::sync::Arc;

fn strings(items: &[&str]) -> Vec<String> {
    items.iter().map(|s| s.to_string()).collect()
}

fn pairs(items: &[(&str, &str)]) -> Vec<(String, String)> {
    items.iter().map(|(k, v)| (k.to_string(), v.to_string())).collect()
}

#[test]
fn build_arguments_substitutes_each_placeholder() {
    let out = build_arguments(
        strings(&["-ss", "%ss", "-i", "%i"]),
        &pairs(&[("ss", "0"), ("i", "movie.mkv")]),
    )
    .expect("all placeholders resolve");
    assert_eq!(out, strings(&["-ss", "0", "-i", "movie.mkv"]));
}

#[test]
fn build_arguments_rejects_key_without_token() {
    let err = build_arguments(
        strings(&["-ss", "%ss"]),
        &pairs(&[("ss", "0"), ("i", "movie.mkv")]),
    )
    .unwrap_err();
    assert_eq!(err, ArgError::UnresolvedArgument);
}

#[test]
fn build_arguments_rejects_leftover_placeholder() {
    let err = build_arguments(strings(&["-ss", "%ss", "-i", "%i"]), &pairs(&[("ss", "0")]))
        .unwrap_err();
    assert_eq!(err, ArgError::UnresolvedArgument);
}

#[test]
fn with_replaces_only_the_first_matching_token() {
    let b = ArgBuilder::new(strings(&["%x", "mid", "%x"]));
    let out = b.with("x", "1").unwrap().build();
    assert_eq!(out, strings(&["1", "mid", "%x"]));
}

#[test]
fn with_rejects_unknown_key() {
    let b = ArgBuilder::new(strings(&["-v", "quiet"]));
    match b.with("x", "1") {
        Err(e) => assert_eq!(e, ArgError::UnresolvedArgument),
        Ok(_) => panic!("an unknown key must be rejected"),
    }
}

fn wildcard_config(args: &[&str]) -> FFmpegConfig {
    FFmpegConfig {
        bin: "ffmpeg".to_string(),
        codecs: vec![("*".to_string(), CodecConfig { args: strings(args) })],
    }
}

#[test]
fn transcode_args_fills_the_whole_template() {
    let cfg = wildcard_config(&[
        "-ss", "%ss", "-i", "%i", "-f", "%f", "-vcodec", "%vcodec", "-acodec", "%acodec", "-",
    ]);
    let ffmpeg = FFmpeg::new(Arc::new(cfg));
    let out = ffmpeg.transcode_args("h264.mkv").expect("template resolves");
    assert_eq!(
        out,
        strings(&[
            "-ss", "0", "-i", "h264.mkv", "-f", "mp4", "-vcodec", "copy", "-acodec", "copy", "-",
        ])
    );
}

#[test]
fn transcode_args_without_wildcard_codec_fails() {
    let cfg = FFmpegConfig { bin: "ffmpeg".to_string(), codecs: Vec::new() };
    let ffmpeg = FFmpeg::new(Arc::new(cfg));
    assert_eq!(ffmpeg.transcode_args("a.mkv").unwrap_err(), TranscodeError::MissingCodec);
}

#[test]
fn transcode_args_with_unused_placeholder_fails() {
    let cfg = wildcard_config(&["-ss", "%ss", "-i", "%i", "%leftover"]);
    let ffmpeg = FFmpeg::new(Arc::new(cfg));
    assert_eq!(
        ffmpeg.transcode_args("a.mkv").unwrap_err(),
        TranscodeError::UnresolvedArgument
    );
}

#[test]
fn codec_lookup_finds_the_wildcard_entry() {
    let cfg = wildcard_config(&["-i", "%i"]);
    let codec = cfg.codec_for("*").expect("wildcard entry present");
    assert_eq!(codec.args, strings(&["-i", "%i"]));
    assert!(cfg.codec_for("h265").is_none());
}
