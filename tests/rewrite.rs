use zoog::comment_list::DiscreteCommentList;
use zoog::comment_rewrite::{
    parse_delete_comment_args, parse_new_comment_args, CommentHeaderRewrite, CommentHeaderSummary,
    CommentRewriterAction, CommentRewriterConfig,
};
use zoog::header_rewriter::{CodecHeaders, HeaderRewriter, HeaderSummarize, Packet, RewriteProgress, SubmitResult};
use zoog::opus;
use zoog::volume_rewrite::{
    GainsSummary, OpusGains, OutputGainMode, VolumeHeaderRewrite, VolumeRewriterConfig, VolumeTarget,
};
use zoog::{Decibels, Error};

fn opus_id(gain: i16) -> Vec<u8> {
    let mut v: Vec<u8> = b"OpusHead".to_vec();
    v.push(1);
    v.push(2);
    v.extend([0x38, 0x01]);
    v.extend(48000u32.to_le_bytes());
    v.extend(gain.to_le_bytes());
    v.push(0);
    v
}

fn opus_comments(comments: &[(&str, &str)], tail: &[u8]) -> Vec<u8> {
    let mut header = opus::CommentHeader::empty();
    header.set_vendor("libopus");
    for (k, v) in comments {
        header.comments_mut().push(k, v).unwrap();
    }
    let mut bytes = header.into_vec().unwrap();
    bytes.extend_from_slice(tail);
    bytes
}

fn packet(data: Vec<u8>, granule: u64, last_in_page: bool) -> Packet {
    Packet { data, serial: 77, granule, last_in_page, last_in_stream: false }
}

fn sample_comments() -> Vec<u8> {
    opus_comments(&[("ARTIST", "Alice"), ("TITLE", "Song"), ("ARTIST", "Band")], &[0x01, 0xAA, 0xBB])
}

fn args(items: &[&str]) -> Vec<String> {
    items.iter().map(|s| s.to_string()).collect()
}

fn run_comment_rewrite(
    action: CommentRewriterAction, id: Vec<u8>, comments: Vec<u8>,
) -> (SubmitResult<DiscreteCommentList>, Vec<Packet>) {
    let rewrite = CommentHeaderRewrite::new(CommentRewriterConfig { action });
    let mut rewriter = HeaderRewriter::new(rewrite, CommentHeaderSummary {});
    let (first, out) = rewriter.submit(packet(id, 0, true)).unwrap();
    assert!(matches!(first, SubmitResult::Good));
    assert!(out.is_empty());
    rewriter.submit(packet(comments, 0, true)).unwrap()
}

fn parse_out(out: &[Packet]) -> CodecHeaders {
    CodecHeaders::parse(&out[0].data, &out[1].data).unwrap()
}

fn comment_pairs(headers: &CodecHeaders) -> Vec<(String, String)> {
    let summary = CommentHeaderSummary {}.summarize(headers).unwrap();
    (0..summary.len()).map(|i| (summary.get(i).0.to_string(), summary.get(i).1.to_string())).collect()
}

#[test]
fn list_mode_reports_comments_in_order() {
    let (result, out) = run_comment_rewrite(CommentRewriterAction::NoChange, opus_id(0), sample_comments());
    match result {
        SubmitResult::HeadersUnchanged(list) => {
            assert_eq!(list.to_text(false), "ARTIST=Alice\nTITLE=Song\nARTIST=Band\n");
        }
        _ => panic!("expected unchanged headers"),
    }
    assert_eq!(out[1].data, sample_comments());
}

#[test]
fn replace_mode_replaces_all_comments() {
    let list = parse_new_comment_args(&args(&["TITLE=New", "GENRE=Jazz"]), false).unwrap();
    let (result, out) = run_comment_rewrite(CommentRewriterAction::Replace(list), opus_id(0), sample_comments());
    assert!(matches!(result, SubmitResult::HeadersChanged { .. }));
    let headers = parse_out(&out);
    assert_eq!(
        comment_pairs(&headers),
        vec![("TITLE".to_string(), "New".to_string()), ("GENRE".to_string(), "Jazz".to_string())]
    );
    match headers {
        CodecHeaders::Opus(_, c) => assert_eq!(c.get_vendor(), "libopus"),
        _ => panic!("expected Opus"),
    }
    assert!(out[1].data.ends_with(&[0x01, 0xAA, 0xBB]));
}

#[test]
fn modify_mode_deletes_case_insensitively() {
    let delete = parse_delete_comment_args(&args(&["artist=Band"]), false).unwrap();
    let append = parse_new_comment_args(&args(&["GENRE=Rock"]), false).unwrap();
    let (result, out) =
        run_comment_rewrite(CommentRewriterAction::Modify { delete, append }, opus_id(0), sample_comments());
    assert!(matches!(result, SubmitResult::HeadersChanged { .. }));
    assert_eq!(
        comment_pairs(&parse_out(&out)),
        vec![
            ("ARTIST".to_string(), "Alice".to_string()),
            ("TITLE".to_string(), "Song".to_string()),
            ("GENRE".to_string(), "Rock".to_string())
        ]
    );
}

#[test]
fn delete_args_merge_and_all_absorbs() {
    let m = parse_delete_comment_args(&args(&["A=x", "a=y", "B", "b=z"]), false).unwrap();
    assert!(m.matches("A", "x"));
    assert!(m.matches("a", "y"));
    assert!(!m.matches("A", "z"));
    assert!(m.matches("b", "anything"));
    assert!(!m.matches("C", "x"));
    assert!(matches!(parse_delete_comment_args(&args(&["A\u{1}"]), false), Err(Error::InvalidOpusCommentFieldName(_))));
    let escaped = parse_delete_comment_args(&args(&["K=a\\nb"]), true).unwrap();
    assert!(escaped.matches("k", "a\nb"));
}

#[test]
fn new_comment_args_errors() {
    assert!(matches!(parse_new_comment_args(&args(&["NOSEP"]), false), Err(Error::MissingCommentSeparator)));
    assert!(matches!(parse_new_comment_args(&args(&["K=\\"]), true), Err(Error::EscapeDecodeError(_))));
    let list = parse_new_comment_args(&args(&["K=a\\rb"]), true).unwrap();
    assert_eq!(list.get(0), ("K", "a\rb"));
}

fn run_volume(config: VolumeRewriterConfig, id: Vec<u8>, comments: Vec<u8>) -> (SubmitResult<OpusGains>, Vec<Packet>) {
    let mut rewriter = HeaderRewriter::new(VolumeHeaderRewrite::new(config), GainsSummary {});
    rewriter.submit(packet(id, 0, true)).unwrap();
    rewriter.submit(packet(comments, 0, true)).unwrap()
}

fn output_gain(out: &[Packet]) -> i16 {
    match parse_out(out) {
        CodecHeaders::Opus(id, _) => id.get_output_gain().as_fixed_point(),
        _ => panic!("expected Opus"),
    }
}

fn tag(out: &[Packet], name: &str) -> Option<String> {
    match parse_out(out) {
        CodecHeaders::Opus(_, c) => c.comments().get_first(name).map(|s| s.to_string()),
        _ => panic!("expected Opus"),
    }
}

#[test]
fn normalize_to_r128() {
    let config = VolumeRewriterConfig {
        output_gain: VolumeTarget::LUFS(Decibels::r128_lufs()),
        output_gain_mode: OutputGainMode::Track,
        track_volume: Some(Decibels::from_whole_db(-30)),
        album_volume: None,
    };
    let (result, out) = run_volume(config, opus_id(0), opus_comments(&[("R128_ALBUM_GAIN", "5")], &[]));
    assert!(matches!(result, SubmitResult::HeadersChanged { .. }));
    assert_eq!(output_gain(&out), 1792);
    assert_eq!(tag(&out, "R128_TRACK_GAIN"), Some("0".to_string()));
    assert_eq!(tag(&out, "R128_ALBUM_GAIN"), None);

    // A second run on the rewritten headers changes nothing
    let (again, out2) = run_volume(config, out[0].data.clone(), out[1].data.clone());
    assert!(matches!(again, SubmitResult::HeadersUnchanged(_)));
    assert_eq!(out2[0].data, out[0].data);
    assert_eq!(out2[1].data, out[1].data);
}

#[test]
fn album_mode_across_two_files() {
    let album = Some(Decibels::from_whole_db(-23));
    let mut album_tags = Vec::new();
    for (track, expected_track_tag) in [(-25, "-768"), (-21, "-1792")] {
        let config = VolumeRewriterConfig {
            output_gain: VolumeTarget::LUFS(Decibels::replay_gain_lufs()),
            output_gain_mode: zoog::settings::output_gain_mode_for(zoog::settings::OutputGainSetting::Auto, true),
            track_volume: Some(Decibels::from_whole_db(track)),
            album_volume: album,
        };
        let (_, out) = run_volume(config, opus_id(0), opus_comments(&[], &[]));
        assert_eq!(output_gain(&out), 1280);
        assert_eq!(tag(&out, "R128_TRACK_GAIN"), Some(expected_track_tag.to_string()));
        album_tags.push(tag(&out, "R128_ALBUM_GAIN"));
    }
    assert_eq!(album_tags[0], Some("-1280".to_string()));
    assert_eq!(album_tags[0], album_tags[1]);
}

#[test]
fn volume_rewrite_reports_gains() {
    let config = VolumeRewriterConfig {
        output_gain: VolumeTarget::ZeroGain,
        output_gain_mode: OutputGainMode::Track,
        track_volume: Some(Decibels::from_whole_db(-20)),
        album_volume: None,
    };
    let (result, _) = run_volume(config, opus_id(256), opus_comments(&[("R128_TRACK_GAIN", "bad")], &[]));
    match result {
        SubmitResult::HeadersChanged { from, to } => {
            assert_eq!(from.output.as_units(), 256 * 256);
            assert_eq!(from.track_r128, None);
            assert_eq!(to.output.as_units(), 0);
            assert_eq!(to.track_r128.map(|d| d.as_units()), Some(-3 * 65536));
        }
        _ => panic!("expected changed headers"),
    }
}

#[test]
fn gain_out_of_bounds_is_an_error() {
    let config = VolumeRewriterConfig {
        output_gain: VolumeTarget::LUFS(Decibels::r128_lufs()),
        output_gain_mode: OutputGainMode::Track,
        track_volume: Some(Decibels::from_whole_db(-200)),
        album_volume: None,
    };
    let mut rewriter = HeaderRewriter::new(VolumeHeaderRewrite::new(config), GainsSummary {});
    rewriter.submit(packet(opus_id(0), 0, true)).unwrap();
    assert!(matches!(rewriter.submit(packet(opus_comments(&[], &[]), 0, true)), Err(Error::GainOutOfBounds)));
}

#[test]
fn packets_after_headers_are_forwarded() {
    let mut rewriter = HeaderRewriter::new(
        CommentHeaderRewrite::new(CommentRewriterConfig { action: CommentRewriterAction::NoChange }),
        CommentHeaderSummary {},
    );
    rewriter.submit(packet(opus_id(0), 0, true)).unwrap();
    let other = Packet { data: vec![9, 9], serial: 5, granule: 3, last_in_page: false, last_in_stream: true };
    let (r, out) = rewriter.submit(other).unwrap();
    assert!(matches!(r, SubmitResult::Good));
    assert_eq!(out[0].serial, 5);
    rewriter.submit(packet(sample_comments(), 0, true)).unwrap();
    let audio = Packet { data: vec![1, 2, 3], serial: 77, granule: 960, last_in_page: true, last_in_stream: true };
    let (r, out) = rewriter.submit(audio).unwrap();
    assert!(matches!(r, SubmitResult::Good));
    assert_eq!(out.len(), 1);
    assert_eq!(out[0].data, vec![1, 2, 3]);
    assert_eq!(out[0].granule, 960);
    assert!(out[0].last_in_stream);
}

#[test]
fn unknown_codec_is_refused() {
    let mut rewriter = HeaderRewriter::new(
        CommentHeaderRewrite::new(CommentRewriterConfig { action: CommentRewriterAction::NoChange }),
        CommentHeaderSummary {},
    );
    rewriter.submit(packet(vec![0u8; 40], 0, true)).unwrap();
    assert!(matches!(rewriter.submit(packet(sample_comments(), 0, true)), Err(Error::UnknownCodec)));
}

#[test]
fn progress_keeps_last_report_and_stops_on_unchanged() {
    let mut keep_going = RewriteProgress::new(false);
    assert!(!keep_going.record(SubmitResult::Good));
    assert!(!keep_going.record(SubmitResult::HeadersChanged { from: 1, to: 2 }));
    assert!(!keep_going.record(SubmitResult::Good));
    assert!(matches!(keep_going.finish(), SubmitResult::HeadersChanged { from: 1, to: 2 }));
    let mut stopping = RewriteProgress::new(true);
    assert!(stopping.record(SubmitResult::HeadersUnchanged(5)));
    assert!(matches!(stopping.finish(), SubmitResult::HeadersUnchanged(5)));
}
