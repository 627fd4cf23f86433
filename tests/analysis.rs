use zoog::header_rewriter::Packet;
use zoog::settings::{
    apply_clear, is_media_extension, operation_mode, thread_count, volume_target_for, OperationMode, Preset,
};
use zoog::volume_analyzer::{AnalyzerAction, VolumeAnalyzer};
use zoog::volume_rewrite::VolumeTarget;
use zoog::Error;

fn opus_id(channels: u8) -> Vec<u8> {
    let mut v: Vec<u8> = b"OpusHead".to_vec();
    v.push(1);
    v.push(channels);
    v.extend([0, 0]);
    v.extend(0u32.to_le_bytes());
    v.extend([0, 0]);
    v.push(0);
    v
}

fn tags() -> Vec<u8> {
    let mut h = zoog::opus::CommentHeader::empty();
    h.set_vendor("x");
    h.into_vec().unwrap()
}

fn p(data: Vec<u8>, serial: u32, last: bool) -> Packet {
    Packet { data, serial, granule: 0, last_in_page: false, last_in_stream: last }
}

#[test]
fn analyzer_walks_one_stream() {
    let mut a = VolumeAnalyzer::new();
    assert_eq!(a.submit(&p(opus_id(2), 1, false)).unwrap(), AnalyzerAction::Configure { channels: 2, sample_rate: 48000 });
    assert_eq!(a.submit(&p(tags(), 1, false)).unwrap(), AnalyzerAction::Nothing);
    assert_eq!(a.submit(&p(vec![0xFC], 1, false)).unwrap(), AnalyzerAction::Decode);
    assert_eq!(a.submit(&p(vec![0xFC], 1, true)).unwrap(), AnalyzerAction::Decode);
    assert!(matches!(a.submit(&p(opus_id(2), 2, false)), Err(Error::UnexpectedLogicalStream(2))));
    assert!(a.file_complete());
    assert!(!a.file_complete());
}

#[test]
fn analyzer_refusals() {
    let mut a = VolumeAnalyzer::new();
    assert!(matches!(a.submit(&p(opus_id(3), 1, false)), Err(Error::InvalidChannelCount(3))));
    assert!(matches!(a.submit(&p(vec![1, 2, 3], 1, false)), Err(Error::MissingStream(zoog::Codec::Opus))));
    a.submit(&p(opus_id(1), 1, false)).unwrap();
    assert!(matches!(a.submit(&p(tags(), 9, false)), Err(Error::UnexpectedLogicalStream(9))));
    assert!(matches!(a.submit(&p(vec![1, 2], 1, false)), Err(Error::MalformedCommentHeader)));
}

#[test]
fn settings_resolve() {
    assert!(matches!(volume_target_for(Preset::ZeroGain), VolumeTarget::ZeroGain));
    match volume_target_for(Preset::ReplayGain) {
        VolumeTarget::LUFS(d) => assert_eq!(d.as_units(), -18 * 65536),
        _ => panic!("expected a loudness target"),
    }
    assert!(matches!(apply_clear(true, true, VolumeTarget::ZeroGain), (false, VolumeTarget::NoChange)));
    assert!(matches!(thread_count(0, 4), Err(Error::InvalidThreadCount)));
    assert_eq!(thread_count(9, 4).unwrap(), 4);
    assert_eq!(thread_count(2, 4).unwrap(), 2);
    assert_eq!(operation_mode(false, false, false), Some(OperationMode::List));
    assert_eq!(operation_mode(true, true, false), None);
    assert_eq!(operation_mode(false, false, true), Some(OperationMode::Replace));
    assert!(is_media_extension("OpUs"));
    assert!(is_media_extension("ogg"));
    assert!(!is_media_extension("tags"));
}
