use zoog::comment_header::CommentHeaderSpecifics;
use zoog::opus;
use zoog::vorbis::{self, Specifics};
use zoog::Error;

fn opus_comment_bytes(vendor: &str, comments: &[(&str, &str)]) -> Vec<u8> {
    let mut header = opus::CommentHeader::empty();
    header.set_vendor(vendor);
    for (k, v) in comments {
        header.comments_mut().push(k, v).unwrap();
    }
    header.into_vec().unwrap()
}

#[test]
fn default_outputs_framing_bit() -> Result<(), Error> {
    let specifics = Specifics::fresh();
    let mut suffix = Vec::new();
    specifics.write_suffix(&mut suffix);
    assert!(!suffix.is_empty());
    assert!((suffix[0] & 1) != 0);
    Ok(())
}

#[test]
fn missing_framing_byte() {
    assert!(Specifics::read_suffix(&[]).is_err());
}

#[test]
fn missing_framing_bit() {
    assert!(Specifics::read_suffix(&[0xFE]).is_err());
}

#[test]
fn present_framing_bit() {
    assert!(Specifics::read_suffix(&[0x1]).is_ok());
}

#[test]
fn comment_header_generic_not_comment_header() {
    let mut header: Vec<u8> = b"OpusTags".to_vec();
    let last_byte = *header.last().unwrap();
    *header.last_mut().unwrap() = last_byte.wrapping_add(1);
    assert!(opus::CommentHeader::try_parse(&header).is_err());
}

#[test]
fn comment_header_truncated_header() {
    let header: Vec<u8> = b"OpusTags".to_vec();
    match opus::CommentHeader::try_parse(&header) {
        Err(Error::MalformedCommentHeader) => {}
        _ => assert!(false, "Wrong error for malformed header"),
    };
}

#[test]
fn serialized_layout_is_exact() {
    let bytes = opus_comment_bytes("ab", &[("K", "v")]);
    let mut expected: Vec<u8> = b"OpusTags".to_vec();
    expected.extend([2, 0, 0, 0]);
    expected.extend(b"ab");
    expected.extend([1, 0, 0, 0]);
    expected.extend([3, 0, 0, 0]);
    expected.extend(b"K=v");
    assert_eq!(bytes, expected);
}

#[test]
fn known_header_parse_and_encode_is_identity() {
    let original = opus_comment_bytes(
        "libopus 1.3",
        &[("ARTIST", "Alice"), ("TITLE", "Song"), ("ARTIST", "Band"), ("EMPTY", ""), ("X", "caf\u{e9}=\u{1F600}")],
    );
    let header = opus::CommentHeader::try_parse(&original).expect("Previously generated header was not recognised");
    assert_eq!(header.get_vendor(), "libopus 1.3");
    assert_eq!(header.comments().len(), 5);
    assert_eq!(header.comments().get(4), ("X", "caf\u{e9}=\u{1F600}"));
    assert_eq!(header.into_vec().unwrap(), original);
}

#[test]
fn fixed_padding_is_discarded() -> Result<(), Error> {
    let original_data = opus_comment_bytes("vendor", &[("A", "1"), ("B", "2")]);
    let mut padded_data = original_data.clone();
    padded_data.extend(std::iter::repeat(0xFE).take(1024));
    assert!(original_data.len() < padded_data.len());
    let processed_data = opus::CommentHeader::try_parse(&padded_data)?.into_vec()?;
    assert_eq!(original_data, processed_data);
    Ok(())
}

#[test]
fn fixed_experimental_data_is_preserved() -> Result<(), Error> {
    let original_data = opus_comment_bytes("vendor", &[("A", "1")]);
    let mut padded_data = original_data.clone();
    padded_data.push(0x1);
    padded_data.extend((0..1024).map(|i| (i * 7 % 256) as u8));
    assert!(original_data.len() < padded_data.len());
    let processed_data = opus::CommentHeader::try_parse(&padded_data)?.into_vec()?;
    assert_eq!(padded_data, processed_data);
    Ok(())
}

#[test]
fn malformed_comment_headers_are_refused() {
    let good = opus_comment_bytes("v", &[("A", "1")]);
    // overrun of the comment length
    let mut overrun = good.clone();
    let n = overrun.len();
    overrun[n - 7] = 9;
    assert!(matches!(opus::CommentHeader::try_parse(&overrun), Err(Error::MalformedCommentHeader)));
    // no separator in the comment
    let mut no_sep = good.clone();
    let n = no_sep.len();
    no_sep[n - 2] = b'X';
    assert!(matches!(opus::CommentHeader::try_parse(&no_sep), Err(Error::MalformedCommentHeader)));
    // invalid UTF-8 in the vendor
    let mut bad_utf8 = good.clone();
    bad_utf8[12] = 0xFF;
    assert!(matches!(opus::CommentHeader::try_parse(&bad_utf8), Err(Error::MalformedCommentHeader)));
}

#[test]
fn vorbis_comment_header_round_trip() -> Result<(), Error> {
    let mut header = vorbis::CommentHeader::empty();
    header.set_vendor("Xiph");
    header.comments_mut().push("TITLE", "x")?;
    let bytes = header.into_vec()?;
    assert_eq!(&bytes[..7], b"\x03vorbis");
    assert_eq!(*bytes.last().unwrap(), 1);
    let parsed = vorbis::CommentHeader::try_parse(&bytes)?;
    assert_eq!(parsed.into_vec()?, bytes);
    let mut unframed = bytes.clone();
    *unframed.last_mut().unwrap() = 0;
    assert!(vorbis::CommentHeader::try_parse(&unframed).is_err());
    Ok(())
}

fn opus_id(version: u8, channels: u8, gain: i16) -> Vec<u8> {
    let mut v: Vec<u8> = b"OpusHead".to_vec();
    v.push(version);
    v.push(channels);
    v.extend([0x38, 0x01]);
    v.extend(44100u32.to_le_bytes());
    v.extend(gain.to_le_bytes());
    v.push(0);
    v
}

#[test]
fn opus_id_header_fields() -> Result<(), Error> {
    let mut id = opus::IdHeader::try_parse(&opus_id(1, 2, -5))?.unwrap();
    assert_eq!(id.num_output_channels(), 2);
    assert_eq!(id.input_sample_rate(), Some(44100));
    assert_eq!(id.output_sample_rate(), 48000);
    assert_eq!(id.get_output_gain().as_fixed_point(), -5);
    id.set_output_gain(zoog::FixedPointGain::from_fixed_point(1792));
    assert_eq!(id.get_output_gain().as_fixed_point(), 1792);
    assert_eq!(id.as_bytes()[16..18], [0x00, 0x07]);
    assert!(matches!(
        id.adjust_output_gain(zoog::FixedPointGain::from_fixed_point(32767)),
        Err(Error::GainOutOfBounds)
    ));
    assert_eq!(id.get_output_gain().as_fixed_point(), 1792);
    Ok(())
}

#[test]
fn opus_id_header_refusals() {
    assert!(matches!(opus::IdHeader::try_parse(&opus_id(2, 2, 0)), Err(Error::UnsupportedCodecVersion(zoog::Codec::Opus, 2))));
    assert!(matches!(opus::IdHeader::try_parse(&opus_id(1, 0, 0)), Err(Error::MalformedIdentificationHeader)));
    assert!(matches!(opus::IdHeader::try_parse(b"OpusHead"), Ok(None)));
    assert!(matches!(opus::IdHeader::try_parse(&[0u8; 19]), Ok(None)));
}

fn vorbis_id(version: u32, channels: u8, rate: u32, framing: u8) -> Vec<u8> {
    let mut v: Vec<u8> = b"\x01vorbis".to_vec();
    v.extend(version.to_le_bytes());
    v.push(channels);
    v.extend(rate.to_le_bytes());
    v.extend([0u8; 12]);
    v.push(0xb8);
    v.push(framing);
    v
}

#[test]
fn vorbis_id_header_fields() -> Result<(), Error> {
    let id = vorbis::IdHeader::try_parse(&vorbis_id(0, 2, 44100, 1))?.unwrap();
    assert_eq!(id.num_output_channels(), 2);
    assert_eq!(id.output_sample_rate(), 44100);
    assert_eq!(id.input_sample_rate(), Some(44100));
    assert!(matches!(vorbis::IdHeader::try_parse(&vorbis_id(1, 2, 44100, 1)), Err(Error::UnsupportedCodecVersion(zoog::Codec::Vorbis, 1))));
    assert!(matches!(vorbis::IdHeader::try_parse(&vorbis_id(0, 0, 44100, 1)), Err(Error::MalformedIdentificationHeader)));
    assert!(matches!(vorbis::IdHeader::try_parse(&vorbis_id(0, 2, 44100, 0)), Err(Error::MalformedIdentificationHeader)));
    Ok(())
}
