use vstd::prelude::*;

use crate::codec::Codec;
use crate::escaping::EscapeDecodeError;

verus! {

/// The errors that the library's logic reports.
#[derive(Debug)]
pub enum Error {
    /// The stream was not of the expected codec
    MissingStream(Codec),
    /// The stream was not of a recognised codec
    UnknownCodec,
    /// The codec identification header was invalid
    MalformedIdentificationHeader,
    /// The comment header was invalid
    MalformedCommentHeader,
    /// Missing comment separator
    MissingCommentSeparator,
    /// An R128 tag was found to be invalid
    InvalidR128Tag(String),
    /// A gain value was out of bounds for being representable
    GainOutOfBounds,
    /// An unsupported channel count was found
    InvalidChannelCount(usize),
    /// An invalid number of threads was requested
    InvalidThreadCount,
    /// Invalid comment field name
    InvalidOpusCommentFieldName(String),
    /// An escaped string was invalid
    EscapeDecodeError(EscapeDecodeError),
    /// An interrupt was detected
    Interrupted,
    /// Unsupported codec version
    UnsupportedCodecVersion(Codec, u64),
    /// The codec was not supported for this operation
    UnsupportedCodec(Codec),
    /// A value could not be represented in a comment header
    UnrepresentableValueInCommentHeader,
    /// Unexpected logical stream in an Ogg file, with its serial
    UnexpectedLogicalStream(u32),
    /// Channel count and/or sample rate changed between concatenated streams
    UnexpectedAudioParametersChange,
}

} // verus!
