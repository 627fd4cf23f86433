use vstd::prelude::*;

use crate::codec::Codec;
use crate::comment_header::parsed_header;
use crate::error::Error;
use crate::header_rewriter::Packet;
use crate::opus::{id_header_outcome, CommentHeader as OpusCommentHeader, IdHeader as OpusIdHeader, OPUS_DECODE_SAMPLE_RATE};
use crate::opus;

verus! {

/// Where the analysis of a stream stands.
#[derive(Debug, Clone, Copy, PartialEq, Eq, Structural)]
pub enum AnalyzerState {
    /// Waiting for the identification header
    AwaitingHeader,
    /// Waiting for the comment header of this logical stream
    AwaitingComments { serial: u32 },
    /// Decoding the audio of this logical stream
    Analyzing { serial: u32 },
    /// The stream has ended
    Done,
}

/// What the caller must do with a packet that the analyzer accepted.
#[derive(Debug, Clone, Copy, PartialEq, Eq, Structural)]
pub enum AnalyzerAction {
    /// Set up a decoder and one loudness meter per channel
    Configure { channels: usize, sample_rate: usize },
    /// Recreate the decoder only (same channels and sample rate)
    ResetDecoder,
    /// Nothing: a header was checked
    Nothing,
    /// Decode the packet and feed its samples to the meters
    Decode,
}

/// The decisions of the BS.1770 loudness analysis of Ogg Opus streams: which
/// packet is a header, when to set up or reset the decoder, which packets to
/// decode. Decoding and metering are the caller's.
#[derive(Debug)]
pub struct VolumeAnalyzer {
    state: AnalyzerState,
    params: Option<(usize, usize)>,
}

/// The channel count and sample rate that an Opus identification header
/// gives: its channel byte, and always 48 kHz.
pub open spec fn audio_params(id: Seq<u8>) -> (usize, usize) {
    (id[9] as usize, OPUS_DECODE_SAMPLE_RATE)
}

impl VolumeAnalyzer {
    /// The current state.
    pub closed spec fn state(&self) -> AnalyzerState {
        self.state
    }

    /// The channel count and sample rate of the decoder set up, if any.
    pub closed spec fn params(&self) -> Option<(usize, usize)> {
        self.params
    }

    /// An analyzer that has seen nothing.
    pub fn new() -> (r: VolumeAnalyzer)
        ensures
            r.state() == AnalyzerState::AwaitingHeader,
            r.params() is None,
    {
        VolumeAnalyzer { state: AnalyzerState::AwaitingHeader, params: None }
    }

    /// Submits the next packet and says what to do with it. A second logical
    /// stream is refused with `UnexpectedLogicalStream`; only mono and stereo
    /// are supported.
    pub fn submit(&mut self, packet: &Packet) -> (r: Result<AnalyzerAction, Error>)
        ensures
            r is Err ==> final(self).state() == old(self).state(),
            old(self).state() == AnalyzerState::AwaitingHeader ==> ({
                let o = id_header_outcome(packet.data@);
                let p = audio_params(packet.data@);
                &&& o is Err ==> r == Err::<AnalyzerAction, Error>(o->Err_0)
                &&& o == Ok::<bool, Error>(false) ==> r == Err::<AnalyzerAction, Error>(Error::MissingStream(Codec::Opus))
                &&& o == Ok::<bool, Error>(true) && old(self).params() is Some && old(self).params()->Some_0 != p
                    ==> r == Err::<AnalyzerAction, Error>(Error::UnexpectedAudioParametersChange)
                &&& o == Ok::<bool, Error>(true) && (old(self).params() is None || old(self).params()->Some_0 == p)
                    && p.0 != 1 && p.0 != 2 ==> r == Err::<AnalyzerAction, Error>(Error::InvalidChannelCount(p.0))
                &&& o == Ok::<bool, Error>(true) && old(self).params() is Some && old(self).params()->Some_0 == p
                    && (p.0 == 1 || p.0 == 2) ==> r == Ok::<AnalyzerAction, Error>(AnalyzerAction::ResetDecoder)
                &&& o == Ok::<bool, Error>(true) && old(self).params() is None && (p.0 == 1 || p.0 == 2) ==> r
                    == Ok::<AnalyzerAction, Error>(AnalyzerAction::Configure { channels: p.0, sample_rate: p.1 })
                &&& r is Ok ==> final(self).state() == (AnalyzerState::AwaitingComments { serial: packet.serial })
                    && final(self).params() == Some(p)
            }),
            old(self).state() is AwaitingComments ==> ({
                let s = old(self).state()->AwaitingComments_serial;
                &&& s != packet.serial ==> r == Err::<AnalyzerAction, Error>(Error::UnexpectedLogicalStream(packet.serial))
                &&& s == packet.serial && parsed_header::<opus::Specifics>(packet.data@) is None ==> r == Err::<
                    AnalyzerAction,
                    Error,
                >(Error::MalformedCommentHeader)
                &&& s == packet.serial && parsed_header::<opus::Specifics>(packet.data@) is Some ==> r == Ok::<
                    AnalyzerAction,
                    Error,
                >(AnalyzerAction::Nothing) && final(self).state() == (if packet.last_in_stream {
                    AnalyzerState::Done
                } else {
                    AnalyzerState::Analyzing { serial: s }
                })
                &&& final(self).params() == old(self).params()
            }),
            old(self).state() is Analyzing ==> ({
                let s = old(self).state()->Analyzing_serial;
                &&& s != packet.serial ==> r == Err::<AnalyzerAction, Error>(Error::UnexpectedLogicalStream(packet.serial))
                &&& s == packet.serial ==> r == Ok::<AnalyzerAction, Error>(AnalyzerAction::Decode) && final(self).state()
                    == (if packet.last_in_stream {
                    AnalyzerState::Done
                } else {
                    old(self).state()
                })
                &&& final(self).params() == old(self).params()
            }),
            old(self).state() == AnalyzerState::Done ==> r == Err::<AnalyzerAction, Error>(
                Error::UnexpectedLogicalStream(packet.serial),
            ),
    {
        match self.state {
            AnalyzerState::AwaitingHeader => {
                let header = match OpusIdHeader::try_parse(packet.data.as_slice()) {
                    Err(e) => {
                        return Err(e);
                    },
                    Ok(None) => {
                        return Err(Error::MissingStream(Codec::Opus));
                    },
                    Ok(Some(h)) => h,
                };
                let channels = header.num_output_channels();
                let sample_rate = header.output_sample_rate();
                let action = match self.params {
                    Some((c, s)) => {
                        if c != channels || s != sample_rate {
                            return Err(Error::UnexpectedAudioParametersChange);
                        }
                        AnalyzerAction::ResetDecoder
                    },
                    None => AnalyzerAction::Configure { channels, sample_rate },
                };
                if channels != 1 && channels != 2 {
                    return Err(Error::InvalidChannelCount(channels));
                }
                self.params = Some((channels, sample_rate));
                self.state = AnalyzerState::AwaitingComments { serial: packet.serial };
                Ok(action)
            },
            AnalyzerState::AwaitingComments { serial } => {
                if serial != packet.serial {
                    return Err(Error::UnexpectedLogicalStream(packet.serial));
                }
                match OpusCommentHeader::try_parse(packet.data.as_slice()) {
                    Ok(_) => {},
                    Err(e) => {
                        return Err(e);
                    },
                }
                self.state = if packet.last_in_stream {
                    AnalyzerState::Done
                } else {
                    AnalyzerState::Analyzing { serial }
                };
                Ok(AnalyzerAction::Nothing)
            },
            AnalyzerState::Analyzing { serial } => {
                if serial != packet.serial {
                    return Err(Error::UnexpectedLogicalStream(packet.serial));
                }
                if packet.last_in_stream {
                    self.state = AnalyzerState::Done;
                }
                Ok(AnalyzerAction::Decode)
            },
            AnalyzerState::Done => Err(Error::UnexpectedLogicalStream(packet.serial)),
        }
    }

    /// Ends the current file: returns whether a decoder was set up (whose
    /// meters' windows then belong to this file) and readies the analyzer
    /// for the next file.
    pub fn file_complete(&mut self) -> (r: bool)
        ensures
            r == old(self).params() is Some,
            final(self).params() is None,
            final(self).state() == AnalyzerState::AwaitingHeader,
    {
        let had = self.params.is_some();
        self.params = None;
        self.state = AnalyzerState::AwaitingHeader;
        had
    }
}

} // verus!
