//! Editing of the header packets of Ogg Opus and Ogg Vorbis streams: comment
//! lists, identification headers, and the output gain and R128 tags that set
//! playback loudness, without touching the audio.
use vstd::prelude::*;

pub mod bytes;
pub mod codec;
pub mod comment_header;
pub mod console;
pub mod comment_list;
pub mod comment_rewrite;
pub mod error;
pub mod escaping;
pub mod gain;
pub mod header_rewriter;
pub mod key_match;
pub mod opus;
pub mod settings;
pub mod text;
pub mod volume_analyzer;
pub mod volume_rewrite;
pub mod vorbis;

pub use codec::Codec;
pub use comment_list::{parse_comment, validate_comment_field_name, DiscreteCommentList};
pub use error::Error;
pub use gain::{Decibels, FixedPointGain};

verus! {

} // verus!
