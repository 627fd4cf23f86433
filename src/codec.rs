use vstd::prelude::*;

verus! {

/// Known audio codecs
#[derive(Debug, Clone, Copy, PartialEq, Eq, Structural)]
pub enum Codec {
    /// Ogg Opus
    Opus,
    /// Ogg Vorbis
    Vorbis,
}

impl Codec {
    /// The codec's name as it is shown to users.
    pub fn name(&self) -> (r: &'static str)
        ensures
            *self == Codec::Opus ==> r@ == "Opus"@,
            *self == Codec::Vorbis ==> r@ == "Vorbis"@,
    {
        match self {
            Codec::Opus => "Opus",
            Codec::Vorbis => "Vorbis",
        }
    }
}

} // verus!
