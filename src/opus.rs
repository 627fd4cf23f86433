use vstd::prelude::*;

use crate::bytes::{le_i16, le_u32, read_i16_le, read_u32_le};
use crate::codec::Codec;
use crate::comment_header::{parse_header_body, parsed_header, CommentHeaderGeneric, CommentHeaderSpecifics};
use crate::error::Error;
use crate::gain::{fits_i16, FixedPointGain};

verus! {

/// The name of the tag that holds the track gain in Opus comment headers.
pub const TAG_TRACK_GAIN: &'static str = "R128_TRACK_GAIN";

/// The name of the tag that holds the album gain in Opus comment headers.
pub const TAG_ALBUM_GAIN: &'static str = "R128_ALBUM_GAIN";

/// The smallest valid Opus identification header.
pub const OPUS_MIN_HEADER_SIZE: usize = 19;

/// The internal and preferred Opus sample rate (RFC 7845, section 5.1).
pub const OPUS_DECODE_SAMPLE_RATE: usize = 48000;

/// The magic signature of the Opus identification header, `OpusHead`.
pub open spec fn id_magic() -> Seq<u8> {
    seq![0x4fu8, 0x70, 0x75, 0x73, 0x48, 0x65, 0x61, 0x64]
}

/// The magic signature of the Opus comment header, `OpusTags`.
pub open spec fn comment_magic() -> Seq<u8> {
    seq![0x4fu8, 0x70, 0x75, 0x73, 0x54, 0x61, 0x67, 0x73]
}

/// What the parse of an Opus identification header gives: `Ok(false)` where
/// the bytes are not one, `Ok(true)` for a supported one, an error for one
/// that is not supported or malformed.
pub open spec fn id_header_outcome(b: Seq<u8>) -> Result<bool, Error> {
    if b.len() < OPUS_MIN_HEADER_SIZE || b.take(8) != id_magic() {
        Ok(false)
    } else if b[8] != 1 {
        Err(Error::UnsupportedCodecVersion(Codec::Opus, b[8] as u64))
    } else if b[9] == 0 {
        Err(Error::MalformedIdentificationHeader)
    } else {
        Ok(true)
    }
}

/// The bytes after the comments that an Opus comment header keeps: all of
/// them where the first has its least significant bit set, else none.
pub open spec fn opus_kept_suffix(rest: Seq<u8>) -> Seq<u8> {
    if rest.len() > 0 && rest[0] % 2 == 1 {
        rest
    } else {
        Seq::empty()
    }
}

/// The unsigned 16-bit word that encodes Q7.8 value `g`.
pub open spec fn gain_word(g: int) -> int {
    if g < 0 {
        g + 65536
    } else {
        g
    }
}

/// Identification header bytes `id` with output gain `g` written in.
pub open spec fn with_gain(id: Seq<u8>, g: int) -> Seq<u8> {
    id.update(16, (gain_word(g) % 256) as u8).update(17, (gain_word(g) / 256) as u8)
}

/// Allows querying and modification of an Opus identification header
#[derive(Debug)]
pub struct IdHeader {
    data: Vec<u8>,
}

impl View for IdHeader {
    type V = Seq<u8>;

    closed spec fn view(&self) -> Seq<u8> {
        self.data@
    }
}

fn starts_with(data: &[u8], magic: &[u8]) -> (r: bool)
    requires
        magic@.len() <= data@.len(),
    ensures
        r == (data@.take(magic@.len() as int) == magic@),
{
    let mut i: usize = 0;
    while i < magic.len()
        invariant
            i <= magic@.len() <= data@.len(),
            forall|j: int| 0 <= j < i ==> data@[j] == magic@[j],
        decreases magic@.len() - i,
    {
        if data[i] != magic[i] {
            proof {
                assert(data@.take(magic@.len() as int)[i as int] != magic@[i as int]);
            }
            return false;
        }
        i = i + 1;
    }
    proof {
        assert(data@.take(magic@.len() as int) =~= magic@);
    }
    true
}

impl IdHeader {
    /// A parsed, supported Opus identification header.
    pub open spec fn wf(&self) -> bool {
        id_header_outcome(self@) == Ok::<bool, Error>(true)
    }

    /// Attempts to parse the supplied bytes as an Opus identification header.
    /// `Ok(None)` means they are not one.
    pub fn try_parse(data: &[u8]) -> (r: Result<Option<IdHeader>, Error>)
        ensures
            r is Ok ==> (r->Ok_0 is Some) == (id_header_outcome(data@) == Ok::<bool, Error>(true)),
            r is Ok ==> id_header_outcome(data@) is Ok,
            r is Ok && r->Ok_0 is Some ==> r->Ok_0->Some_0@ == data@ && r->Ok_0->Some_0.wf(),
            r is Err ==> id_header_outcome(data@) == Err::<bool, Error>(r->Err_0),
    {
        if data.len() < OPUS_MIN_HEADER_SIZE {
            return Ok(None);
        }
        let magic: Vec<u8> = vec![0x4fu8, 0x70, 0x75, 0x73, 0x48, 0x65, 0x61, 0x64];
        proof {
            assert(magic@ =~= id_magic());
        }
        if !starts_with(data, magic.as_slice()) {
            return Ok(None);
        }
        let version = data[8];
        if version != 1 {
            return Err(Error::UnsupportedCodecVersion(Codec::Opus, version as u64));
        }
        if data[9] == 0 {
            return Err(Error::MalformedIdentificationHeader);
        }
        let mut copy: Vec<u8> = Vec::new();
        crate::bytes::push_bytes(&mut copy, data);
        proof {
            assert(copy@ =~= data@);
        }
        Ok(Some(IdHeader { data: copy }))
    }

    /// The header's bytes.
    pub fn as_bytes(&self) -> (r: &[u8])
        ensures
            r@ == self@,
    {
        self.data.as_slice()
    }

    /// Writes the serialized header.
    pub fn serialize_into(&self, out: &mut Vec<u8>)
        ensures
            final(out)@ == old(out)@ + self@,
    {
        crate::bytes::push_bytes(out, self.data.as_slice());
    }

    /// Converts the header into its bytes.
    pub fn into_vec(self) -> (r: Vec<u8>)
        ensures
            r@ == self@,
    {
        self.data
    }

    /// A copy.
    pub fn duplicate(&self) -> (r: IdHeader)
        ensures
            r@ == self@,
    {
        let mut copy: Vec<u8> = Vec::new();
        crate::bytes::push_bytes(&mut copy, self.data.as_slice());
        IdHeader { data: copy }
    }

    /// Do both headers hold the same bytes?
    pub fn same_as(&self, other: &IdHeader) -> (r: bool)
        ensures
            r == (self@ == other@),
    {
        crate::bytes::bytes_equal(self.data.as_slice(), other.data.as_slice())
    }

    /// Gets the Opus encapsulation version
    pub fn version(&self) -> (r: u8)
        requires
            self.wf(),
        ensures
            r == self@[8],
    {
        self.data[8]
    }

    /// The number of output channels
    pub fn num_output_channels(&self) -> (r: usize)
        requires
            self.wf(),
        ensures
            r == self@[9],
            r >= 1,
    {
        self.data[9] as usize
    }

    /// The sample rate of the original source, where the header gives one.
    pub fn input_sample_rate(&self) -> (r: Option<usize>)
        requires
            self.wf(),
        ensures
            le_u32(self@, 12) == 0 ==> r is None,
            le_u32(self@, 12) != 0 ==> r == Some(le_u32(self@, 12) as usize),
    {
        let value = read_u32_le(self.data.as_slice(), 12);
        if value == 0 {
            None
        } else {
            Some(value as usize)
        }
    }

    /// The sample rate that audio is decoded at (always 48 kHz).
    pub fn output_sample_rate(&self) -> (r: usize)
        ensures
            r == OPUS_DECODE_SAMPLE_RATE,
    {
        OPUS_DECODE_SAMPLE_RATE
    }

    /// The current output gain set in the header
    pub fn get_output_gain(&self) -> (r: FixedPointGain)
        requires
            self.wf(),
        ensures
            r.raw() == le_i16(self@, 16),
    {
        FixedPointGain::from_fixed_point(read_i16_le(self.data.as_slice(), 16))
    }

    /// Sets the header's output gain. No other byte changes.
    pub fn set_output_gain(&mut self, gain: FixedPointGain)
        requires
            old(self).wf(),
        ensures
            final(self).wf(),
            final(self)@.len() == old(self)@.len(),
            le_i16(final(self)@, 16) == gain.raw(),
            final(self)@ == with_gain(old(self)@, gain.raw()),
            forall|i: int| 0 <= i < old(self)@.len() && i != 16 && i != 17 ==> #[trigger] final(self)@[i] == old(self)@[i],
    {
        let v: i16 = gain.as_fixed_point();
        let u: u16 = if v < 0 {
            (v as i32 + 65536) as u16
        } else {
            v as u16
        };
        let lo: u8 = (u % 256) as u8;
        let hi: u8 = (u / 256) as u8;
        self.data.set(16, lo);
        self.data.set(17, hi);
        proof {
            assert(self@[16] == lo && self@[17] == hi);
            assert(self@.take(8) =~= old(self)@.take(8));
            assert(self@[8] == old(self)@[8]);
            assert(self@[9] == old(self)@[9]);
            assert(self@ =~= with_gain(old(self)@, gain.raw()));
        }
    }

    /// Applies a delta to the header's output gain, or returns
    /// `GainOutOfBounds` where the sum does not fit.
    pub fn adjust_output_gain(&mut self, adjustment: FixedPointGain) -> (r: Result<(), Error>)
        requires
            old(self).wf(),
        ensures
            final(self).wf(),
            r is Ok <==> fits_i16(le_i16(old(self)@, 16) + adjustment.raw()),
            r is Ok ==> le_i16(final(self)@, 16) == le_i16(old(self)@, 16) + adjustment.raw(),
            r is Ok ==> final(self)@ == with_gain(old(self)@, le_i16(old(self)@, 16) + adjustment.raw()),
            r is Ok ==> forall|i: int| 0 <= i < old(self)@.len() && i != 16 && i != 17 ==> #[trigger] final(self)@[i] == old(self)@[i],
            r is Ok ==> final(self)@.len() == old(self)@.len(),
            r is Err ==> final(self)@ == old(self)@ && r->Err_0 == Error::GainOutOfBounds,
    {
        let gain = self.get_output_gain();
        match gain.checked_add(adjustment) {
            Some(g) => {
                self.set_output_gain(g);
                Ok(())
            },
            None => Err(Error::GainOutOfBounds),
        }
    }
}

/// Opus-specific comment header logic: the experimental data that may follow
/// the comments.
#[derive(Debug)]
pub struct Specifics {
    suffix_data: Vec<u8>,
}

impl CommentHeaderSpecifics for Specifics {
    open spec fn magic() -> Seq<u8> {
        comment_magic()
    }

    open spec fn accepts_suffix(rest: Seq<u8>) -> bool {
        true
    }

    open spec fn kept_suffix(rest: Seq<u8>) -> Seq<u8> {
        opus_kept_suffix(rest)
    }

    open spec fn default_suffix() -> Seq<u8> {
        Seq::empty()
    }

    closed spec fn suffix_bytes(&self) -> Seq<u8> {
        self.suffix_data@
    }

    fn get_magic() -> (r: Vec<u8>) {
        let r: Vec<u8> = vec![0x4fu8, 0x70, 0x75, 0x73, 0x54, 0x61, 0x67, 0x73];
        proof {
            assert(r@ =~= comment_magic());
        }
        r
    }

    fn fresh() -> (r: Specifics) {
        Specifics { suffix_data: Vec::new() }
    }

    fn read_suffix(rest: &[u8]) -> (r: Result<Specifics, Error>) {
        let mut suffix_data: Vec<u8> = Vec::new();
        if rest.len() > 0 && rest[0] % 2 == 1 {
            crate::bytes::push_bytes(&mut suffix_data, rest);
        }
        proof {
            assert(suffix_data@ =~= opus_kept_suffix(rest@));
        }
        Ok(Specifics { suffix_data })
    }

    fn write_suffix(&self, out: &mut Vec<u8>) {
        crate::bytes::push_bytes(out, self.suffix_data.as_slice());
    }

    fn duplicate(&self) -> (r: Specifics) {
        let mut suffix_data: Vec<u8> = Vec::new();
        crate::bytes::push_bytes(&mut suffix_data, self.suffix_data.as_slice());
        proof {
            assert(suffix_data@ =~= self.suffix_data@);
        }
        Specifics { suffix_data }
    }

    fn same_as(&self, other: &Specifics) -> (r: bool) {
        crate::bytes::bytes_equal(self.suffix_data.as_slice(), other.suffix_data.as_slice())
    }
}

/// The bytes after the last comment of an Opus comment header are kept, all
/// of them, exactly when the first of them has its least significant bit
/// set; otherwise they are dropped as padding.
pub proof fn lemma_opus_suffix_discrimination(b: Seq<u8>)
    requires
        parse_header_body(b, comment_magic()) is Some,
    ensures
        ({
            let rest = b.skip(parse_header_body(b, comment_magic())->Some_0.2);
            &&& parsed_header::<Specifics>(b) is Some
            &&& rest.len() > 0 && rest[0] % 2 == 1 ==> parsed_header::<Specifics>(b)->Some_0.2 == rest
            &&& !(rest.len() > 0 && rest[0] % 2 == 1) ==> parsed_header::<Specifics>(b)->Some_0.2.len() == 0
        }),
{
}

/// Manipulates an Ogg Opus comment header
pub type CommentHeader = CommentHeaderGeneric<Specifics>;

} // verus!
