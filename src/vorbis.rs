use vstd::prelude::*;

use crate::bytes::{bytes_equal, le_u32, push_bytes, read_u32_le};
use crate::codec::Codec;
use crate::comment_header::{CommentHeaderGeneric, CommentHeaderSpecifics};
use crate::error::Error;

verus! {

/// The smallest valid Vorbis identification header.
pub const VORBIS_MIN_HEADER_SIZE: usize = 30;

/// The framing byte written after the comments.
pub const FRAMING_BYTE: u8 = 1;

/// The magic signature of the Vorbis identification header, `\x01vorbis`.
pub open spec fn id_magic() -> Seq<u8> {
    seq![0x01u8, 0x76, 0x6f, 0x72, 0x62, 0x69, 0x73]
}

/// The magic signature of the Vorbis comment header, `\x03vorbis`.
pub open spec fn comment_magic() -> Seq<u8> {
    seq![0x03u8, 0x76, 0x6f, 0x72, 0x62, 0x69, 0x73]
}

/// What the parse of a Vorbis identification header gives: `Ok(false)` where
/// the bytes are not one, an error where they are one that is not supported
/// or malformed (no channels, a zero sample rate, or no framing bit).
pub open spec fn id_header_outcome(b: Seq<u8>) -> Result<bool, Error> {
    if b.len() < VORBIS_MIN_HEADER_SIZE || b.take(7) != id_magic() {
        Ok(false)
    } else if le_u32(b, 7) != 0 {
        Err(Error::UnsupportedCodecVersion(Codec::Vorbis, le_u32(b, 7) as u64))
    } else if b[11] == 0 || le_u32(b, 12) == 0 || b[29] % 2 == 0 {
        Err(Error::MalformedIdentificationHeader)
    } else {
        Ok(true)
    }
}

/// Allows querying of a Vorbis identification header
#[derive(Debug)]
pub struct IdHeader {
    data: Vec<u8>,
}

impl View for IdHeader {
    type V = Seq<u8>;

    closed spec fn view(&self) -> Seq<u8> {
        self.data@
    }
}

impl IdHeader {
    /// A parsed, supported Vorbis identification header.
    pub open spec fn wf(&self) -> bool {
        id_header_outcome(self@) == Ok::<bool, Error>(true)
    }

    /// Attempts to parse the supplied bytes as a Vorbis identification
    /// header. `Ok(None)` means they are not one.
    pub fn try_parse(data: &[u8]) -> (r: Result<Option<IdHeader>, Error>)
        ensures
            r is Ok ==> (r->Ok_0 is Some) == (id_header_outcome(data@) == Ok::<bool, Error>(true)),
            r is Ok ==> id_header_outcome(data@) is Ok,
            r is Ok && r->Ok_0 is Some ==> r->Ok_0->Some_0@ == data@ && r->Ok_0->Some_0.wf(),
            r is Err ==> id_header_outcome(data@) == Err::<bool, Error>(r->Err_0),
    {
        if data.len() < VORBIS_MIN_HEADER_SIZE {
            return Ok(None);
        }
        let mut i: usize = 0;
        let magic: Vec<u8> = vec![0x01u8, 0x76, 0x6f, 0x72, 0x62, 0x69, 0x73];
        proof {
            assert(magic@ =~= id_magic());
        }
        while i < 7
            invariant
                magic@ == id_magic(),
                data@.len() >= VORBIS_MIN_HEADER_SIZE,
                i <= 7,
                forall|j: int| 0 <= j < i ==> data@[j] == magic@[j],
            decreases 7 - i,
        {
            if data[i] != magic[i] {
                proof {
                    assert(data@.take(7)[i as int] != id_magic()[i as int]);
                }
                return Ok(None);
            }
            i = i + 1;
        }
        proof {
            assert(data@.take(7) =~= id_magic());
        }
        let version = read_u32_le(data, 7);
        if version != 0 {
            return Err(Error::UnsupportedCodecVersion(Codec::Vorbis, version as u64));
        }
        if data[11] == 0 || read_u32_le(data, 12) == 0 || data[29] % 2 == 0 {
            return Err(Error::MalformedIdentificationHeader);
        }
        let mut copy: Vec<u8> = Vec::new();
        push_bytes(&mut copy, data);
        proof {
            assert(copy@ =~= data@);
        }
        Ok(Some(IdHeader { data: copy }))
    }

    /// The Vorbis version
    pub fn version(&self) -> (r: u32)
        requires
            self.wf(),
        ensures
            r == le_u32(self@, 7),
    {
        read_u32_le(self.data.as_slice(), 7)
    }

    /// The number of output channels
    pub fn num_output_channels(&self) -> (r: usize)
        requires
            self.wf(),
        ensures
            r == self@[11],
            r >= 1,
    {
        self.data[11] as usize
    }

    /// The sample rate audio is decoded at.
    pub fn output_sample_rate(&self) -> (r: usize)
        requires
            self.wf(),
        ensures
            r == le_u32(self@, 12),
    {
        read_u32_le(self.data.as_slice(), 12) as usize
    }

    /// The sample rate of the source, which for Vorbis is the output rate.
    pub fn input_sample_rate(&self) -> (r: Option<usize>)
        requires
            self.wf(),
        ensures
            r == Some(le_u32(self@, 12) as usize),
    {
        Some(self.output_sample_rate())
    }

    /// Converts the header into its bytes.
    pub fn into_vec(self) -> (r: Vec<u8>)
        ensures
            r@ == self@,
    {
        self.data
    }

    /// Writes the serialized header.
    pub fn serialize_into(&self, out: &mut Vec<u8>)
        ensures
            final(out)@ == old(out)@ + self@,
    {
        push_bytes(out, self.data.as_slice());
    }

    /// A copy.
    pub fn duplicate(&self) -> (r: IdHeader)
        ensures
            r@ == self@,
    {
        let mut copy: Vec<u8> = Vec::new();
        push_bytes(&mut copy, self.data.as_slice());
        IdHeader { data: copy }
    }

    /// Do both headers hold the same bytes?
    pub fn same_as(&self, other: &IdHeader) -> (r: bool)
        ensures
            r == (self@ == other@),
    {
        bytes_equal(self.data.as_slice(), other.data.as_slice())
    }
}

/// Vorbis-specific comment header logic: the framing byte after the comments.
#[derive(Debug)]
pub struct Specifics {}

impl CommentHeaderSpecifics for Specifics {
    open spec fn magic() -> Seq<u8> {
        comment_magic()
    }

    open spec fn accepts_suffix(rest: Seq<u8>) -> bool {
        rest.len() >= 1 && rest[0] % 2 == 1
    }

    open spec fn kept_suffix(rest: Seq<u8>) -> Seq<u8> {
        seq![FRAMING_BYTE]
    }

    open spec fn default_suffix() -> Seq<u8> {
        seq![FRAMING_BYTE]
    }

    open spec fn suffix_bytes(&self) -> Seq<u8> {
        seq![FRAMING_BYTE]
    }

    fn get_magic() -> (r: Vec<u8>) {
        let r: Vec<u8> = vec![0x03u8, 0x76, 0x6f, 0x72, 0x62, 0x69, 0x73];
        proof {
            assert(r@ =~= comment_magic());
        }
        r
    }

    fn fresh() -> (r: Specifics) {
        Specifics {  }
    }

    fn read_suffix(rest: &[u8]) -> (r: Result<Specifics, Error>) {
        if rest.len() < 1 || rest[0] % 2 == 0 {
            Err(Error::MalformedCommentHeader)
        } else {
            Ok(Specifics {  })
        }
    }

    fn write_suffix(&self, out: &mut Vec<u8>) {
        out.push(FRAMING_BYTE);
    }

    fn duplicate(&self) -> (r: Specifics) {
        Specifics {  }
    }

    fn same_as(&self, other: &Specifics) -> (r: bool) {
        true
    }
}

/// Manipulates an Ogg Vorbis comment header
pub type CommentHeader = CommentHeaderGeneric<Specifics>;

} // verus!
