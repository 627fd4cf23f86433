use vstd::prelude::*;

use crate::codec::Codec;
use crate::comment_header::{header_bytes, parsed_header, representable};
use crate::comment_list::CommentView;
use crate::error::Error;
use crate::opus;
use crate::vorbis;

verus! {

/// A model of the parsed headers of a stream: codec, identification header
/// bytes, vendor, comments and the bytes written after the comments.
pub type HeadersView = (Codec, Seq<u8>, Seq<char>, Seq<CommentView>, Seq<u8>);

/// The magic signature of a codec's comment header.
pub open spec fn comment_magic_of(codec: Codec) -> Seq<u8> {
    match codec {
        Codec::Opus => opus::comment_magic(),
        Codec::Vorbis => vorbis::comment_magic(),
    }
}

/// The serialized comment header of `h`.
pub open spec fn comment_packet_bytes(h: HeadersView) -> Seq<u8> {
    header_bytes(comment_magic_of(h.0), h.2, h.3, h.4)
}

/// Can the comment header of `h` be serialized?
pub open spec fn headers_representable(h: HeadersView) -> bool {
    representable(h.2, h.3)
}

/// What parsing an identification and a comment packet gives: Opus is tried
/// first, then Vorbis, else `UnknownCodec`.
pub open spec fn codec_headers_outcome(id: Seq<u8>, comment: Seq<u8>) -> Result<HeadersView, Error> {
    match opus::id_header_outcome(id) {
        Err(e) => Err(e),
        Ok(true) => match parsed_header::<opus::Specifics>(comment) {
            None => Err(Error::MalformedCommentHeader),
            Some(c) => Ok((Codec::Opus, id, c.0, c.1, c.2)),
        },
        Ok(false) => match vorbis::id_header_outcome(id) {
            Err(e) => Err(e),
            Ok(true) => match parsed_header::<vorbis::Specifics>(comment) {
                None => Err(Error::MalformedCommentHeader),
                Some(c) => Ok((Codec::Vorbis, id, c.0, c.1, c.2)),
            },
            Ok(false) => Err(Error::UnknownCodec),
        },
    }
}

/// Enumeration of ID and comment headers for all supported codecs
#[derive(Debug)]
pub enum CodecHeaders {
    /// Ogg Opus headers
    Opus(opus::IdHeader, opus::CommentHeader),
    /// Ogg Vorbis headers
    Vorbis(vorbis::IdHeader, vorbis::CommentHeader),
}

impl View for CodecHeaders {
    type V = HeadersView;

    open spec fn view(&self) -> HeadersView {
        match self {
            CodecHeaders::Opus(i, c) => (Codec::Opus, i@, c.vendor_view(), c.comments_view(), c.suffix_view()),
            CodecHeaders::Vorbis(i, c) => (Codec::Vorbis, i@, c.vendor_view(), c.comments_view(), c.suffix_view()),
        }
    }
}

impl CodecHeaders {
    /// Both headers are parsed and supported.
    pub open spec fn wf(&self) -> bool {
        match self {
            CodecHeaders::Opus(i, c) => i.wf() && c.wf(),
            CodecHeaders::Vorbis(i, c) => i.wf() && c.wf(),
        }
    }

    /// Which codec are the headers for
    pub fn codec(&self) -> (r: Codec)
        ensures
            r == self@.0,
    {
        match self {
            CodecHeaders::Opus(_, _) => Codec::Opus,
            CodecHeaders::Vorbis(_, _) => Codec::Vorbis,
        }
    }

    /// Parses an identification and a comment packet, trying Opus first and
    /// then Vorbis.
    pub fn parse(identification: &[u8], comment: &[u8]) -> (r: Result<CodecHeaders, Error>)
        ensures
            r is Ok <==> codec_headers_outcome(identification@, comment@) is Ok,
            r is Ok ==> r->Ok_0@ == codec_headers_outcome(identification@, comment@)->Ok_0 && r->Ok_0.wf(),
            r is Err ==> r->Err_0 == codec_headers_outcome(identification@, comment@)->Err_0,
    {
        if let Some(id) = opus::IdHeader::try_parse(identification)? {
            let comment_header = match opus::CommentHeader::try_parse(comment) {
                Ok(c) => c,
                Err(e) => {
                    return Err(e);
                },
            };
            return Ok(CodecHeaders::Opus(id, comment_header));
        }
        if let Some(id) = vorbis::IdHeader::try_parse(identification)? {
            let comment_header = match vorbis::CommentHeader::try_parse(comment) {
                Ok(c) => c,
                Err(e) => {
                    return Err(e);
                },
            };
            return Ok(CodecHeaders::Vorbis(id, comment_header));
        }
        Err(Error::UnknownCodec)
    }

    /// Serializes the identification header
    pub fn serialize_id_header(&self, out: &mut Vec<u8>)
        ensures
            final(out)@ == old(out)@ + self@.1,
    {
        match self {
            CodecHeaders::Opus(i, _) => i.serialize_into(out),
            CodecHeaders::Vorbis(i, _) => i.serialize_into(out),
        }
    }

    /// Serializes the comment header
    pub fn serialize_comment_header(&self, out: &mut Vec<u8>) -> (r: Result<(), Error>)
        ensures
            r is Ok <==> headers_representable(self@),
            r is Ok ==> final(out)@ == old(out)@ + comment_packet_bytes(self@),
            r is Err ==> r->Err_0 == Error::UnrepresentableValueInCommentHeader,
    {
        match self {
            CodecHeaders::Opus(_, c) => c.serialize_into(out),
            CodecHeaders::Vorbis(_, c) => c.serialize_into(out),
        }
    }

    /// A copy.
    pub fn duplicate(&self) -> (r: CodecHeaders)
        ensures
            r@ == self@,
            r.wf() == self.wf(),
    {
        match self {
            CodecHeaders::Opus(i, c) => CodecHeaders::Opus(i.duplicate(), c.duplicate()),
            CodecHeaders::Vorbis(i, c) => CodecHeaders::Vorbis(i.duplicate(), c.duplicate()),
        }
    }

    /// Do both hold the same headers?
    pub fn same_as(&self, other: &CodecHeaders) -> (r: bool)
        ensures
            r == (self@ == other@),
    {
        match (self, other) {
            (CodecHeaders::Opus(i1, c1), CodecHeaders::Opus(i2, c2)) => i1.same_as(i2) && c1.same_as(c2),
            (CodecHeaders::Vorbis(i1, c1), CodecHeaders::Vorbis(i2, c2)) => i1.same_as(i2) && c1.same_as(c2),
            _ => false,
        }
    }
}

/// Rewrites the parsed headers of a stream.
pub trait HeaderRewrite {
    /// The rewrite is configured consistently.
    spec fn ready(&self) -> bool;

    /// What the rewrite makes of headers `before`, or the error it gives.
    spec fn rewrite_spec(&self, before: HeadersView) -> Result<HeadersView, Error>;

    /// Rewrites the headers in place.
    fn rewrite(&self, headers: &mut CodecHeaders) -> (r: Result<(), Error>)
        requires
            self.ready(),
            old(headers).wf(),
        ensures
            final(headers).wf(),
            r is Ok <==> self.rewrite_spec(old(headers)@) is Ok,
            r is Ok ==> final(headers)@ == self.rewrite_spec(old(headers)@)->Ok_0,
            r is Err ==> r->Err_0 == self.rewrite_spec(old(headers)@)->Err_0,
    ;
}

/// Summarizes the parsed headers of a stream, for reporting.
pub trait HeaderSummarize {
    /// The summary type.
    type Summary;

    /// Does `s` summarize headers `h`?
    spec fn summarizes(&self, h: HeadersView, s: Self::Summary) -> bool;

    /// The error that summarizing `h` gives, if any.
    spec fn summary_error(&self, h: HeadersView) -> Option<Error>;

    /// Summarizes the headers.
    fn summarize(&self, headers: &CodecHeaders) -> (r: Result<Self::Summary, Error>)
        requires
            headers.wf(),
        ensures
            r is Err <==> self.summary_error(headers@) is Some,
            r is Err ==> r->Err_0 == self.summary_error(headers@)->Some_0,
            r is Ok ==> self.summarizes(headers@, r->Ok_0),
    ;
}

/// The result of submitting a packet to a `HeaderRewriter`
#[derive(Debug)]
pub enum SubmitResult<S> {
    /// Packet was accepted
    Good,
    /// The headers were rewritten and nothing changed; a summary of them.
    HeadersUnchanged(S),
    /// The headers changed; summaries before and after the rewrite.
    HeadersChanged { from: S, to: S },
}

/// An Ogg packet as the rewrite sees it.
#[derive(Debug)]
pub struct Packet {
    /// The packet's bytes
    pub data: Vec<u8>,
    /// The serial of its logical stream
    pub serial: u32,
    /// The absolute granule position of its page
    pub granule: u64,
    /// Is it the last packet of its page?
    pub last_in_page: bool,
    /// Is it the last packet of its logical stream?
    pub last_in_stream: bool,
}

/// A packet with other bytes and the same stream, position and flags.
pub open spec fn same_but_data(p: Packet, q: Packet) -> bool {
    p.serial == q.serial && p.granule == q.granule && p.last_in_page == q.last_in_page
        && p.last_in_stream == q.last_in_stream
}

/// The outcome of a whole-stream rewrite as its packets go through: the
/// last report of changed or unchanged headers, and whether to stop reading.
#[derive(Debug)]
pub struct RewriteProgress<S> {
    result: SubmitResult<S>,
    abort_on_unchanged: bool,
}

impl<S> RewriteProgress<S> {
    /// The report so far.
    pub closed spec fn report(&self) -> SubmitResult<S> {
        self.result
    }

    /// Does an unchanged report end the stream?
    pub closed spec fn stops_on_unchanged(&self) -> bool {
        self.abort_on_unchanged
    }

    /// Nothing reported yet.
    pub fn new(abort_on_unchanged: bool) -> (r: Self)
        ensures
            r.report() is Good,
            r.stops_on_unchanged() == abort_on_unchanged,
    {
        RewriteProgress { result: SubmitResult::Good, abort_on_unchanged }
    }

    /// Records the result of one submitted packet; returns whether reading
    /// should stop (unchanged headers, where that ends the stream).
    pub fn record(&mut self, r: SubmitResult<S>) -> (stop: bool)
        ensures
            final(self).stops_on_unchanged() == old(self).stops_on_unchanged(),
            r is Good ==> final(self).report() == old(self).report() && !stop,
            !(r is Good) ==> final(self).report() == r,
            stop == (r is HeadersUnchanged && old(self).stops_on_unchanged()),
    {
        match r {
            SubmitResult::Good => false,
            SubmitResult::HeadersChanged { from, to } => {
                self.result = SubmitResult::HeadersChanged { from, to };
                false
            },
            SubmitResult::HeadersUnchanged(s) => {
                self.result = SubmitResult::HeadersUnchanged(s);
                self.abort_on_unchanged
            },
        }
    }

    /// The final report.
    pub fn finish(self) -> (r: SubmitResult<S>)
        ensures
            r == self.report(),
    {
        self.result
    }
}

/// Where the rewriter stands in the stream.
#[derive(Debug, Clone, Copy, PartialEq, Eq, Structural)]
pub enum State {
    /// Waiting for the identification header packet
    AwaitingHeader,
    /// Waiting for the comment header packet of this logical stream
    AwaitingComments { serial: u32 },
    /// Headers done: packets pass through unchanged
    Forwarding,
}

/// Rewrites the headers of an Ogg stream, packet by packet. Each call of
/// `submit` hands back the packets to write, in order.
pub struct HeaderRewriter<HR, HS> {
    header_packet: Option<Packet>,
    state: State,
    header_rewrite: HR,
    header_summarize: HS,
}

impl<HR: HeaderRewrite, HS: HeaderSummarize> HeaderRewriter<HR, HS> {
    /// The current state.
    pub closed spec fn state(&self) -> State {
        self.state
    }

    /// The identification packet held back while waiting for comments.
    pub closed spec fn pending(&self) -> Option<Packet> {
        self.header_packet
    }

    /// The rewrite in use.
    pub closed spec fn rewriter(&self) -> HR {
        self.header_rewrite
    }

    /// The summarizer in use.
    pub closed spec fn summarizer(&self) -> HS {
        self.header_summarize
    }

    /// Internal consistency: a packet is held exactly while comments are
    /// awaited, and it belongs to the awaited stream.
    pub closed spec fn wf(&self) -> bool {
        &&& self.header_rewrite.ready()
        &&& match self.state {
            State::AwaitingComments { serial } => self.header_packet is Some && self.header_packet->Some_0.serial
                == serial,
            _ => self.header_packet is None,
        }
    }

    /// Constructs a new rewriter
    pub fn new(rewrite: HR, summarize: HS) -> (r: Self)
        requires
            rewrite.ready(),
        ensures
            r.wf(),
            r.state() == State::AwaitingHeader,
            r.rewriter() == rewrite,
            r.summarizer() == summarize,
    {
        HeaderRewriter { header_packet: None, state: State::AwaitingHeader, header_rewrite: rewrite, header_summarize: summarize }
    }

    /// Submits the next packet of the stream and returns the packets to write
    /// now. The first packet is held back; the first packet of the same
    /// logical stream after it is the comment header: both are parsed,
    /// summarized, rewritten, summarized again and serialized, and both are
    /// handed back with a report of whether the headers changed. Any other
    /// packet is handed back unchanged.
    pub fn submit(&mut self, packet: Packet) -> (r: Result<(SubmitResult<HS::Summary>, Vec<Packet>), Error>)
        requires
            old(self).wf(),
        ensures
            final(self).wf(),
            final(self).rewriter() == old(self).rewriter(),
            final(self).summarizer() == old(self).summarizer(),
            old(self).state() == State::AwaitingHeader ==> r is Ok && r->Ok_0.0 is Good && r->Ok_0.1@.len() == 0
                && final(self).state() == (State::AwaitingComments { serial: packet.serial })
                && final(self).pending() == Some(packet),
            (old(self).state() == State::Forwarding || (old(self).state() is AwaitingComments
                && old(self).state()->serial != packet.serial)) ==> r is Ok && r->Ok_0.0 is Good
                && r->Ok_0.1@ == seq![packet] && final(self).state() == old(self).state()
                && final(self).pending() == old(self).pending(),
            old(self).state() is AwaitingComments && old(self).state()->serial == packet.serial ==> ({
                let id = old(self).pending()->Some_0;
                let before = codec_headers_outcome(id.data@, packet.data@);
                let rw = old(self).rewriter();
                let hs = old(self).summarizer();
                &&& r is Ok ==> {
                    &&& before is Ok
                    &&& hs.summary_error(before->Ok_0) is None
                    &&& rw.rewrite_spec(before->Ok_0) is Ok
                    &&& hs.summary_error(rw.rewrite_spec(before->Ok_0)->Ok_0) is None
                    &&& headers_representable(rw.rewrite_spec(before->Ok_0)->Ok_0)
                    &&& final(self).state() == State::Forwarding
                    &&& r->Ok_0.1@.len() == 2
                    &&& same_but_data(r->Ok_0.1@[0], id)
                    &&& r->Ok_0.1@[0].data@ == rw.rewrite_spec(before->Ok_0)->Ok_0.1
                    &&& same_but_data(r->Ok_0.1@[1], packet)
                    &&& r->Ok_0.1@[1].data@ == comment_packet_bytes(rw.rewrite_spec(before->Ok_0)->Ok_0)
                    &&& r->Ok_0.0 is Good ==> false
                    &&& r->Ok_0.0 is HeadersUnchanged ==> rw.rewrite_spec(before->Ok_0)->Ok_0 == before->Ok_0
                        && hs.summarizes(before->Ok_0, r->Ok_0.0->HeadersUnchanged_0)
                    &&& r->Ok_0.0 is HeadersChanged ==> rw.rewrite_spec(before->Ok_0)->Ok_0 != before->Ok_0
                        && hs.summarizes(before->Ok_0, r->Ok_0.0->from)
                        && hs.summarizes(rw.rewrite_spec(before->Ok_0)->Ok_0, r->Ok_0.0->to)
                }
                &&& r is Err ==> {
                    ||| before is Err && r->Err_0 == before->Err_0
                    ||| before is Ok && hs.summary_error(before->Ok_0) is Some
                    ||| before is Ok && rw.rewrite_spec(before->Ok_0) is Err
                    ||| before is Ok && rw.rewrite_spec(before->Ok_0) is Ok && (hs.summary_error(rw.rewrite_spec(before->Ok_0)->Ok_0) is Some
                        || !headers_representable(rw.rewrite_spec(before->Ok_0)->Ok_0))
                }
                &&& (before is Ok && hs.summary_error(before->Ok_0) is None && rw.rewrite_spec(before->Ok_0) is Ok
                    && hs.summary_error(rw.rewrite_spec(before->Ok_0)->Ok_0) is None
                    && headers_representable(rw.rewrite_spec(before->Ok_0)->Ok_0)) ==> r is Ok
            }),
    {
        match self.state {
            State::AwaitingHeader => {
                let serial = packet.serial;
                self.header_packet = Some(packet);
                self.state = State::AwaitingComments { serial };
                Ok((SubmitResult::Good, Vec::new()))
            },
            State::AwaitingComments { serial } => {
                if serial != packet.serial {
                    let mut out: Vec<Packet> = Vec::new();
                    out.push(packet);
                    proof {
                        assert(out@ =~= seq![packet]);
                    }
                    return Ok((SubmitResult::Good, out));
                }
                let id_packet = match self.header_packet.take() {
                    Some(p) => p,
                    None => {
                        return Err(Error::MalformedIdentificationHeader);
                    },
                };
                let ghost id_ghost = id_packet;
                let original = match CodecHeaders::parse(id_packet.data.as_slice(), packet.data.as_slice()) {
                    Ok(h) => h,
                    Err(e) => {
                        self.header_packet = Some(id_packet);
                        return Err(e);
                    },
                };
                let mut headers = original.duplicate();
                let summary_before = match self.header_summarize.summarize(&headers) {
                    Ok(s) => s,
                    Err(e) => {
                        self.header_packet = Some(id_packet);
                        return Err(e);
                    },
                };
                match self.header_rewrite.rewrite(&mut headers) {
                    Ok(()) => {},
                    Err(e) => {
                        self.header_packet = Some(id_packet);
                        return Err(e);
                    },
                }
                let summary_after = match self.header_summarize.summarize(&headers) {
                    Ok(s) => s,
                    Err(e) => {
                        self.header_packet = Some(id_packet);
                        return Err(e);
                    },
                };
                let changed = !headers.same_as(&original);
                let mut id_data: Vec<u8> = Vec::new();
                headers.serialize_id_header(&mut id_data);
                let mut comment_data: Vec<u8> = Vec::new();
                match headers.serialize_comment_header(&mut comment_data) {
                    Ok(()) => {},
                    Err(e) => {
                        self.header_packet = Some(id_packet);
                        return Err(e);
                    },
                }
                proof {
                    assert(id_data@ =~= headers@.1);
                    assert(comment_data@ =~= comment_packet_bytes(headers@));
                }
                let id_out = Packet {
                    data: id_data,
                    serial: id_packet.serial,
                    granule: id_packet.granule,
                    last_in_page: id_packet.last_in_page,
                    last_in_stream: id_packet.last_in_stream,
                };
                let comment_out = Packet {
                    data: comment_data,
                    serial: packet.serial,
                    granule: packet.granule,
                    last_in_page: packet.last_in_page,
                    last_in_stream: packet.last_in_stream,
                };
                let mut out: Vec<Packet> = Vec::new();
                out.push(id_out);
                out.push(comment_out);
                self.state = State::Forwarding;
                let result = if changed {
                    SubmitResult::HeadersChanged { from: summary_before, to: summary_after }
                } else {
                    SubmitResult::HeadersUnchanged(summary_before)
                };
                Ok((result, out))
            },
            State::Forwarding => {
                let mut out: Vec<Packet> = Vec::new();
                out.push(packet);
                proof {
                    assert(out@ =~= seq![packet]);
                }
                Ok((SubmitResult::Good, out))
            },
        }
    }
}

} // verus!
