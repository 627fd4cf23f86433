use vstd::prelude::*;
use vstd::slice::slice_subrange;
use vstd::utf8::{
    decode_utf8, decode_utf8_encode_utf8, encode_utf8, encode_utf8_decode_utf8, encode_utf8_valid_utf8,
    is_ascii_chars, is_ascii_chars_encode_utf8, valid_utf8,
};

use crate::bytes::{lemma_le_u32_bytes_round_trip, lemma_u32_le_round_trip, le_u32, push_bytes, push_u32_le, read_u32_le, u32_le_bytes, utf8_to_string};
use crate::comment_list::{validate_comment_field_name, valid_field_name, CommentView, DiscreteCommentList, FIELD_NAME_TERMINATOR};
use crate::error::Error;

verus! {

/// Is `p` the position of the first `=` byte in `c`?
pub open spec fn is_byte_separator(c: Seq<u8>, p: int) -> bool {
    0 <= p < c.len() && c[p] == FIELD_NAME_TERMINATOR && forall|j: int|
        0 <= j < p ==> c[j] != FIELD_NAME_TERMINATOR
}

/// The mapping that the bytes of one comment record encode, if they are well
/// formed: valid UTF-8 on both sides of the first `=`, and a valid field name.
#[verifier::opaque]
pub open spec fn comment_from_bytes(c: Seq<u8>) -> Option<CommentView> {
    if exists|p: int| is_byte_separator(c, p) {
        let p = choose|p: int| is_byte_separator(c, p);
        let kb = c.take(p);
        let vb = c.skip(p + 1);
        if valid_utf8(kb) && valid_utf8(vb) && valid_field_name(decode_utf8(kb)) {
            Some((decode_utf8(kb), decode_utf8(vb)))
        } else {
            None
        }
    } else {
        None
    }
}

/// Puts `acc` in front of the comments of a successful parse.
pub open spec fn glue(acc: Seq<CommentView>, r: Option<(Seq<CommentView>, int)>) -> Option<
    (Seq<CommentView>, int),
> {
    match r {
        Some(t) => Some((acc + t.0, t.1)),
        None => None,
    }
}

/// Parses `count` length-prefixed comment records starting at `pos`: the
/// comments and the position after the last one.
pub open spec fn parse_records(b: Seq<u8>, pos: int, count: nat) -> Option<(Seq<CommentView>, int)>
    decreases count,
{
    if count == 0 {
        Some((Seq::empty(), pos))
    } else if pos + 4 > b.len() {
        None
    } else {
        let end = pos + 4 + le_u32(b, pos);
        if end > b.len() {
            None
        } else {
            match comment_from_bytes(b.subrange(pos + 4, end)) {
                None => None,
                Some(e) => glue(seq![e], parse_records(b, end, (count - 1) as nat)),
            }
        }
    }
}

/// The parts of a comment header up to its codec-specific suffix: vendor,
/// comments, and the position where the suffix starts.
pub open spec fn parse_header_body(b: Seq<u8>, magic: Seq<u8>) -> Option<
    (Seq<char>, Seq<CommentView>, int),
> {
    let m = magic.len() as int;
    if b.len() < m || b.take(m) != magic || m + 4 > b.len() {
        None
    } else {
        let ve = m + 4 + le_u32(b, m);
        if ve + 4 > b.len() || !valid_utf8(b.subrange(m + 4, ve)) {
            None
        } else {
            match parse_records(b, ve + 4, le_u32(b, ve) as nat) {
                None => None,
                Some(r) => Some((decode_utf8(b.subrange(m + 4, ve)), r.0, r.1)),
            }
        }
    }
}

/// The bytes of one comment record, without its length.
pub open spec fn comment_bytes(e: CommentView) -> Seq<u8> {
    encode_utf8(e.0) + seq![FIELD_NAME_TERMINATOR] + encode_utf8(e.1)
}

/// The length-prefixed records of a comment list.
pub open spec fn records_bytes(s: Seq<CommentView>) -> Seq<u8>
    decreases s.len(),
{
    if s.len() == 0 {
        Seq::empty()
    } else {
        u32_le_bytes(comment_bytes(s[0]).len() as int) + comment_bytes(s[0]) + records_bytes(s.drop_first())
    }
}

/// The serialized comment header.
pub open spec fn header_bytes(magic: Seq<u8>, vendor: Seq<char>, comments: Seq<CommentView>, suffix: Seq<u8>) -> Seq<u8> {
    magic + u32_le_bytes(encode_utf8(vendor).len() as int) + encode_utf8(vendor) + u32_le_bytes(
        comments.len() as int,
    ) + records_bytes(comments) + suffix
}

/// Can the header's lengths and count be written as `u32`s?
pub open spec fn representable(vendor: Seq<char>, comments: Seq<CommentView>) -> bool {
    &&& encode_utf8(vendor).len() <= u32::MAX
    &&& comments.len() <= u32::MAX
    &&& forall|i: int| 0 <= i < comments.len() ==> #[trigger] comment_bytes(comments[i]).len() <= u32::MAX
}

/// Codec-specific parts of a comment header: its magic signature and the
/// bytes that follow the comments.
pub trait CommentHeaderSpecifics: Sized {
    /// The magic signature at the start of the header.
    spec fn magic() -> Seq<u8>;

    /// Are these bytes, following the comments, acceptable?
    spec fn accepts_suffix(rest: Seq<u8>) -> bool;

    /// What is written after the comments once `rest` has been read.
    spec fn kept_suffix(rest: Seq<u8>) -> Seq<u8>;

    /// What is written after the comments of a header built from scratch.
    spec fn default_suffix() -> Seq<u8>;

    /// What `write_suffix` writes.
    spec fn suffix_bytes(&self) -> Seq<u8>;

    /// Returns the magic signature.
    fn get_magic() -> (r: Vec<u8>)
        ensures
            r@ == Self::magic(),
    ;

    /// The suffix state of a header built from scratch.
    fn fresh() -> (r: Self)
        ensures
            r.suffix_bytes() == Self::default_suffix(),
    ;

    /// Reads the bytes that follow the comments.
    fn read_suffix(rest: &[u8]) -> (r: Result<Self, Error>)
        ensures
            r is Ok <==> Self::accepts_suffix(rest@),
            r is Ok ==> r->Ok_0.suffix_bytes() == Self::kept_suffix(rest@),
            r is Err ==> r->Err_0 == Error::MalformedCommentHeader,
    ;

    /// Writes the bytes that follow the comments.
    fn write_suffix(&self, out: &mut Vec<u8>)
        ensures
            final(out)@ == old(out)@ + self.suffix_bytes(),
    ;

    /// A copy.
    fn duplicate(&self) -> (r: Self)
        ensures
            r.suffix_bytes() == self.suffix_bytes(),
    ;

    /// Do both write the same suffix?
    fn same_as(&self, other: &Self) -> (r: bool)
        ensures
            r == (self.suffix_bytes() == other.suffix_bytes()),
    ;
}

proof fn lemma_glue_glue(a: Seq<CommentView>, b: Seq<CommentView>, r: Option<(Seq<CommentView>, int)>)
    ensures
        glue(a, glue(b, r)) == glue(a + b, r),
{
    match r {
        Some(t) => {
            assert(a + (b + t.0) =~= (a + b) + t.0);
        },
        None => {},
    }
}

/// Parses the bytes of one comment record (`KEY=VALUE`, UTF-8) into its field
/// name and value.
pub fn parse_comment_bytes(c: &[u8]) -> (r: Option<(String, String)>)
    ensures
        r is Some <==> comment_from_bytes(c@) is Some,
        r is Some ==> (r->Some_0.0@, r->Some_0.1@) == comment_from_bytes(c@)->Some_0,
{
    reveal(comment_from_bytes);
    let mut p: usize = 0;
    while p < c.len()
        invariant
            p <= c@.len(),
            forall|j: int| 0 <= j < p ==> c@[j] != FIELD_NAME_TERMINATOR,
        ensures
            p <= c@.len(),
            forall|j: int| 0 <= j < p ==> c@[j] != FIELD_NAME_TERMINATOR,
            p < c@.len() ==> c@[p as int] == FIELD_NAME_TERMINATOR,
        decreases c@.len() - p,
    {
        if c[p] == FIELD_NAME_TERMINATOR {
            break;
        }
        p = p + 1;
    }
    if p == c.len() {
        proof {
            if exists|q: int| is_byte_separator(c@, q) {
                let q = choose|q: int| is_byte_separator(c@, q);
                assert(c@[q] != FIELD_NAME_TERMINATOR);
            }
        }
        return None;
    }
    proof {
        assert(is_byte_separator(c@, p as int));
        let q = choose|q: int| is_byte_separator(c@, q);
        if q < p {
            assert(c@[q] != FIELD_NAME_TERMINATOR);
        }
        if q > p {
            assert(c@[p as int] != FIELD_NAME_TERMINATOR);
        }
        assert(q == p);
    }
    let kb = slice_subrange(c, 0, p);
    let vb = slice_subrange(c, p + 1, c.len());
    proof {
        assert(kb@ =~= c@.take(p as int));
        assert(vb@ =~= c@.skip(p + 1));
    }
    let key = match utf8_to_string(kb) {
        Some(k) => k,
        None => {
            return None;
        },
    };
    let value = match utf8_to_string(vb) {
        Some(v) => v,
        None => {
            return None;
        },
    };
    match validate_comment_field_name(key.as_str()) {
        Ok(()) => Some((key, value)),
        Err(_) => None,
    }
}

proof fn lemma_records_bytes_append(a: Seq<CommentView>, e: CommentView)
    ensures
        records_bytes(a.push(e)) == records_bytes(a) + u32_le_bytes(comment_bytes(e).len() as int)
            + comment_bytes(e),
    decreases a.len(),
{
    let one = u32_le_bytes(comment_bytes(e).len() as int) + comment_bytes(e);
    if a.len() == 0 {
        assert(a.push(e).drop_first() =~= Seq::<CommentView>::empty());
        assert(a.push(e)[0] == e);
        assert(records_bytes(Seq::<CommentView>::empty()) =~= Seq::<u8>::empty());
        assert(records_bytes(a.push(e)) =~= one + Seq::<u8>::empty());
        assert(records_bytes(a) + one =~= one);
    } else {
        lemma_records_bytes_append(a.drop_first(), e);
        assert(a.push(e).drop_first() =~= a.drop_first().push(e));
        assert(a.push(e)[0] == a[0]);
        let head = u32_le_bytes(comment_bytes(a[0]).len() as int) + comment_bytes(a[0]);
        assert(records_bytes(a.push(e)) =~= head + records_bytes(a.drop_first().push(e)));
        assert(head + (records_bytes(a.drop_first()) + one) =~= (head + records_bytes(a.drop_first())) + one);
    }
}

proof fn lemma_comment_bytes_round_trip(c: Seq<u8>)
    requires
        comment_from_bytes(c) is Some,
    ensures
        comment_bytes(comment_from_bytes(c)->Some_0) == c,
{
    reveal(comment_from_bytes);
    let p = choose|p: int| is_byte_separator(c, p);
    let kb = c.take(p);
    let vb = c.skip(p + 1);
    decode_utf8_encode_utf8(kb);
    decode_utf8_encode_utf8(vb);
    assert(kb + seq![FIELD_NAME_TERMINATOR] + vb =~= c);
}

proof fn lemma_records_round_trip(b: Seq<u8>, pos: int, count: nat)
    requires
        0 <= pos <= b.len(),
        parse_records(b, pos, count) is Some,
    ensures
        pos <= parse_records(b, pos, count)->Some_0.1 <= b.len(),
        parse_records(b, pos, count)->Some_0.0.len() == count,
        records_bytes(parse_records(b, pos, count)->Some_0.0) == b.subrange(pos, parse_records(b, pos, count)->Some_0.1),
        forall|i: int| 0 <= i < count ==> #[trigger] comment_bytes(parse_records(b, pos, count)->Some_0.0[i]).len() <= u32::MAX,
    decreases count,
{
    let r = parse_records(b, pos, count)->Some_0;
    if count == 0 {
        assert(b.subrange(pos, pos) =~= Seq::<u8>::empty());
        assert(r.0 =~= Seq::<CommentView>::empty());
    } else {
        let len = le_u32(b, pos);
        let end = pos + 4 + len;
        let c = b.subrange(pos + 4, end);
        assert(pos + 4 <= b.len() && end <= b.len());
        let e = comment_from_bytes(c)->Some_0;
        assert(parse_records(b, end, (count - 1) as nat) is Some);
        lemma_records_round_trip(b, end, (count - 1) as nat);
        let t = parse_records(b, end, (count - 1) as nat)->Some_0;
        assert(r.0 == seq![e] + t.0);
        assert(r.0[0] == e);
        assert(r.0.drop_first() =~= t.0);
        lemma_comment_bytes_round_trip(c);
        lemma_le_u32_bytes_round_trip(b, pos);
        assert(comment_bytes(e).len() == len);
        assert(b.subrange(pos, t.1) =~= b.subrange(pos, pos + 4) + c + b.subrange(end, t.1));
        assert forall|i: int| 0 <= i < count implies #[trigger] comment_bytes(r.0[i]).len() <= u32::MAX by {
            if i > 0 {
                assert(r.0[i] == t.0[i - 1]);
            }
        }
    }
}

/// Parsing a comment header and serializing it again gives the same bytes,
/// wherever the codec keeps the suffix as it was read (an Opus suffix that
/// is empty or starts with an odd byte; a Vorbis suffix that is the single
/// framing byte 1). Such a header is always representable.
pub proof fn lemma_comment_header_round_trip<S: CommentHeaderSpecifics>(b: Seq<u8>)
    requires
        parse_header_body(b, S::magic()) is Some,
        S::accepts_suffix(b.skip(parse_header_body(b, S::magic())->Some_0.2)),
        S::kept_suffix(b.skip(parse_header_body(b, S::magic())->Some_0.2)) == b.skip(
            parse_header_body(b, S::magic())->Some_0.2,
        ),
    ensures
        parsed_header::<S>(b) is Some,
        representable(parsed_header::<S>(b)->Some_0.0, parsed_header::<S>(b)->Some_0.1),
        header_bytes(
            S::magic(),
            parsed_header::<S>(b)->Some_0.0,
            parsed_header::<S>(b)->Some_0.1,
            parsed_header::<S>(b)->Some_0.2,
        ) == b,
{
    let magic = S::magic();
    let m = magic.len() as int;
    let ve = m + 4 + le_u32(b, m);
    let vb = b.subrange(m + 4, ve);
    let count = le_u32(b, ve);
    lemma_records_round_trip(b, ve + 4, count as nat);
    let r = parse_records(b, ve + 4, count as nat)->Some_0;
    decode_utf8_encode_utf8(vb);
    lemma_le_u32_bytes_round_trip(b, m);
    lemma_le_u32_bytes_round_trip(b, ve);
    assert(b =~= b.take(m) + b.subrange(m, m + 4) + vb + b.subrange(ve, ve + 4) + b.subrange(ve + 4, r.1)
        + b.skip(r.1));
}

proof fn lemma_key_bytes(k: Seq<char>)
    requires
        valid_field_name(k),
    ensures
        encode_utf8(k).len() == k.len(),
        forall|i: int| 0 <= i < k.len() ==> #[trigger] encode_utf8(k)[i] != FIELD_NAME_TERMINATOR,
{
    assert(is_ascii_chars(k)) by {
        assert forall|i: int| 0 <= i < k.len() implies '\0' <= #[trigger] k[i] <= '\u{7f}' by {
            assert(crate::comment_list::valid_key_char(k[i]));
        }
    }
    is_ascii_chars_encode_utf8(k);
    assert forall|i: int| 0 <= i < k.len() implies #[trigger] encode_utf8(k)[i] != FIELD_NAME_TERMINATOR by {
        assert(crate::comment_list::valid_key_char(k[i]));
        assert(k[i] as u8 == encode_utf8(k)[i]);
    }
}

proof fn lemma_comment_bytes_parse(e: CommentView)
    requires
        valid_field_name(e.0),
    ensures
        comment_from_bytes(comment_bytes(e)) == Some(e),
{
    reveal(comment_from_bytes);
    let c = comment_bytes(e);
    let kb = encode_utf8(e.0);
    let vb = encode_utf8(e.1);
    let p = kb.len() as int;
    lemma_key_bytes(e.0);
    assert(c[p] == FIELD_NAME_TERMINATOR);
    assert forall|j: int| 0 <= j < p implies c[j] != FIELD_NAME_TERMINATOR by {
        assert(c[j] == kb[j]);
    }
    assert(is_byte_separator(c, p));
    let q = choose|q: int| is_byte_separator(c, q);
    if q < p {
        assert(c[q] != FIELD_NAME_TERMINATOR);
    }
    if q > p {
        assert(c[p] != FIELD_NAME_TERMINATOR);
    }
    assert(c.take(p) =~= kb);
    assert(c.skip(p + 1) =~= vb);
    encode_utf8_valid_utf8(e.0);
    encode_utf8_valid_utf8(e.1);
    encode_utf8_decode_utf8(e.0);
    encode_utf8_decode_utf8(e.1);
}

proof fn lemma_records_parse(b: Seq<u8>, pos: int, cs: Seq<CommentView>)
    requires
        0 <= pos,
        pos + records_bytes(cs).len() <= b.len(),
        b.subrange(pos, pos + records_bytes(cs).len()) == records_bytes(cs),
        forall|i: int| 0 <= i < cs.len() ==> valid_field_name(#[trigger] cs[i].0),
        forall|i: int| 0 <= i < cs.len() ==> #[trigger] comment_bytes(cs[i]).len() <= u32::MAX,
    ensures
        parse_records(b, pos, cs.len() as nat) == Some((cs, pos + records_bytes(cs).len())),
    decreases cs.len(),
{
    let r = records_bytes(cs);
    if cs.len() == 0 {
        assert(cs =~= Seq::<CommentView>::empty());
        assert(r =~= Seq::<u8>::empty());
    } else {
        let e = cs[0];
        let c = comment_bytes(e);
        let n = c.len() as int;
        let rest = cs.drop_first();
        let rr = records_bytes(rest);
        assert(valid_field_name(cs[0].0));
        assert(comment_bytes(cs[0]).len() <= u32::MAX);
        assert(r == u32_le_bytes(n) + c + rr);
        lemma_u32_le_round_trip(n);
        let w = b.subrange(pos, pos + r.len());
        assert(b[pos] == w[0] && b[pos + 1] == w[1] && b[pos + 2] == w[2] && b[pos + 3] == w[3]);
        assert(le_u32(b, pos) == le_u32(u32_le_bytes(n), 0));
        assert(u32_le_bytes(n).len() == 4);
        assert forall|i: int| 0 <= i < n implies #[trigger] b.subrange(pos + 4, pos + 4 + n)[i] == c[i] by {
            assert(w[4 + i] == r[4 + i]);
            assert(r[4 + i] == c[i]);
        }
        assert(b.subrange(pos + 4, pos + 4 + n) =~= c);
        lemma_comment_bytes_parse(e);
        assert forall|i: int| 0 <= i < rr.len() implies #[trigger] b.subrange(pos + 4 + n, pos + 4 + n + rr.len())[i] == rr[i] by {
            assert(w[4 + n + i] == r[4 + n + i]);
            assert(r[4 + n + i] == rr[i]);
        }
        assert(b.subrange(pos + 4 + n, pos + 4 + n + rr.len()) =~= rr);
        assert forall|i: int| 0 <= i < rest.len() implies valid_field_name(#[trigger] rest[i].0) by {
            assert(rest[i] == cs[i + 1]);
        }
        assert forall|i: int| 0 <= i < rest.len() implies #[trigger] comment_bytes(rest[i]).len() <= u32::MAX by {
            assert(rest[i] == cs[i + 1]);
        }
        lemma_records_parse(b, pos + 4 + n, rest);
        assert(seq![e] + rest =~= cs);
        assert((cs.len() - 1) as nat == rest.len());
    }
}

/// A header that the library serializes parses back to the same vendor,
/// comments and suffix, wherever the codec keeps that suffix as it reads it.
pub proof fn lemma_serialized_header_parses<S: CommentHeaderSpecifics>(
    vendor: Seq<char>,
    comments: Seq<CommentView>,
    suffix: Seq<u8>,
)
    requires
        representable(vendor, comments),
        forall|i: int| 0 <= i < comments.len() ==> valid_field_name(#[trigger] comments[i].0),
        S::accepts_suffix(suffix),
        S::kept_suffix(suffix) == suffix,
    ensures
        parsed_header::<S>(header_bytes(S::magic(), vendor, comments, suffix)) == Some((vendor, comments, suffix)),
{
    let magic = S::magic();
    let m = magic.len() as int;
    let vb = encode_utf8(vendor);
    let vl = vb.len() as int;
    let rb = records_bytes(comments);
    let b = header_bytes(magic, vendor, comments, suffix);
    assert(b == magic + u32_le_bytes(vl) + vb + u32_le_bytes(comments.len() as int) + rb + suffix);
    assert(b.take(m) =~= magic);
    lemma_u32_le_round_trip(vl);
    lemma_u32_le_round_trip(comments.len() as int);
    assert(le_u32(b, m) == le_u32(u32_le_bytes(vl), 0));
    let ve = m + 4 + vl;
    assert(b.subrange(m + 4, ve) =~= vb);
    encode_utf8_valid_utf8(vendor);
    encode_utf8_decode_utf8(vendor);
    assert(le_u32(b, ve) == le_u32(u32_le_bytes(comments.len() as int), 0));
    assert(b.subrange(ve + 4, ve + 4 + rb.len()) =~= rb);
    lemma_records_parse(b, ve + 4, comments);
    assert(b.skip(ve + 4 + rb.len()) =~= suffix);
}

/// A comment header: vendor, comment list and codec-specific suffix.
#[derive(Debug)]
pub struct CommentHeaderGeneric<S> {
    vendor: String,
    user_comments: DiscreteCommentList,
    specifics: S,
}

/// What a parse of `b` gives: vendor, comments and suffix bytes.
pub open spec fn parsed_header<S: CommentHeaderSpecifics>(b: Seq<u8>) -> Option<
    (Seq<char>, Seq<CommentView>, Seq<u8>),
> {
    match parse_header_body(b, S::magic()) {
        None => None,
        Some(h) => if S::accepts_suffix(b.skip(h.2)) {
            Some((h.0, h.1, S::kept_suffix(b.skip(h.2))))
        } else {
            None
        },
    }
}

impl<S: CommentHeaderSpecifics> CommentHeaderGeneric<S> {
    /// The vendor string.
    pub closed spec fn vendor_view(&self) -> Seq<char> {
        self.vendor@
    }

    /// The comments.
    pub closed spec fn comments_view(&self) -> Seq<CommentView> {
        self.user_comments@
    }

    /// The bytes written after the comments.
    pub closed spec fn suffix_view(&self) -> Seq<u8> {
        self.specifics.suffix_bytes()
    }

    /// Every field name is valid.
    pub closed spec fn wf(&self) -> bool {
        self.user_comments.wf()
    }

    /// The header as a triple of vendor, comments and suffix.
    pub open spec fn view_triple(&self) -> (Seq<char>, Seq<CommentView>, Seq<u8>) {
        (self.vendor_view(), self.comments_view(), self.suffix_view())
    }

    /// The serialized form of this header.
    pub open spec fn spec_bytes(&self) -> Seq<u8> {
        header_bytes(S::magic(), self.vendor_view(), self.comments_view(), self.suffix_view())
    }

    /// A header with an empty vendor and no comments.
    pub fn empty() -> (r: Self)
        ensures
            r.vendor_view() == Seq::<char>::empty(),
            r.comments_view() == Seq::<CommentView>::empty(),
            r.suffix_view() == S::default_suffix(),
            r.wf(),
    {
        CommentHeaderGeneric { vendor: String::new(), user_comments: DiscreteCommentList::new(), specifics: S::fresh() }
    }

    /// Parses a comment header. Any malformation (wrong magic, a length
    /// that overruns the data, invalid UTF-8, a comment without `=`, an
    /// invalid field name, an unacceptable suffix) is `MalformedCommentHeader`.
    pub fn try_parse(data: &[u8]) -> (r: Result<Self, Error>)
        ensures
            r is Ok <==> parsed_header::<S>(data@) is Some,
            r is Ok ==> r->Ok_0.view_triple() == parsed_header::<S>(data@)->Some_0 && r->Ok_0.wf(),
            r is Err ==> r->Err_0 == Error::MalformedCommentHeader,
    {
        let magic = S::get_magic();
        let m = magic.len();
        if data.len() < m {
            return Err(Error::MalformedCommentHeader);
        }
        let mut i: usize = 0;
        while i < m
            invariant
                m == magic@.len(),
                magic@ == S::magic(),
                m <= data@.len(),
                i <= m,
                forall|j: int| 0 <= j < i ==> data@[j] == magic@[j],
            decreases m - i,
        {
            if data[i] != magic[i] {
                proof {
                    assert(data@.take(m as int)[i as int] != magic@[i as int]);
                    assert(data@.take(m as int) != magic@);
                    assert(parse_header_body(data@, S::magic()) is None);
                }
                return Err(Error::MalformedCommentHeader);
            }
            i = i + 1;
        }
        proof {
            assert(data@.take(m as int) =~= magic@);
        }
        if data.len() - m < 4 {
            return Err(Error::MalformedCommentHeader);
        }
        let vendor_len = read_u32_le(data, m);
        if vendor_len as u64 > (data.len() - m - 4) as u64 {
            return Err(Error::MalformedCommentHeader);
        }
        let ve = m + 4 + vendor_len as usize;
        if data.len() - ve < 4 {
            return Err(Error::MalformedCommentHeader);
        }
        let vendor = match utf8_to_string(slice_subrange(data, m + 4, ve)) {
            Some(v) => v,
            None => {
                return Err(Error::MalformedCommentHeader);
            },
        };
        let count = read_u32_le(data, ve);
        let mut pos: usize = ve + 4;
        let mut list = DiscreteCommentList::new();
        let mut k: u32 = 0;
        proof {
            assert(list@ + Seq::<CommentView>::empty() =~= Seq::<CommentView>::empty());
            match parse_records(data@, pos as int, count as nat) {
                Some(t) => {
                    assert(Seq::<CommentView>::empty() + t.0 =~= t.0);
                },
                None => {},
            }
        }
        while k < count
            invariant
                k <= count,
                ve + 4 <= pos <= data@.len(),
                count == le_u32(data@, ve as int),
                m == S::magic().len(),
                data@.take(m as int) == S::magic(),
                ve == m + 4 + le_u32(data@, m as int),
                ve + 4 <= data@.len(),
                valid_utf8(data@.subrange(m + 4, ve as int)),
                vendor@ == decode_utf8(data@.subrange(m + 4, ve as int)),
                list.wf(),
                parse_records(data@, ve + 4, count as nat) == glue(list@, parse_records(data@, pos as int, (count - k) as nat)),
            decreases count - k,
        {
            if data.len() - pos < 4 {
                proof {
                    assert(parse_records(data@, pos as int, (count - k) as nat) is None);
                    assert(parse_records(data@, ve + 4, count as nat) is None);
                    assert(parse_header_body(data@, S::magic()) is None);
                }
                return Err(Error::MalformedCommentHeader);
            }
            let len = read_u32_le(data, pos);
            if len as u64 > (data.len() - pos - 4) as u64 {
                proof {
                    assert(parse_records(data@, pos as int, (count - k) as nat) is None);
                    assert(parse_records(data@, ve + 4, count as nat) is None);
                    assert(parse_header_body(data@, S::magic()) is None);
                }
                return Err(Error::MalformedCommentHeader);
            }
            let end = pos + 4 + len as usize;
            let record = slice_subrange(data, pos + 4, end);
            let (key, value) = match parse_comment_bytes(record) {
                Some(e) => e,
                None => {
                    proof {
                        assert(record@ == data@.subrange(pos + 4, end as int));
                        assert(parse_records(data@, pos as int, (count - k) as nat) is None);
                        assert(parse_records(data@, ve + 4, count as nat) is None);
                        assert(parse_header_body(data@, S::magic()) is None);
                        assert(parsed_header::<S>(data@) is None);
                    }
                    return Err(Error::MalformedCommentHeader);
                },
            };
            let ghost before = list@;
            proof {
                reveal(comment_from_bytes);
                assert(valid_field_name(key@));
                lemma_glue_glue(before, seq![(key@, value@)], parse_records(data@, end as int, (count - k - 1) as nat));
            }
            match list.push(key.as_str(), value.as_str()) {
                Ok(()) => {},
                Err(_) => {
                    return Err(Error::MalformedCommentHeader);
                },
            }
            proof {
                assert(list@ =~= before + seq![(key@, value@)]);
            }
            pos = end;
            k = k + 1;
        }
        let rest = slice_subrange(data, pos, data.len());
        proof {
            assert(rest@ =~= data@.skip(pos as int));
            assert(list@ + Seq::<CommentView>::empty() =~= list@);
        }
        let specifics = S::read_suffix(rest)?;
        Ok(CommentHeaderGeneric { vendor, user_comments: list, specifics })
    }

    /// Writes the serialized header. Where a length or the comment count does
    /// not fit in a `u32` the result is `UnrepresentableValueInCommentHeader`.
    pub fn serialize_into(&self, out: &mut Vec<u8>) -> (r: Result<(), Error>)
        ensures
            r is Ok <==> representable(self.vendor_view(), self.comments_view()),
            r is Ok ==> final(out)@ == old(out)@ + self.spec_bytes(),
            r is Err ==> r->Err_0 == Error::UnrepresentableValueInCommentHeader,
    {
        let comments = &self.user_comments;
        let n = comments.len();
        let vendor = self.vendor.as_str().as_bytes();
        if vendor.len() as u64 > 0xFFFF_FFFF || n as u64 > 0xFFFF_FFFF {
            return Err(Error::UnrepresentableValueInCommentHeader);
        }
        let mut i: usize = 0;
        while i < n
            invariant
                n == comments@.len(),
                comments@ == self.comments_view(),
                i <= n,
                forall|j: int| 0 <= j < i ==> #[trigger] comment_bytes(comments@[j]).len() <= u32::MAX,
            decreases n - i,
        {
            let (k, v) = comments.get(i);
            let kl = k.as_bytes().len();
            let vl = v.as_bytes().len();
            proof {
                assert(comment_bytes(comments@[i as int]).len() == kl + vl + 1);
            }
            if kl as u64 > 0xFFFF_FFFF || vl as u64 > 0xFFFF_FFFF || kl as u64 + vl as u64 + 1 > 0xFFFF_FFFF {
                proof {
                    assert(comment_bytes(self.comments_view()[i as int]).len() > u32::MAX);
                }
                return Err(Error::UnrepresentableValueInCommentHeader);
            }
            i = i + 1;
        }
        let ghost start = out@;
        let magic = S::get_magic();
        push_bytes(out, magic.as_slice());
        push_u32_le(out, vendor.len() as u32);
        push_bytes(out, vendor);
        push_u32_le(out, n as u32);
        let ghost head = out@;
        let mut i: usize = 0;
        proof {
            assert(comments@.take(0) =~= Seq::<CommentView>::empty());
            assert(head + Seq::<u8>::empty() =~= head);
        }
        while i < n
            invariant
                n == comments@.len(),
                i <= n,
                forall|j: int| 0 <= j < n ==> #[trigger] comment_bytes(comments@[j]).len() <= u32::MAX,
                out@ == head + records_bytes(comments@.take(i as int)),
            decreases n - i,
        {
            let (k, v) = comments.get(i);
            let kb = k.as_bytes();
            let vb = v.as_bytes();
            let ghost before = out@;
            proof {
                assert(comment_bytes(comments@[i as int]).len() == kb@.len() + vb@.len() + 1);
            }
            let len = kb.len() + vb.len() + 1;
            push_u32_le(out, len as u32);
            push_bytes(out, kb);
            out.push(FIELD_NAME_TERMINATOR);
            push_bytes(out, vb);
            proof {
                let e = comments@[i as int];
                assert(comments@.take(i + 1) =~= comments@.take(i as int).push(e));
                lemma_records_bytes_append(comments@.take(i as int), e);
                assert(comment_bytes(e) =~= kb@ + seq![FIELD_NAME_TERMINATOR] + vb@);
                assert(out@ =~= head + records_bytes(comments@.take(i + 1)));
            }
            i = i + 1;
        }
        self.specifics.write_suffix(out);
        proof {
            assert(comments@.take(n as int) =~= comments@);
            assert(out@ =~= old(out)@ + self.spec_bytes());
        }
        Ok(())
    }

    /// The serialized header as a new vector.
    pub fn into_vec(&self) -> (r: Result<Vec<u8>, Error>)
        ensures
            r is Ok <==> representable(self.vendor_view(), self.comments_view()),
            r is Ok ==> r->Ok_0@ == self.spec_bytes(),
            r is Err ==> r->Err_0 == Error::UnrepresentableValueInCommentHeader,
    {
        let mut data: Vec<u8> = Vec::new();
        self.serialize_into(&mut data)?;
        proof {
            assert(data@ =~= self.spec_bytes());
        }
        Ok(data)
    }

    /// Sets the vendor field.
    pub fn set_vendor(&mut self, vendor: &str)
        ensures
            final(self).vendor_view() == vendor@,
            final(self).comments_view() == old(self).comments_view(),
            final(self).suffix_view() == old(self).suffix_view(),
            final(self).wf() == old(self).wf(),
    {
        self.vendor = vendor.to_owned();
    }

    /// Gets the vendor field.
    pub fn get_vendor(&self) -> (r: &str)
        ensures
            r@ == self.vendor_view(),
    {
        self.vendor.as_str()
    }

    /// The comment list.
    pub fn comments(&self) -> (r: &DiscreteCommentList)
        ensures
            r@ == self.comments_view(),
            self.wf() ==> r.wf(),
    {
        &self.user_comments
    }

    /// The comment list, for modification.
    pub fn comments_mut(&mut self) -> (r: &mut DiscreteCommentList)
        ensures
            r@ == old(self).comments_view(),
            old(self).wf() ==> r.wf(),
            final(r).wf() ==> final(self).wf(),
            final(self).comments_view() == final(r)@,
            final(self).vendor_view() == old(self).vendor_view(),
            final(self).suffix_view() == old(self).suffix_view(),
    {
        &mut self.user_comments
    }

    /// Returns the comments as a stand-alone list.
    pub fn to_discrete_comment_list(&self) -> (r: DiscreteCommentList)
        ensures
            r@ == self.comments_view(),
    {
        self.user_comments.duplicate()
    }

    /// A copy of the header.
    pub fn duplicate(&self) -> (r: Self)
        ensures
            r.view_triple() == self.view_triple(),
            r.wf() == self.wf(),
    {
        CommentHeaderGeneric {
            vendor: self.vendor.clone(),
            user_comments: self.user_comments.duplicate(),
            specifics: self.specifics.duplicate(),
        }
    }

    /// Do both headers hold the same vendor, comments and suffix?
    pub fn same_as(&self, other: &Self) -> (r: bool)
        ensures
            r == (self.view_triple() == other.view_triple()),
    {
        self.vendor == other.vendor && self.user_comments.same_as(&other.user_comments)
            && self.specifics.same_as(&other.specifics)
    }
}

} // verus!
