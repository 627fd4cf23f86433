use vstd::prelude::*;

use std::borrow::Cow;

use crate::error::Error;
use crate::escaping::{escape_str, escaped};
use crate::gain::{decimal_text, parsed_i16, FixedPointGain};
use crate::key_match::KeyValueMatch;
use crate::text::{ascii_fold, keys_equal};

verus! {

/// The byte that separates a comment's field name from its value.
pub const FIELD_NAME_TERMINATOR: u8 = 0x3d;

/// May `c` appear in a comment field name? (printable ASCII without `=`)
pub open spec fn valid_key_char(c: char) -> bool {
    (' ' <= c && c <= '<') || ('>' <= c && c <= '}')
}

/// Is `k` a valid comment field name?
pub open spec fn valid_field_name(k: Seq<char>) -> bool {
    forall|i: int| 0 <= i < k.len() ==> valid_key_char(#[trigger] k[i])
}

/// Is `i` the position of the first `=` in `s`?
pub open spec fn is_separator_index(s: Seq<char>, i: int) -> bool {
    0 <= i < s.len() && s[i] == '=' && forall|j: int| 0 <= j < i ==> s[j] != '='
}

/// The position of the first `=` in `s` (meaningful where `s` holds one).
pub open spec fn separator_index(s: Seq<char>) -> int {
    choose|i: int| is_separator_index(s, i)
}

/// Validates the field name of a comment
pub fn validate_comment_field_name(field_name: &str) -> (r: Result<(), Error>)
    ensures
        r is Ok <==> valid_field_name(field_name@),
        r is Err ==> (r->Err_0 is InvalidOpusCommentFieldName
            && r->Err_0->InvalidOpusCommentFieldName_0@ == field_name@),
{
    for c in it: field_name.chars()
        invariant
            it.seq() == field_name@,
            valid_field_name(field_name@.take(it.index() as int)),
    {
        if !((' ' <= c && c <= '<') || ('>' <= c && c <= '}')) {
            proof {
                assert(field_name@[it.index() as int] == c);
            }
            return Err(Error::InvalidOpusCommentFieldName(field_name.to_owned()));
        }
        proof {
            assert forall|i: int| 0 <= i < it.index() + 1 implies valid_key_char(
                #[trigger] field_name@.take(it.index() + 1)[i],
            ) by {
                if i < it.index() {
                    assert(field_name@.take(it.index() + 1)[i] == field_name@.take(
                        it.index() as int,
                    )[i]);
                }
            }
        }
    }
    proof {
        assert(field_name@.take(field_name@.len() as int) =~= field_name@);
    }
    Ok(())
}

/// Parses the textual representation of a comment (`KEY=VALUE`) into its
/// field name and value, split at the first `=`.
pub fn parse_comment(comment: &str) -> (r: Result<(&str, &str), Error>)
    ensures
        !comment@.contains('=') ==> r == Err::<(&str, &str), Error>(Error::MissingCommentSeparator),
        comment@.contains('=') ==> (r is Ok <==> valid_field_name(
            comment@.take(separator_index(comment@)),
        )),
        r is Ok ==> r->Ok_0.0@ == comment@.take(separator_index(comment@)) && r->Ok_0.1@
            == comment@.skip(separator_index(comment@) + 1),
        r is Err && comment@.contains('=') ==> r->Err_0 is InvalidOpusCommentFieldName,
{
    let len = comment.unicode_len();
    let mut offset: usize = 0;
    let mut found = false;
    for c in it: comment.chars()
        invariant
            it.seq() == comment@,
            len == comment@.len(),
            !found ==> offset == it.index(),
            !found ==> forall|j: int| 0 <= j < it.index() ==> comment@[j] != '=',
            found ==> is_separator_index(comment@, offset as int),
    {
        if !found {
            if c == '=' {
                found = true;
            } else {
                offset = offset + 1;
            }
        }
    }
    if !found {
        proof {
            if comment@.contains('=') {
                let j = choose|j: int| 0 <= j < comment@.len() && comment@[j] == '=';
                assert(comment@[j] != '=');
            }
        }
        return Err(Error::MissingCommentSeparator);
    }
    proof {
        assert(comment@[offset as int] == '=');
        assert(comment@.contains('='));
        let k = separator_index(comment@);
        assert(is_separator_index(comment@, k));
        if k < offset {
            assert(comment@[k] != '=');
        }
        if k > offset {
            assert(comment@[offset as int] != '=');
        }
    }
    let key = comment.substring_char(0, offset);
    let value = comment.substring_char(offset + 1, len);
    match validate_comment_field_name(key) {
        Ok(()) => {},
        Err(e) => {
            return Err(e);
        },
    }
    Ok((key, value))
}

/// One comment as its field name and value.
pub type CommentView = (Seq<char>, Seq<char>);

/// Does the comment's field name match `key`, ignoring ASCII case?
pub open spec fn matches_key(e: CommentView, key: Seq<char>) -> bool {
    ascii_fold(e.0) == ascii_fold(key)
}

/// The comments whose field name does not match `key`, in their order.
pub open spec fn without_key(s: Seq<CommentView>, key: Seq<char>) -> Seq<CommentView>
    decreases s.len(),
{
    if s.len() == 0 {
        Seq::empty()
    } else if matches_key(s[0], key) {
        without_key(s.drop_first(), key)
    } else {
        seq![s[0]] + without_key(s.drop_first(), key)
    }
}

/// The list after replacing `key`: the first match takes `value` and later
/// matches go; without a match the mapping is appended.
pub open spec fn replaced(s: Seq<CommentView>, key: Seq<char>, value: Seq<char>) -> Seq<CommentView>
    decreases s.len(),
{
    if s.len() == 0 {
        seq![(key, value)]
    } else if matches_key(s[0], key) {
        seq![(s[0].0, value)] + without_key(s.drop_first(), key)
    } else {
        seq![s[0]] + replaced(s.drop_first(), key, value)
    }
}

/// Is `i` the first comment whose field name matches `key`?
pub open spec fn is_first_match(s: Seq<CommentView>, key: Seq<char>, i: int) -> bool {
    0 <= i < s.len() && matches_key(s[i], key) && forall|j: int|
        0 <= j < i ==> !matches_key(#[trigger] s[j], key)
}

proof fn lemma_without_key_no_match(s: Seq<CommentView>, key: Seq<char>)
    ensures
        forall|j: int| 0 <= j < without_key(s, key).len() ==> !matches_key(#[trigger] without_key(s, key)[j], key),
    decreases s.len(),
{
    if s.len() > 0 {
        lemma_without_key_no_match(s.drop_first(), key);
        let w = without_key(s.drop_first(), key);
        if !matches_key(s[0], key) {
            assert forall|j: int| 0 <= j < without_key(s, key).len() implies !matches_key(#[trigger] without_key(s, key)[j], key) by {
                if j > 0 {
                    assert(without_key(s, key)[j] == w[j - 1]);
                }
            }
        }
    }
}

proof fn lemma_without_key_idempotent(s: Seq<CommentView>, key: Seq<char>)
    ensures
        without_key(without_key(s, key), key) == without_key(s, key),
    decreases s.len(),
{
    if s.len() > 0 {
        lemma_without_key_idempotent(s.drop_first(), key);
        if !matches_key(s[0], key) {
            let w = without_key(s, key);
            assert(w.drop_first() =~= without_key(s.drop_first(), key));
        }
    } else {
        assert(without_key(s, key) =~= Seq::<CommentView>::empty());
    }
}

/// After `replace(key, value)` the list holds exactly one mapping whose field
/// name matches `key` (ignoring ASCII case), that mapping has `value`, and the
/// mappings that do not match are those of before, in the same order.
pub proof fn lemma_replace_leaves_one(s: Seq<CommentView>, key: Seq<char>, value: Seq<char>)
    ensures
        exists|i: int|
            is_first_match(replaced(s, key, value), key, i) && #[trigger] replaced(s, key, value)[i].1 == value
                && forall|j: int| 0 <= j < replaced(s, key, value).len() && j != i ==> !matches_key(#[trigger] replaced(s, key, value)[j], key),
        without_key(replaced(s, key, value), key) == without_key(s, key),
    decreases s.len(),
{
    let r = replaced(s, key, value);
    if s.len() == 0 {
        assert(r[0] == (key, value));
        assert(is_first_match(r, key, 0));
        assert(r[0].1 == value);
        assert(r.drop_first() =~= Seq::<CommentView>::empty());
        assert(without_key(r.drop_first(), key) =~= Seq::<CommentView>::empty());
        assert(without_key(r, key) == without_key(r.drop_first(), key));
        assert(without_key(s, key) =~= Seq::<CommentView>::empty());
    } else if matches_key(s[0], key) {
        let w = without_key(s.drop_first(), key);
        lemma_without_key_no_match(s.drop_first(), key);
        lemma_without_key_idempotent(s.drop_first(), key);
        assert(r[0] == (s[0].0, value));
        assert(matches_key(r[0], key));
        assert(is_first_match(r, key, 0));
        assert(r.drop_first() =~= w);
        assert(r[0].1 == value);
        assert forall|j: int| 0 <= j < r.len() && j != 0 implies !matches_key(#[trigger] r[j], key) by {
            assert(r[j] == w[j - 1]);
        }
        assert(without_key(r, key) == without_key(r.drop_first(), key));
    } else {
        let t = replaced(s.drop_first(), key, value);
        lemma_replace_leaves_one(s.drop_first(), key, value);
        let i = choose|i: int|
            is_first_match(t, key, i) && #[trigger] t[i].1 == value
                && forall|j: int| 0 <= j < t.len() && j != i ==> !matches_key(#[trigger] t[j], key);
        assert(r == seq![s[0]] + t);
        assert(r[i + 1] == t[i]);
        assert forall|j: int| 0 <= j < i + 1 implies !matches_key(#[trigger] r[j], key) by {
            if j > 0 {
                assert(r[j] == t[j - 1]);
            }
        }
        assert(is_first_match(r, key, i + 1));
        assert forall|j: int| 0 <= j < r.len() && j != i + 1 implies !matches_key(#[trigger] r[j], key) by {
            if j > 0 {
                assert(r[j] == t[j - 1]);
            }
        }
        assert(r.drop_first() =~= t);
        assert(r[i + 1].1 == value);
        assert(r[0] == s[0]);
        assert(without_key(r, key) == seq![r[0]] + without_key(r.drop_first(), key));
    }
}

/// Which mapping is the first to match a key does not depend on the key's
/// ASCII case.
pub proof fn lemma_first_match_ignores_case(s: Seq<CommentView>, k1: Seq<char>, k2: Seq<char>, i: int)
    requires
        ascii_fold(k1) == ascii_fold(k2),
    ensures
        is_first_match(s, k1, i) <==> is_first_match(s, k2, i),
{
}

/// The comments that a delete request does not cover, in their order.
pub open spec fn without_matching(s: Seq<CommentView>, m: KeyValueMatch) -> Seq<CommentView>
    decreases s.len(),
{
    if s.len() == 0 {
        Seq::empty()
    } else if m.covers(s[0].0, s[0].1) {
        without_matching(s.drop_first(), m)
    } else {
        seq![s[0]] + without_matching(s.drop_first(), m)
    }
}

/// The text form of a comment list: one `KEY=VALUE` line per comment, the
/// value escaped where asked.
pub open spec fn comments_text(s: Seq<CommentView>, escape: bool) -> Seq<char>
    decreases s.len(),
{
    if s.len() == 0 {
        Seq::empty()
    } else {
        s[0].0 + seq!['='] + (if escape {
            escaped(s[0].1)
        } else {
            s[0].1
        }) + seq!['\n'] + comments_text(s.drop_first(), escape)
    }
}

proof fn lemma_comments_text_append(a: Seq<CommentView>, e: CommentView, escape: bool)
    ensures
        comments_text(a.push(e), escape) == comments_text(a, escape) + (e.0 + seq!['='] + (if escape {
            escaped(e.1)
        } else {
            e.1
        }) + seq!['\n']),
    decreases a.len(),
{
    let line = e.0 + seq!['='] + (if escape {
        escaped(e.1)
    } else {
        e.1
    }) + seq!['\n'];
    if a.len() == 0 {
        assert(a.push(e).drop_first() =~= Seq::<CommentView>::empty());
        assert(a.push(e)[0] == e);
        assert(comments_text(Seq::<CommentView>::empty(), escape) =~= Seq::<char>::empty());
        assert(comments_text(a.push(e), escape) =~= line + Seq::<char>::empty());
        assert(comments_text(a, escape) + line =~= line);
    } else {
        lemma_comments_text_append(a.drop_first(), e, escape);
        assert(a.push(e).drop_first() =~= a.drop_first().push(e));
        assert(a.push(e)[0] == a[0]);
        let head = a[0].0 + seq!['='] + (if escape {
            escaped(a[0].1)
        } else {
            a[0].1
        }) + seq!['\n'];
        assert(comments_text(a.push(e), escape) == head + comments_text(a.drop_first().push(e), escape));
        assert(head + (comments_text(a.drop_first(), escape) + line) =~= (head + comments_text(a.drop_first(), escape)) + line);
    }
}

/// The value of the first comment whose field name matches `key`.
pub open spec fn first_value(s: Seq<CommentView>, key: Seq<char>) -> Option<Seq<char>>
    decreases s.len(),
{
    if s.len() == 0 {
        None
    } else if matches_key(s[0], key) {
        Some(s[0].1)
    } else {
        first_value(s.drop_first(), key)
    }
}

proof fn lemma_first_value(s: Seq<CommentView>, key: Seq<char>)
    ensures
        first_value(s, key) is None <==> forall|i: int| 0 <= i < s.len() ==> !matches_key(#[trigger] s[i], key),
        forall|i: int| is_first_match(s, key, i) ==> first_value(s, key) == Some(s[i].1),
    decreases s.len(),
{
    if s.len() > 0 {
        lemma_first_value(s.drop_first(), key);
        let t = s.drop_first();
        if !matches_key(s[0], key) {
            assert forall|i: int| is_first_match(s, key, i) implies first_value(s, key) == Some(s[i].1) by {
                assert(i > 0);
                assert(t[i - 1] == s[i]);
                assert forall|j: int| 0 <= j < i - 1 implies !matches_key(#[trigger] t[j], key) by {
                    assert(t[j] == s[j + 1]);
                }
                assert(is_first_match(t, key, i - 1));
            }
            if first_value(s, key) is None {
                assert forall|i: int| 0 <= i < s.len() implies !matches_key(#[trigger] s[i], key) by {
                    if i > 0 {
                        assert(t[i - 1] == s[i]);
                    }
                }
            } else {
                let k = choose|k: int| 0 <= k < t.len() && matches_key(#[trigger] t[k], key);
                assert(matches_key(s[k + 1], key));
            }
        } else {
            assert forall|i: int| is_first_match(s, key, i) implies first_value(s, key) == Some(s[i].1) by {
                if i > 0 {
                    assert(!matches_key(s[0], key));
                }
            }
        }
    }
}

/// The view of a vector of string pairs.
pub open spec fn pairs_view(v: Seq<(String, String)>) -> Seq<CommentView> {
    Seq::new(v.len(), |i: int| (v[i].0@, v[i].1@))
}

/// Stand-alone representation of a comment list: ordered (field name, value)
/// pairs, duplicates allowed.
#[derive(Debug)]
pub struct DiscreteCommentList {
    comments: Vec<(String, String)>,
}

impl Default for DiscreteCommentList {
    fn default() -> (r: DiscreteCommentList)
        ensures
            r@ == Seq::<CommentView>::empty(),
            r.wf(),
    {
        DiscreteCommentList::new()
    }
}

impl PartialEq for DiscreteCommentList {
    fn eq(&self, other: &DiscreteCommentList) -> (r: bool) {
        self.same_as(other)
    }
}

impl vstd::std_specs::cmp::PartialEqSpecImpl for DiscreteCommentList {
    open spec fn obeys_eq_spec() -> bool {
        true
    }

    open spec fn eq_spec(&self, other: &DiscreteCommentList) -> bool {
        self@ == other@
    }
}

impl View for DiscreteCommentList {
    type V = Seq<CommentView>;

    closed spec fn view(&self) -> Seq<CommentView> {
        pairs_view(self.comments@)
    }
}

impl DiscreteCommentList {
    /// Every field name in the list is valid.
    pub open spec fn wf(&self) -> bool {
        forall|i: int| 0 <= i < self@.len() ==> valid_field_name(#[trigger] self@[i].0)
    }

    /// An empty list.
    pub fn new() -> (r: DiscreteCommentList)
        ensures
            r@ == Seq::<CommentView>::empty(),
            r.wf(),
    {
        let r = DiscreteCommentList { comments: Vec::new() };
        proof {
            assert(r@ =~= Seq::<CommentView>::empty());
        }
        r
    }

    /// Allocates an empty list with the specified capacity
    pub fn with_capacity(cap: usize) -> (r: DiscreteCommentList)
        ensures
            r@ == Seq::<CommentView>::empty(),
            r.wf(),
    {
        let r = DiscreteCommentList { comments: Vec::with_capacity(cap) };
        proof {
            assert(r@ =~= Seq::<CommentView>::empty());
        }
        r
    }

    /// Returns the number of comments.
    pub fn len(&self) -> (r: usize)
        ensures
            r == self@.len(),
    {
        self.comments.len()
    }

    /// Does the list hold no comments?
    pub fn is_empty(&self) -> (r: bool)
        ensures
            r == (self@.len() == 0),
    {
        self.comments.len() == 0
    }

    /// Removes all comments.
    pub fn clear(&mut self)
        ensures
            final(self)@ == Seq::<CommentView>::empty(),
            final(self).wf(),
    {
        self.comments.clear();
        proof {
            assert(self@ =~= Seq::<CommentView>::empty());
        }
    }

    /// A copy of the list.
    pub fn duplicate(&self) -> (r: DiscreteCommentList)
        ensures
            r@ == self@,
    {
        let mut out: Vec<(String, String)> = Vec::new();
        let mut i: usize = 0;
        while i < self.comments.len()
            invariant
                i <= self.comments@.len(),
                pairs_view(out@) == pairs_view(self.comments@).take(i as int),
            decreases self.comments@.len() - i,
        {
            let e = &self.comments[i];
            let ghost before = pairs_view(out@);
            out.push((e.0.clone(), e.1.clone()));
            proof {
                assert(pairs_view(out@) =~= before + seq![(e.0@, e.1@)]);
                assert(pairs_view(self.comments@)[i as int] == (e.0@, e.1@));
                assert(pairs_view(out@) =~= pairs_view(self.comments@).take(i + 1));
            }
            i = i + 1;
        }
        proof {
            assert(pairs_view(self.comments@).take(i as int) =~= pairs_view(self.comments@));
        }
        DiscreteCommentList { comments: out }
    }

    /// Do both lists hold the same mappings in the same order?
    pub fn same_as(&self, other: &DiscreteCommentList) -> (r: bool)
        ensures
            r == (self@ == other@),
    {
        if self.comments.len() != other.comments.len() {
            proof {
                assert(self@.len() != other@.len());
            }
            return false;
        }
        let mut i: usize = 0;
        while i < self.comments.len()
            invariant
                i <= self.comments@.len(),
                self.comments@.len() == other.comments@.len(),
                forall|j: int| 0 <= j < i ==> self@[j] == other@[j],
            decreases self.comments@.len() - i,
        {
            let a = &self.comments[i];
            let b = &other.comments[i];
            if a.0 != b.0 || a.1 != b.1 {
                proof {
                    assert(self@[i as int] != other@[i as int]);
                }
                return false;
            }
            i = i + 1;
        }
        proof {
            assert(self@ =~= other@);
        }
        true
    }

    /// The comments in insertion order.
    pub fn iter(&self) -> (r: Vec<(&str, &str)>)
        ensures
            r@.len() == self@.len(),
            forall|i: int| 0 <= i < r@.len() ==> (#[trigger] r@[i]).0@ == self@[i].0 && r@[i].1@ == self@[i].1,
    {
        let mut out: Vec<(&str, &str)> = Vec::new();
        let mut i: usize = 0;
        while i < self.comments.len()
            invariant
                i <= self@.len(),
                self@.len() == self.comments@.len(),
                out@.len() == i,
                forall|j: int| 0 <= j < i ==> (#[trigger] out@[j]).0@ == self@[j].0 && out@[j].1@ == self@[j].1,
            decreases self@.len() - i,
        {
            out.push(self.get(i));
            i = i + 1;
        }
        out
    }

    /// The comment at position `i`.
    pub fn get(&self, i: usize) -> (r: (&str, &str))
        requires
            i < self@.len(),
        ensures
            r.0@ == self@[i as int].0,
            r.1@ == self@[i as int].1,
    {
        let e = &self.comments[i];
        (e.0.as_str(), e.1.as_str())
    }

    /// Returns the first value whose field name matches `key`, ignoring
    /// ASCII case.
    pub fn get_first(&self, key: &str) -> (r: Option<&str>)
        ensures
            r is None <==> forall|i: int| 0 <= i < self@.len() ==> !matches_key(#[trigger] self@[i], key@),
            r is Some ==> exists|i: int| is_first_match(self@, key@, i) && r->Some_0@ == self@[i].1,
            r is None <==> first_value(self@, key@) is None,
            r is Some ==> r->Some_0@ == first_value(self@, key@)->Some_0,
    {
        proof {
            lemma_first_value(self@, key@);
        }
        let mut i: usize = 0;
        while i < self.comments.len()
            invariant
                i <= self@.len(),
                self@.len() == self.comments@.len(),
                forall|j: int| 0 <= j < i ==> !matches_key(#[trigger] self@[j], key@),
            decreases self.comments@.len() - i,
        {
            let e = &self.comments[i];
            proof {
                assert(self@[i as int] == (e.0@, e.1@));
            }
            if keys_equal(e.0.as_str(), key) {
                proof {
                    assert(is_first_match(self@, key@, i as int));
                    lemma_first_value(self@, key@);
                }
                return Some(e.1.as_str());
            }
            i = i + 1;
        }
        None
    }

    /// Appends the specified mapping after checking its field name.
    pub fn push(&mut self, key: &str, value: &str) -> (r: Result<(), Error>)
        requires
            old(self).wf(),
        ensures
            final(self).wf(),
            r is Ok <==> valid_field_name(key@),
            r is Ok ==> final(self)@ == old(self)@.push((key@, value@)),
            r is Err ==> final(self)@ == old(self)@ && r->Err_0 is InvalidOpusCommentFieldName,
    {
        validate_comment_field_name(key)?;
        self.comments.push((key.to_owned(), value.to_owned()));
        proof {
            assert(self@ =~= old(self)@.push((key@, value@)));
        }
        Ok(())
    }

    /// Appends the specified mapping after checking its field name (the same
    /// as `push`).
    pub fn append(&mut self, key: &str, value: &str) -> (r: Result<(), Error>)
        requires
            old(self).wf(),
        ensures
            final(self).wf(),
            r is Ok <==> valid_field_name(key@),
            r is Ok ==> final(self)@ == old(self)@.push((key@, value@)),
            r is Err ==> final(self)@ == old(self)@ && r->Err_0 is InvalidOpusCommentFieldName,
    {
        self.push(key, value)
    }

    /// Removes all mappings whose field name matches `key`, ignoring ASCII
    /// case.
    pub fn remove_all(&mut self, key: &str)
        requires
            old(self).wf(),
        ensures
            final(self).wf(),
            final(self)@ == without_key(old(self)@, key@),
    {
        let ghost old_view = self@;
        let mut kept: Vec<(String, String)> = Vec::new();
        let mut i: usize = 0;
        proof {
            assert(old_view.skip(0) =~= old_view);
            assert(pairs_view(kept@) + old_view =~= old_view);
            assert(pairs_view(kept@) + without_key(old_view, key@) =~= without_key(old_view, key@));
        }
        while i < self.comments.len()
            invariant
                i <= old_view.len(),
                self@ == old_view,
                old_view.len() == self.comments@.len(),
                self.wf(),
                without_key(old_view, key@) == pairs_view(kept@) + without_key(old_view.skip(i as int), key@),
                forall|j: int| 0 <= j < kept@.len() ==> valid_field_name(#[trigger] pairs_view(kept@)[j].0),
            decreases old_view.len() - i,
        {
            let e = &self.comments[i];
            let ghost rest = old_view.skip(i as int);
            proof {
                assert(rest[0] == (e.0@, e.1@));
                assert(rest.drop_first() =~= old_view.skip(i + 1));
            }
            if !keys_equal(e.0.as_str(), key) {
                let ghost before = pairs_view(kept@);
                kept.push((e.0.clone(), e.1.clone()));
                proof {
                    assert(pairs_view(kept@) =~= before + seq![(e.0@, e.1@)]);
                    assert(before + (seq![rest[0]] + without_key(rest.drop_first(), key@)) =~= pairs_view(kept@)
                        + without_key(old_view.skip(i + 1), key@));
                    assert(valid_field_name(old_view[i as int].0));
                    assert forall|j: int| 0 <= j < kept@.len() implies valid_field_name(#[trigger] pairs_view(kept@)[j].0) by {
                        if j < kept@.len() - 1 {
                            assert(pairs_view(kept@)[j] == before[j]);
                        }
                    }
                }
            }
            i = i + 1;
        }
        proof {
            assert(old_view.skip(i as int) =~= Seq::<CommentView>::empty());
            assert(pairs_view(kept@) + Seq::<CommentView>::empty() =~= pairs_view(kept@));
        }
        self.comments = kept;
    }

    /// Parses the first value of `tag` as an R128 gain (the decimal Q7.8
    /// value). `Ok(None)` where the tag is absent, `InvalidR128Tag` where
    /// its value does not parse.
    pub fn get_gain_from_tag(&self, tag: &str) -> (r: Result<Option<FixedPointGain>, Error>)
        ensures
            first_value(self@, tag@) is None ==> r == Ok::<Option<FixedPointGain>, Error>(None),
            first_value(self@, tag@) is Some && parsed_i16(first_value(self@, tag@)->Some_0) is Some ==> r is Ok
                && r->Ok_0 is Some && r->Ok_0->Some_0.raw() == parsed_i16(first_value(self@, tag@)->Some_0)->Some_0,
            first_value(self@, tag@) is Some && parsed_i16(first_value(self@, tag@)->Some_0) is None ==> r is Err
                && r->Err_0 is InvalidR128Tag && r->Err_0->InvalidR128Tag_0@ == first_value(self@, tag@)->Some_0,
    {
        match self.get_first(tag) {
            None => Ok(None),
            Some(v) => match FixedPointGain::parse(v) {
                Some(g) => Ok(Some(g)),
                None => Err(Error::InvalidR128Tag(v.to_owned())),
            },
        }
    }

    /// Sets `tag` to `gain` in the decimal Q7.8 form of R128 tags, as
    /// `replace` does.
    pub fn set_tag_to_gain(&mut self, tag: &str, gain: FixedPointGain) -> (r: Result<(), Error>)
        requires
            old(self).wf(),
        ensures
            final(self).wf(),
            r is Ok <==> valid_field_name(tag@),
            r is Ok ==> final(self)@ == replaced(old(self)@, tag@, decimal_text(gain.raw())),
            r is Err ==> final(self)@ == old(self)@,
    {
        let text = gain.to_text();
        self.replace(tag, text.as_str())
    }

    /// Appends every mapping of `other`, in order.
    pub fn extend(&mut self, other: &DiscreteCommentList)
        requires
            old(self).wf(),
            other.wf(),
        ensures
            final(self).wf(),
            final(self)@ == old(self)@ + other@,
    {
        let ghost start = self@;
        let mut i: usize = 0;
        while i < other.comments.len()
            invariant
                i <= other@.len(),
                other@.len() == other.comments@.len(),
                other.wf(),
                self.wf(),
                self@ == start + other@.take(i as int),
            decreases other@.len() - i,
        {
            let e = &other.comments[i];
            let ghost before = self@;
            proof {
                assert(other@[i as int] == (e.0@, e.1@));
                assert(valid_field_name(other@[i as int].0));
            }
            self.comments.push((e.0.clone(), e.1.clone()));
            proof {
                assert(self@ =~= before.push((e.0@, e.1@)));
                assert(other@.take(i + 1) =~= other@.take(i as int).push(other@[i as int]));
                assert(self@ =~= start + other@.take(i + 1));
            }
            i = i + 1;
        }
        proof {
            assert(other@.take(i as int) =~= other@);
        }
    }

    /// Keeps only the mappings that the delete request does not cover, in
    /// their order.
    pub fn remove_matching(&mut self, m: &KeyValueMatch)
        requires
            old(self).wf(),
        ensures
            final(self).wf(),
            final(self)@ == without_matching(old(self)@, *m),
    {
        let ghost old_view = self@;
        let mut kept: Vec<(String, String)> = Vec::new();
        let mut i: usize = 0;
        proof {
            assert(old_view.skip(0) =~= old_view);
            assert(pairs_view(kept@) + without_matching(old_view, *m) =~= without_matching(old_view, *m));
        }
        while i < self.comments.len()
            invariant
                i <= old_view.len(),
                self@ == old_view,
                old_view.len() == self.comments@.len(),
                self.wf(),
                without_matching(old_view, *m) == pairs_view(kept@) + without_matching(old_view.skip(i as int), *m),
                forall|j: int| 0 <= j < kept@.len() ==> valid_field_name(#[trigger] pairs_view(kept@)[j].0),
            decreases old_view.len() - i,
        {
            let e = &self.comments[i];
            let ghost rest = old_view.skip(i as int);
            proof {
                assert(rest[0] == (e.0@, e.1@));
                assert(rest.drop_first() =~= old_view.skip(i + 1));
            }
            if !m.matches(e.0.as_str(), e.1.as_str()) {
                let ghost before = pairs_view(kept@);
                kept.push((e.0.clone(), e.1.clone()));
                proof {
                    assert(pairs_view(kept@) =~= before + seq![(e.0@, e.1@)]);
                    assert(before + (seq![rest[0]] + without_matching(rest.drop_first(), *m)) =~= pairs_view(kept@)
                        + without_matching(old_view.skip(i + 1), *m));
                    assert(valid_field_name(old_view[i as int].0));
                    assert forall|j: int| 0 <= j < kept@.len() implies valid_field_name(#[trigger] pairs_view(kept@)[j].0) by {
                        if j < kept@.len() - 1 {
                            assert(pairs_view(kept@)[j] == before[j]);
                        }
                    }
                }
            }
            i = i + 1;
        }
        proof {
            assert(old_view.skip(i as int) =~= Seq::<CommentView>::empty());
            assert(pairs_view(kept@) + Seq::<CommentView>::empty() =~= pairs_view(kept@));
        }
        self.comments = kept;
    }

    /// The comments as text: a `KEY=VALUE` line for each, with the value
    /// escaped where `escape` is set.
    pub fn to_text(&self, escape: bool) -> (r: String)
        ensures
            r@ == comments_text(self@, escape),
    {
        let mut out = String::new();
        let mut i: usize = 0;
        proof {
            assert(self@.take(0) =~= Seq::<CommentView>::empty());
        }
        while i < self.comments.len()
            invariant
                i <= self@.len(),
                self@.len() == self.comments@.len(),
                out@ == comments_text(self@.take(i as int), escape),
            decreases self@.len() - i,
        {
            let e = &self.comments[i];
            proof {
                assert(self@[i as int] == (e.0@, e.1@));
                lemma_comments_text_append(self@.take(i as int), self@[i as int], escape);
                assert(self@.take(i + 1) =~= self@.take(i as int).push(self@[i as int]));
            }
            out.append(e.0.as_str());
            out.append("=");
            if escape {
                let v = escape_str(e.1.as_str());
                match v {
                    Cow::Borrowed(b) => out.append(b),
                    Cow::Owned(o) => out.append(o.as_str()),
                }
            } else {
                out.append(e.1.as_str());
            }
            out.append("\n");
            proof {
                reveal_strlit("=");
                reveal_strlit("\n");
                assert(out@ =~= comments_text(self@.take(i + 1), escape));
            }
            i = i + 1;
        }
        proof {
            assert(self@.take(i as int) =~= self@);
        }
        out
    }

    /// If `key` already has a mapping (ignoring ASCII case), the first
    /// mapping's value becomes `value` and later mappings are discarded;
    /// otherwise the mapping is appended.
    pub fn replace(&mut self, key: &str, value: &str) -> (r: Result<(), Error>)
        requires
            old(self).wf(),
        ensures
            final(self).wf(),
            r is Ok <==> valid_field_name(key@),
            r is Ok ==> final(self)@ == replaced(old(self)@, key@, value@),
            r is Err ==> final(self)@ == old(self)@ && r->Err_0 is InvalidOpusCommentFieldName,
    {
        validate_comment_field_name(key)?;
        let ghost old_view = self@;
        let mut kept: Vec<(String, String)> = Vec::new();
        let mut found = false;
        let mut i: usize = 0;
        proof {
            assert(old_view.skip(0) =~= old_view);
            assert(pairs_view(kept@) + replaced(old_view, key@, value@) =~= replaced(old_view, key@, value@));
        }
        while i < self.comments.len()
            invariant
                i <= old_view.len(),
                self@ == old_view,
                old_view.len() == self.comments@.len(),
                self.wf(),
                valid_field_name(key@),
                !found ==> replaced(old_view, key@, value@) == pairs_view(kept@) + replaced(old_view.skip(i as int), key@, value@),
                found ==> replaced(old_view, key@, value@) == pairs_view(kept@) + without_key(old_view.skip(i as int), key@),
                forall|j: int| 0 <= j < kept@.len() ==> valid_field_name(#[trigger] pairs_view(kept@)[j].0),
            decreases old_view.len() - i,
        {
            let e = &self.comments[i];
            let ghost rest = old_view.skip(i as int);
            let ghost before = pairs_view(kept@);
            proof {
                assert(rest[0] == (e.0@, e.1@));
                assert(rest.drop_first() =~= old_view.skip(i + 1));
                assert(valid_field_name(old_view[i as int].0));
            }
            let matched = keys_equal(e.0.as_str(), key);
            if matched && !found {
                kept.push((e.0.clone(), value.to_owned()));
                found = true;
                proof {
                    assert(pairs_view(kept@) =~= before + seq![(e.0@, value@)]);
                    assert(before + (seq![(rest[0].0, value@)] + without_key(rest.drop_first(), key@)) =~= pairs_view(kept@)
                        + without_key(old_view.skip(i + 1), key@));
                }
            } else if !matched {
                kept.push((e.0.clone(), e.1.clone()));
                proof {
                    assert(pairs_view(kept@) =~= before + seq![(e.0@, e.1@)]);
                    if found {
                        assert(before + (seq![rest[0]] + without_key(rest.drop_first(), key@)) =~= pairs_view(kept@)
                            + without_key(old_view.skip(i + 1), key@));
                    } else {
                        assert(before + (seq![rest[0]] + replaced(rest.drop_first(), key@, value@)) =~= pairs_view(kept@)
                            + replaced(old_view.skip(i + 1), key@, value@));
                    }
                }
            }
            proof {
                assert forall|j: int| 0 <= j < kept@.len() implies valid_field_name(#[trigger] pairs_view(kept@)[j].0) by {
                    if j < before.len() {
                        assert(pairs_view(kept@)[j] == before[j]);
                    }
                }
            }
            i = i + 1;
        }
        proof {
            assert(old_view.skip(i as int) =~= Seq::<CommentView>::empty());
        }
        if !found {
            let ghost before = pairs_view(kept@);
            kept.push((key.to_owned(), value.to_owned()));
            proof {
                assert(pairs_view(kept@) =~= before + seq![(key@, value@)]);
                assert forall|j: int| 0 <= j < kept@.len() implies valid_field_name(#[trigger] pairs_view(kept@)[j].0) by {
                    if j < before.len() {
                        assert(pairs_view(kept@)[j] == before[j]);
                    }
                }
            }
        } else {
            proof {
                assert(pairs_view(kept@) + Seq::<CommentView>::empty() =~= pairs_view(kept@));
            }
        }
        self.comments = kept;
        Ok(())
    }
}

} // verus!
