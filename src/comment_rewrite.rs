use std::borrow::Cow;
use vstd::prelude::*;

use crate::comment_list::{
    parse_comment, separator_index, valid_field_name, validate_comment_field_name, without_matching,
    CommentView, DiscreteCommentList,
};
use crate::error::Error;
use crate::escaping::{unescape_str, unescaped};
use crate::header_rewriter::{CodecHeaders, HeaderRewrite, HeaderSummarize, HeadersView};
use crate::key_match::{KeyValueMatch, ValueMatch};

verus! {

/// What the comment rewrite does to the comment list.
#[derive(Debug)]
pub enum CommentRewriterAction {
    /// Leave the comments as they are (listing only)
    NoChange,
    /// Drop the comments that `delete` covers, then append `append`
    Modify { delete: KeyValueMatch, append: DiscreteCommentList },
    /// Replace all comments with the list given
    Replace(DiscreteCommentList),
}

/// Configuration type for `CommentHeaderRewrite`
#[derive(Debug)]
pub struct CommentRewriterConfig {
    /// The action to be performed
    pub action: CommentRewriterAction,
}

impl CommentRewriterConfig {
    /// The lists to append hold valid field names.
    pub open spec fn wf(&self) -> bool {
        match self.action {
            CommentRewriterAction::NoChange => true,
            CommentRewriterAction::Modify { delete, append } => append.wf(),
            CommentRewriterAction::Replace(l) => l.wf(),
        }
    }
}

/// The comment list that `action` makes of `comments`.
pub open spec fn rewritten_comments(action: CommentRewriterAction, comments: Seq<CommentView>) -> Seq<
    CommentView,
> {
    match action {
        CommentRewriterAction::NoChange => comments,
        CommentRewriterAction::Modify { delete, append } => without_matching(comments, delete) + append@,
        CommentRewriterAction::Replace(l) => l@,
    }
}

/// The header rewrite of the comment editor.
#[derive(Debug)]
pub struct CommentHeaderRewrite {
    config: CommentRewriterConfig,
}

impl CommentHeaderRewrite {
    /// The configuration in use.
    pub closed spec fn config(&self) -> CommentRewriterConfig {
        self.config
    }

    /// Constructs the rewrite.
    pub fn new(config: CommentRewriterConfig) -> (r: CommentHeaderRewrite)
        requires
            config.wf(),
        ensures
            r.config() == config,
    {
        CommentHeaderRewrite { config }
    }
}

impl HeaderRewrite for CommentHeaderRewrite {
    open spec fn ready(&self) -> bool {
        self.config().wf()
    }

    open spec fn rewrite_spec(&self, before: HeadersView) -> Result<HeadersView, Error> {
        Ok((before.0, before.1, before.2, rewritten_comments(self.config().action, before.3), before.4))
    }

    fn rewrite(&self, headers: &mut CodecHeaders) -> (r: Result<(), Error>) {
        match headers {
            CodecHeaders::Opus(_, c) => {
                let list = c.comments_mut();
                match &self.config.action {
                    CommentRewriterAction::NoChange => {},
                    CommentRewriterAction::Replace(tags) => {
                        list.clear();
                        list.extend(tags);
                        proof {
                            assert(Seq::<CommentView>::empty() + tags@ =~= tags@);
                        }
                    },
                    CommentRewriterAction::Modify { delete, append } => {
                        list.remove_matching(delete);
                        list.extend(append);
                    },
                }
            },
            CodecHeaders::Vorbis(_, c) => {
                let list = c.comments_mut();
                match &self.config.action {
                    CommentRewriterAction::NoChange => {},
                    CommentRewriterAction::Replace(tags) => {
                        list.clear();
                        list.extend(tags);
                        proof {
                            assert(Seq::<CommentView>::empty() + tags@ =~= tags@);
                        }
                    },
                    CommentRewriterAction::Modify { delete, append } => {
                        list.remove_matching(delete);
                        list.extend(append);
                    },
                }
            },
        }
        Ok(())
    }
}

/// Summarizes codec headers by returning the comment list
#[derive(Debug)]
pub struct CommentHeaderSummary {}

impl HeaderSummarize for CommentHeaderSummary {
    type Summary = DiscreteCommentList;

    open spec fn summarizes(&self, h: HeadersView, s: DiscreteCommentList) -> bool {
        s@ == h.3
    }

    open spec fn summary_error(&self, h: HeadersView) -> Option<Error> {
        None
    }

    fn summarize(&self, headers: &CodecHeaders) -> (r: Result<DiscreteCommentList, Error>) {
        match headers {
            CodecHeaders::Opus(_, c) => Ok(c.to_discrete_comment_list()),
            CodecHeaders::Vorbis(_, c) => Ok(c.to_discrete_comment_list()),
        }
    }
}

/// The value part of a `KEY=VALUE` argument, unescaped where asked.
pub open spec fn arg_value(c: Seq<char>, escaped: bool) -> Result<Seq<char>, crate::escaping::EscapeDecodeError> {
    let v = c.skip(separator_index(c) + 1);
    if escaped {
        unescaped(v)
    } else {
        Ok(v)
    }
}

/// The field name part of a `KEY=VALUE` argument.
pub open spec fn arg_key(c: Seq<char>) -> Seq<char> {
    c.take(separator_index(c))
}

/// Is `c` a usable `KEY=VALUE` argument?
pub open spec fn arg_ok(c: Seq<char>, escaped: bool) -> bool {
    c.contains('=') && valid_field_name(arg_key(c)) && arg_value(c, escaped) is Ok
}

/// The error that a `KEY=VALUE` argument gives where it is not usable.
pub open spec fn arg_error_matches(c: Seq<char>, escaped: bool, e: Error) -> bool {
    if !c.contains('=') {
        e == Error::MissingCommentSeparator
    } else if !valid_field_name(arg_key(c)) {
        e is InvalidOpusCommentFieldName
    } else {
        e == Error::EscapeDecodeError(arg_value(c, escaped)->Err_0)
    }
}

/// Parses `KEY=VALUE` arguments into a comment list, in order, unescaping
/// values where asked. The first unusable argument fails the whole.
pub fn parse_new_comment_args(comments: &Vec<String>, escaped: bool) -> (r: Result<DiscreteCommentList, Error>)
    ensures
        r is Ok <==> forall|i: int| 0 <= i < comments@.len() ==> arg_ok(#[trigger] comments@[i]@, escaped),
        r is Ok ==> r->Ok_0.wf() && r->Ok_0@.len() == comments@.len() && forall|i: int|
            0 <= i < comments@.len() ==> #[trigger] r->Ok_0@[i] == (arg_key(comments@[i]@), arg_value(comments@[i]@, escaped)->Ok_0),
        r is Err ==> exists|i: int| 0 <= i < comments@.len() && !arg_ok(#[trigger] comments@[i]@, escaped)
            && arg_error_matches(comments@[i]@, escaped, r->Err_0) && forall|j: int| 0 <= j < i ==> arg_ok(#[trigger] comments@[j]@, escaped),
{
    let mut result = DiscreteCommentList::new();
    let mut i: usize = 0;
    while i < comments.len()
        invariant
            i <= comments@.len(),
            result.wf(),
            result@.len() == i,
            forall|j: int| 0 <= j < i ==> arg_ok(#[trigger] comments@[j]@, escaped),
            forall|j: int| 0 <= j < i ==> #[trigger] result@[j] == (arg_key(comments@[j]@), arg_value(comments@[j]@, escaped)->Ok_0),
        decreases comments@.len() - i,
    {
        let c = comments[i].as_str();
        let (key, value) = match parse_comment(c) {
            Ok(kv) => kv,
            Err(e) => {
                return Err(e);
            },
        };
        let ghost before = result@;
        if escaped {
            match unescape_str(value) {
                Ok(v) => {
                    let vs: &str = match &v {
                        Cow::Borrowed(b) => b,
                        Cow::Owned(o) => o.as_str(),
                    };
                    match result.push(key, vs) {
                        Ok(()) => {},
                        Err(e) => {
                            return Err(e);
                        },
                    }
                },
                Err(e) => {
                    return Err(Error::EscapeDecodeError(e));
                },
            }
        } else {
            match result.push(key, value) {
                Ok(()) => {},
                Err(e) => {
                    return Err(e);
                },
            }
        }
        proof {
            assert forall|j: int| 0 <= j < i + 1 implies #[trigger] result@[j] == (arg_key(comments@[j]@), arg_value(comments@[j]@, escaped)->Ok_0) by {
                if j < i {
                    assert(result@[j] == before[j]);
                }
            }
        }
        i = i + 1;
    }
    Ok(result)
}

/// Is `p` a usable delete argument (`KEY` or `KEY=VALUE`)?
pub open spec fn delete_arg_ok(p: Seq<char>, escaped: bool) -> bool {
    if p.contains('=') {
        valid_field_name(arg_key(p)) && arg_value(p, escaped) is Ok
    } else {
        valid_field_name(p)
    }
}

/// Does delete argument `p` cover the comment `k=v`? `KEY` covers every
/// value of the field, `KEY=VALUE` that value alone.
pub open spec fn delete_arg_covers(p: Seq<char>, escaped: bool, k: Seq<char>, v: Seq<char>) -> bool {
    if p.contains('=') {
        ascii_fold_eq(k, arg_key(p)) && v == arg_value(p, escaped)->Ok_0
    } else {
        ascii_fold_eq(k, p)
    }
}

/// Are two field names equal ignoring ASCII case?
pub open spec fn ascii_fold_eq(a: Seq<char>, b: Seq<char>) -> bool {
    crate::text::ascii_fold(a) == crate::text::ascii_fold(b)
}

/// Parses delete arguments (`KEY` or `KEY=VALUE`) into one delete request.
/// The first unusable argument fails the whole.
pub fn parse_delete_comment_args(patterns: &Vec<String>, escaped: bool) -> (r: Result<KeyValueMatch, Error>)
    ensures
        r is Ok <==> forall|i: int| 0 <= i < patterns@.len() ==> delete_arg_ok(#[trigger] patterns@[i]@, escaped),
        r is Ok ==> forall|k: Seq<char>, v: Seq<char>| #[trigger] r->Ok_0.covers(k, v) <==> exists|i: int|
            0 <= i < patterns@.len() && delete_arg_covers(#[trigger] patterns@[i]@, escaped, k, v),
{
    let mut result = KeyValueMatch::new();
    let mut i: usize = 0;
    while i < patterns.len()
        invariant
            i <= patterns@.len(),
            forall|j: int| 0 <= j < i ==> delete_arg_ok(#[trigger] patterns@[j]@, escaped),
            forall|k: Seq<char>, v: Seq<char>| #[trigger] result.covers(k, v) <==> exists|j: int|
                0 <= j < i && delete_arg_covers(#[trigger] patterns@[j]@, escaped, k, v),
        decreases patterns@.len() - i,
    {
        let p = patterns[i].as_str();
        let ghost pv = p@;
        let ghost before = result;
        match parse_comment(p) {
            Ok((key, value)) => {
                let rhs = if escaped {
                    match unescape_str(value) {
                        Ok(Cow::Borrowed(b)) => ValueMatch::singleton(b.to_owned()),
                        Ok(Cow::Owned(o)) => ValueMatch::singleton(o),
                        Err(e) => {
                            return Err(Error::EscapeDecodeError(e));
                        },
                    }
                } else {
                    ValueMatch::singleton(value.to_owned())
                };
                result.add(key.to_owned(), rhs);
            },
            Err(_) => {
                match validate_comment_field_name(p) {
                    Ok(()) => {},
                    Err(e) => {
                        return Err(e);
                    },
                }
                result.add(p.to_owned(), ValueMatch::All);
            },
        }
        proof {
            assert forall|k: Seq<char>, v: Seq<char>| #[trigger] result.covers(k, v) <==> exists|j: int|
                0 <= j < i + 1 && delete_arg_covers(#[trigger] patterns@[j]@, escaped, k, v) by {
                if result.covers(k, v) && !before.covers(k, v) {
                    assert(delete_arg_covers(patterns@[i as int]@, escaped, k, v));
                }
                if exists|j: int| 0 <= j < i + 1 && delete_arg_covers(#[trigger] patterns@[j]@, escaped, k, v) {
                    let j = choose|j: int| 0 <= j < i + 1 && delete_arg_covers(#[trigger] patterns@[j]@, escaped, k, v);
                    if j < i {
                        assert(before.covers(k, v));
                    }
                }
            }
        }
        i = i + 1;
    }
    Ok(result)
}

} // verus!
