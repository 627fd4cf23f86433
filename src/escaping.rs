use std::borrow::Cow;
use vstd::prelude::*;

use crate::text::push_char;

verus! {

/// The escape character.
pub const ESCAPE_CHAR: char = '\\';

/// Is this one of the characters that are written as an escape sequence?
pub open spec fn is_escaped_char(c: char) -> bool {
    c == '\0' || c == '\n' || c == '\r' || c == '\\'
}

/// The character that follows the backslash when `c` is escaped.
pub open spec fn escape_code(c: char) -> char {
    if c == '\0' {
        '0'
    } else if c == '\n' {
        'n'
    } else if c == '\r' {
        'r'
    } else {
        '\\'
    }
}

/// The character that an escape sequence `\c` stands for, if any.
pub open spec fn unescape_code(c: char) -> Option<char> {
    if c == '0' {
        Some('\0')
    } else if c == 'n' {
        Some('\n')
    } else if c == 'r' {
        Some('\r')
    } else if c == '\\' {
        Some('\\')
    } else {
        None
    }
}

/// The escaped form of a single character.
pub open spec fn escape_one(c: char) -> Seq<char> {
    if is_escaped_char(c) {
        seq![ESCAPE_CHAR, escape_code(c)]
    } else {
        seq![c]
    }
}

/// `vorbiscomment`-style escaping of a whole string.
pub open spec fn escaped(s: Seq<char>) -> Seq<char>
    decreases s.len(),
{
    if s.len() == 0 {
        Seq::empty()
    } else {
        escaped(s.drop_last()) + escape_one(s.last())
    }
}

/// Does the string hold any character that escaping changes?
pub open spec fn needs_escaping(s: Seq<char>) -> bool {
    exists|i: int| 0 <= i < s.len() && is_escaped_char(#[trigger] s[i])
}

fn is_escaped_char_exec(c: char) -> (r: bool)
    ensures
        r == is_escaped_char(c),
{
    c == '\0' || c == '\n' || c == '\r' || c == '\\'
}

proof fn lemma_escaped_unchanged(s: Seq<char>)
    requires
        !needs_escaping(s),
    ensures
        escaped(s) == s,
    decreases s.len(),
{
    if s.len() > 0 {
        assert(!needs_escaping(s.drop_last())) by {
            if needs_escaping(s.drop_last()) {
                let i = choose|i: int| 0 <= i < s.drop_last().len() && is_escaped_char(#[trigger] s.drop_last()[i]);
                assert(s[i] == s.drop_last()[i]);
            }
        }
        lemma_escaped_unchanged(s.drop_last());
        assert(s.drop_last().push(s.last()) =~= s);
        assert(!is_escaped_char(s[s.len() - 1]));
    }
}

/// Escapes a string slice using `vorbiscomment`-style escaping. The input is
/// handed back borrowed when nothing needed escaping.
pub fn escape_str(value: &str) -> (r: Cow<'_, str>)
    ensures
        r@ == escaped(value@),
        r is Borrowed <==> !needs_escaping(value@),
{
    let mut special = false;
    for c in it: value.chars()
        invariant
            it.seq() == value@,
            special <==> exists|j: int| 0 <= j < it.index() && is_escaped_char(#[trigger] value@[j]),
    {
        if is_escaped_char_exec(c) {
            special = true;
        }
    }
    if !special {
        proof {
            lemma_escaped_unchanged(value@);
        }
        return Cow::Borrowed(value);
    }
    let mut result = String::new();
    for c in it: value.chars()
        invariant
            it.seq() == value@,
            result@ == escaped(value@.take(it.index() as int)),
    {
        proof {
            assert(value@.take(it.index() + 1).drop_last() =~= value@.take(it.index() as int));
        }
        if is_escaped_char_exec(c) {
            push_char(&mut result, ESCAPE_CHAR);
            let code = if c == '\0' {
                '0'
            } else if c == '\n' {
                'n'
            } else if c == '\r' {
                'r'
            } else {
                '\\'
            };
            push_char(&mut result, code);
        } else {
            push_char(&mut result, c);
        }
        proof {
            assert(result@ =~= escaped(value@.take(it.index() + 1)));
        }
    }
    proof {
        assert(value@.take(value@.len() as int) =~= value@);
    }
    Cow::Owned(result)
}

/// Why an escaped string could not be decoded.
#[derive(Debug, Clone, Copy, PartialEq, Eq, Structural)]
pub enum EscapeDecodeError {
    /// The string ended with a backslash
    TrailingBackSlash,
    /// An invalid character followed a backslash in an escaped string
    InvalidEscape(char),
}

/// Puts `p` in front of a successful decode; an error stays as it is.
pub open spec fn prepend(p: Seq<char>, r: Result<Seq<char>, EscapeDecodeError>) -> Result<
    Seq<char>,
    EscapeDecodeError,
> {
    match r {
        Ok(t) => Ok(p + t),
        Err(e) => Err(e),
    }
}

/// Decoding of a `vorbiscomment`-style escaped string, reporting the first
/// fault from the left.
pub open spec fn unescaped(s: Seq<char>) -> Result<Seq<char>, EscapeDecodeError>
    decreases s.len(),
{
    if s.len() == 0 {
        Ok(Seq::empty())
    } else if s[0] != ESCAPE_CHAR {
        prepend(seq![s[0]], unescaped(s.drop_first()))
    } else if s.len() == 1 {
        Err(EscapeDecodeError::TrailingBackSlash)
    } else {
        match unescape_code(s[1]) {
            Some(c) => prepend(seq![c], unescaped(s.subrange(2, s.len() as int))),
            None => Err(EscapeDecodeError::InvalidEscape(s[1])),
        }
    }
}

proof fn lemma_prepend_prepend(a: Seq<char>, b: Seq<char>, r: Result<Seq<char>, EscapeDecodeError>)
    ensures
        prepend(a, prepend(b, r)) == prepend(a + b, r),
{
    match r {
        Ok(t) => {
            assert(a + (b + t) =~= (a + b) + t);
        },
        Err(e) => {},
    }
}

proof fn lemma_unescaped_unchanged(s: Seq<char>)
    requires
        !s.contains(ESCAPE_CHAR),
    ensures
        unescaped(s) == Ok::<Seq<char>, EscapeDecodeError>(s),
    decreases s.len(),
{
    if s.len() > 0 {
        assert(s[0] != ESCAPE_CHAR) by {
            if s[0] == ESCAPE_CHAR {
                assert(s.contains(ESCAPE_CHAR));
            }
        }
        assert(!s.drop_first().contains(ESCAPE_CHAR)) by {
            if s.drop_first().contains(ESCAPE_CHAR) {
                let i = choose|i: int| 0 <= i < s.drop_first().len() && s.drop_first()[i] == ESCAPE_CHAR;
                assert(s[i + 1] == ESCAPE_CHAR);
            }
        }
        lemma_unescaped_unchanged(s.drop_first());
        assert(seq![s[0]] + s.drop_first() =~= s);
    } else {
        assert(s =~= Seq::<char>::empty());
    }
}

/// Unescapes a string slice using `vorbiscomment`-style escaping. The input
/// is handed back borrowed when it holds no backslash.
pub fn unescape_str(value: &str) -> (r: Result<Cow<'_, str>, EscapeDecodeError>)
    ensures
        r is Ok <==> unescaped(value@) is Ok,
        r is Ok ==> r->Ok_0@ == unescaped(value@)->Ok_0,
        r is Err ==> r->Err_0 == unescaped(value@)->Err_0,
        r is Ok ==> (r->Ok_0 is Borrowed <==> !value@.contains(ESCAPE_CHAR)),
{
    let mut has_escape = false;
    for c in it: value.chars()
        invariant
            it.seq() == value@,
            has_escape <==> value@.take(it.index() as int).contains(ESCAPE_CHAR),
    {
        proof {
            let t = value@.take(it.index() + 1);
            assert(t.drop_last() =~= value@.take(it.index() as int));
            if t.contains(ESCAPE_CHAR) {
                let j = choose|j: int| 0 <= j < t.len() && t[j] == ESCAPE_CHAR;
                if j < t.len() - 1 {
                    assert(t.drop_last()[j] == ESCAPE_CHAR);
                }
            }
            if value@.take(it.index() as int).contains(ESCAPE_CHAR) {
                let j = choose|j: int| 0 <= j < it.index() && value@.take(it.index() as int)[j] == ESCAPE_CHAR;
                assert(t[j] == ESCAPE_CHAR);
            }
            if c == ESCAPE_CHAR {
                assert(t[it.index() as int] == ESCAPE_CHAR);
            }
        }
        if c == ESCAPE_CHAR {
            has_escape = true;
        }
    }
    proof {
        assert(value@.take(value@.len() as int) =~= value@);
    }
    if !has_escape {
        proof {
            lemma_unescaped_unchanged(value@);
        }
        return Ok(Cow::Borrowed(value));
    }
    let mut result = String::new();
    let mut is_escape = false;
    for c in it: value.chars()
        invariant
            it.seq() == value@,
            !is_escape ==> unescaped(value@) == prepend(result@, unescaped(value@.skip(it.index() as int))),
            is_escape ==> it.index() >= 1 && value@[it.index() - 1] == ESCAPE_CHAR && unescaped(value@)
                == prepend(result@, unescaped(value@.skip(it.index() - 1))),
    {
        let ghost i = it.index() as int;
        let ghost before = result@;
        if is_escape {
            let decoded = if c == '0' {
                '\0'
            } else if c == 'n' {
                '\n'
            } else if c == 'r' {
                '\r'
            } else if c == '\\' {
                '\\'
            } else {
                proof {
                    let t = value@.skip(i - 1);
                    assert(t[1] == c);
                }
                return Err(EscapeDecodeError::InvalidEscape(c));
            };
            push_char(&mut result, decoded);
            is_escape = false;
            proof {
                let t = value@.skip(i - 1);
                assert(t[1] == c);
                assert(t.subrange(2, t.len() as int) =~= value@.skip(i + 1));
                lemma_prepend_prepend(before, seq![decoded], unescaped(value@.skip(i + 1)));
                assert(before + seq![decoded] =~= result@);
            }
        } else if c == ESCAPE_CHAR {
            is_escape = true;
        } else {
            push_char(&mut result, c);
            proof {
                let t = value@.skip(i);
                assert(t[0] == c);
                assert(t.drop_first() =~= value@.skip(i + 1));
                lemma_prepend_prepend(before, seq![c], unescaped(value@.skip(i + 1)));
                assert(before + seq![c] =~= result@);
            }
        }
    }
    if is_escape {
        proof {
            let t = value@.skip(value@.len() - 1);
            assert(t.len() == 1);
        }
        Err(EscapeDecodeError::TrailingBackSlash)
    } else {
        proof {
            assert(value@.skip(value@.len() as int) =~= Seq::<char>::empty());
            assert(result@ + Seq::<char>::empty() =~= result@);
        }
        Ok(Cow::Owned(result))
    }
}

proof fn lemma_escaped_append(a: Seq<char>, b: Seq<char>)
    ensures
        escaped(a + b) == escaped(a) + escaped(b),
    decreases b.len(),
{
    if b.len() == 0 {
        assert(a + b =~= a);
        assert(escaped(a) + Seq::<char>::empty() =~= escaped(a));
    } else {
        lemma_escaped_append(a, b.drop_last());
        assert((a + b).drop_last() =~= a + b.drop_last());
        assert((a + b).last() == b.last());
        assert(escaped(a) + escaped(b.drop_last()) + escape_one(b.last()) =~= escaped(a) + (escaped(
            b.drop_last(),
        ) + escape_one(b.last())));
    }
}

/// Escaping is undone by unescaping, and an escaped string holds no NUL, line
/// feed or carriage return.
pub proof fn lemma_escape_round_trip(s: Seq<char>)
    ensures
        unescaped(escaped(s)) == Ok::<Seq<char>, EscapeDecodeError>(s),
        !escaped(s).contains('\0'),
        !escaped(s).contains('\n'),
        !escaped(s).contains('\r'),
    decreases s.len(),
{
    if s.len() == 0 {
        assert(s =~= Seq::<char>::empty());
        assert(escaped(s).len() == 0);
    } else {
        let rest = s.drop_first();
        lemma_escape_round_trip(rest);
        assert(seq![s[0]] + rest =~= s);
        lemma_escaped_append(seq![s[0]], rest);
        assert(seq![s[0]].drop_last() =~= Seq::<char>::empty());
        assert(seq![s[0]].last() == s[0]);
        assert(escaped(Seq::<char>::empty()) == Seq::<char>::empty());
        assert(escaped(seq![s[0]]) =~= Seq::<char>::empty() + escape_one(s[0]));
        assert(escaped(seq![s[0]]) =~= escape_one(s[0]));
        let e = escaped(s);
        assert(e == escape_one(s[0]) + escaped(rest));
        if is_escaped_char(s[0]) {
            assert(e.subrange(2, e.len() as int) =~= escaped(rest));
            assert(seq![s[0]] + rest =~= s);
        } else {
            assert(e.drop_first() =~= escaped(rest));
        }
        assert forall|c: char| c == '\0' || c == '\n' || c == '\r' implies !e.contains(c) by {
            if e.contains(c) {
                let j = choose|j: int| 0 <= j < e.len() && e[j] == c;
                let k = escape_one(s[0]).len() as int;
                if j >= k {
                    assert(escaped(rest)[j - k] == c);
                    assert(escaped(rest).contains(c));
                }
            }
        }
    }
}

} // verus!
