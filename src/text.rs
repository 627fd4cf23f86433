use vstd::prelude::*;

verus! {

/// Relies on `String::push`: appends one character.
#[verifier::external_body]
pub(crate) fn push_char(s: &mut String, c: char)
    ensures
        final(s)@ == old(s)@.push(c),
{
    s.push(c)
}

/// ASCII upper-casing of one character; other characters are unchanged.
pub open spec fn ascii_upper(c: char) -> char {
    if 'a' <= c && c <= 'z' {
        ((c as u8) - 32) as char
    } else {
        c
    }
}

/// ASCII upper-casing of a whole string.
pub open spec fn ascii_fold(s: Seq<char>) -> Seq<char> {
    s.map_values(|c: char| ascii_upper(c))
}

fn ascii_upper_exec(c: char) -> (r: char)
    ensures
        r == ascii_upper(c),
{
    if 'a' <= c && c <= 'z' {
        ((c as u8) - 32) as char
    } else {
        c
    }
}

/// The ASCII upper-cased copy of `s`.
pub fn to_ascii_upper(s: &str) -> (r: String)
    ensures
        r@ == ascii_fold(s@),
{
    let mut result = String::new();
    for c in it: s.chars()
        invariant
            it.seq() == s@,
            result@ == ascii_fold(s@.take(it.index() as int)),
    {
        push_char(&mut result, ascii_upper_exec(c));
        proof {
            assert(result@ =~= ascii_fold(s@.take(it.index() + 1)));
        }
    }
    proof {
        assert(s@.take(s@.len() as int) =~= s@);
    }
    result
}

/// Do two strings match, ignoring ASCII case?
pub fn keys_equal(k1: &str, k2: &str) -> (r: bool)
    ensures
        r == (ascii_fold(k1@) == ascii_fold(k2@)),
{
    let a = to_ascii_upper(k1);
    let b = to_ascii_upper(k2);
    a == b
}

} // verus!
