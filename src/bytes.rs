use vstd::prelude::*;
use vstd::utf8::{decode_utf8, valid_utf8};

verus! {

/// The little-endian `u32` held in `b[i..i + 4]`.
pub open spec fn le_u32(b: Seq<u8>, i: int) -> int {
    b[i] + 256 * b[i + 1] + 65536 * b[i + 2] + 16777216 * b[i + 3]
}

/// The four little-endian bytes of `n`.
pub open spec fn u32_le_bytes(n: int) -> Seq<u8> {
    seq![(n % 256) as u8, ((n / 256) % 256) as u8, ((n / 65536) % 256) as u8, ((n / 16777216) % 256) as u8]
}

/// The little-endian `u16` held in `b[i..i + 2]`.
pub open spec fn le_u16(b: Seq<u8>, i: int) -> int {
    b[i] + 256 * b[i + 1]
}

/// The little-endian `i16` held in `b[i..i + 2]`.
pub open spec fn le_i16(b: Seq<u8>, i: int) -> int {
    if le_u16(b, i) >= 32768 {
        le_u16(b, i) - 65536
    } else {
        le_u16(b, i)
    }
}

/// Reads the little-endian `u32` at `data[i..i + 4]`.
pub fn read_u32_le(data: &[u8], i: usize) -> (r: u32)
    requires
        i + 4 <= data@.len(),
    ensures
        r == le_u32(data@, i as int),
{
    let v: u64 = data[i] as u64 + 256 * data[i + 1] as u64 + 65536 * data[i + 2] as u64 + 16777216
        * data[i + 3] as u64;
    v as u32
}

/// Reads the little-endian `i16` at `data[i..i + 2]`.
pub fn read_i16_le(data: &[u8], i: usize) -> (r: i16)
    requires
        i + 2 <= data@.len(),
    ensures
        r == le_i16(data@, i as int),
{
    let v: u32 = data[i] as u32 + 256 * data[i + 1] as u32;
    if v >= 32768 {
        (v as i32 - 65536) as i16
    } else {
        v as i16
    }
}

/// Appends the four little-endian bytes of `n`.
pub fn push_u32_le(out: &mut Vec<u8>, n: u32)
    ensures
        final(out)@ == old(out)@ + u32_le_bytes(n as int),
{
    out.push((n % 256) as u8);
    out.push(((n / 256) % 256) as u8);
    out.push(((n / 65536) % 256) as u8);
    out.push(((n / 16777216) % 256) as u8);
    proof {
        assert(final(out)@ =~= old(out)@ + u32_le_bytes(n as int));
    }
}

/// Appends the bytes of `b`.
pub fn push_bytes(out: &mut Vec<u8>, b: &[u8])
    ensures
        final(out)@ == old(out)@ + b@,
{
    let mut i: usize = 0;
    while i < b.len()
        invariant
            i <= b@.len(),
            out@ == old(out)@ + b@.take(i as int),
        decreases b@.len() - i,
    {
        out.push(b[i]);
        i = i + 1;
        proof {
            assert(out@ =~= old(out)@ + b@.take(i as int));
        }
    }
    proof {
        assert(b@.take(i as int) =~= b@);
    }
}

/// Do both byte strings hold the same bytes?
pub fn bytes_equal(a: &[u8], b: &[u8]) -> (r: bool)
    ensures
        r == (a@ == b@),
{
    if a.len() != b.len() {
        return false;
    }
    let mut i: usize = 0;
    while i < a.len()
        invariant
            i <= a@.len(),
            a@.len() == b@.len(),
            forall|j: int| 0 <= j < i ==> a@[j] == b@[j],
        decreases a@.len() - i,
    {
        if a[i] != b[i] {
            return false;
        }
        i = i + 1;
    }
    proof {
        assert(a@ =~= b@);
    }
    true
}

/// Writing a `u32` and reading it back gives it again.
pub proof fn lemma_u32_le_round_trip(n: int)
    requires
        0 <= n < 0x1_0000_0000,
    ensures
        le_u32(u32_le_bytes(n), 0) == n,
{
    let b = u32_le_bytes(n);
    let b0 = n % 256;
    let b1 = (n / 256) % 256;
    let b2 = (n / 65536) % 256;
    let b3 = (n / 16777216) % 256;
    assert(b[0] == b0 && b[1] == b1 && b[2] == b2 && b[3] == b3);
    assert(b0 + 256 * b1 + 65536 * b2 + 16777216 * b3 == n) by (nonlinear_arith)
        requires
            0 <= n < 0x1_0000_0000,
            b0 == n % 256,
            b1 == (n / 256) % 256,
            b2 == (n / 65536) % 256,
            b3 == (n / 16777216) % 256,
    {
        assert(n == 256 * (n / 256) + n % 256);
        assert(n / 256 == 256 * (n / 65536) + (n / 256) % 256) by {
            assert(n / 65536 == (n / 256) / 256);
        }
        assert(n / 65536 == 256 * (n / 16777216) + (n / 65536) % 256) by {
            assert(n / 16777216 == (n / 65536) / 256);
        }
        assert(n / 16777216 < 256);
    }
}

/// Reading four bytes as a `u32` and writing it back gives the same bytes.
pub proof fn lemma_le_u32_bytes_round_trip(b: Seq<u8>, i: int)
    requires
        0 <= i,
        i + 4 <= b.len(),
    ensures
        0 <= le_u32(b, i) < 0x1_0000_0000,
        u32_le_bytes(le_u32(b, i)) == b.subrange(i, i + 4),
{
    let x0 = b[i] as int;
    let x1 = b[i + 1] as int;
    let x2 = b[i + 2] as int;
    let x3 = b[i + 3] as int;
    let n = le_u32(b, i);
    assert(0 <= n < 0x1_0000_0000);
    assert(n % 256 == x0 && (n / 256) % 256 == x1 && (n / 65536) % 256 == x2 && (n / 16777216) % 256
        == x3) by (nonlinear_arith)
        requires
            n == x0 + 256 * x1 + 65536 * x2 + 16777216 * x3,
            0 <= x0 < 256,
            0 <= x1 < 256,
            0 <= x2 < 256,
            0 <= x3 < 256,
    {
        assert(n / 256 == x1 + 256 * x2 + 65536 * x3);
        assert(n / 65536 == x2 + 256 * x3);
        assert(n / 16777216 == x3);
    }
    assert(u32_le_bytes(n) =~= b.subrange(i, i + 4));
}

/// Relies on `std::str::from_utf8`: it succeeds exactly on valid UTF-8 and
/// then holds the decoded characters.
#[verifier::external_body]
pub(crate) fn utf8_to_string(b: &[u8]) -> (r: Option<String>)
    ensures
        r is Some <==> valid_utf8(b@),
        r is Some ==> r->Some_0@ == decode_utf8(b@),
{
    String::from_utf8(b.to_vec()).ok()
}

} // verus!
