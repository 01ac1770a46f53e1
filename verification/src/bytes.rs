//! Byte helpers: lowercase hexadecimal rendering and byte-array comparison.

use vstd::prelude::*;

verus! {

/// The lowercase hexadecimal digit for a value below 16.
pub open spec fn hex_digit(v: u8) -> char {
    if v < 10 {
        (('0' as u8) + v) as char
    } else {
        (('a' as u8) + (v - 10)) as char
    }
}

/// Lowercase hexadecimal rendering of a byte sequence: two digits per byte,
/// high nibble first.
pub open spec fn hex_lower(data: Seq<u8>) -> Seq<char>
    decreases data.len(),
{
    if data.len() == 0 {
        Seq::empty()
    } else {
        seq![hex_digit(data[0] / 16), hex_digit(data[0] % 16)] + hex_lower(data.drop_first())
    }
}

/// Calls `hex::encode`, which renders its input as a string of lowercase
/// hexadecimal digits, two per byte, high nibble first. The contract claims
/// exactly that rendering.
#[verifier::external_body]
pub(crate) fn hex_encode(data: &[u8]) -> (s: String)
    ensures
        s@ == hex_lower(data@),
{
    hex::encode(data)
}

/// Compares two byte arrays element by element.
pub fn bytes_eq<const N: usize>(a: &[u8; N], b: &[u8; N]) -> (r: bool)
    ensures
        r == (*a == *b),
{
    let mut i: usize = 0;
    while i < N
        invariant
            0 <= i <= N,
            a@.len() == N,
            b@.len() == N,
            forall|j: int| 0 <= j < i ==> a@[j] == b@[j],
        decreases N - i,
    {
        if a[i] != b[i] {
            return false;
        }
        i = i + 1;
    }
    assert(*a =~= *b);
    true
}

/// A UUID's hyphenated lowercase text: 8-4-4-4-12 hexadecimal digits.
pub open spec fn uuid_text(b: Seq<u8>) -> Seq<char> {
    hex_lower(b.subrange(0, 4)) + seq!['-'] + hex_lower(b.subrange(4, 6)) + seq!['-']
        + hex_lower(b.subrange(6, 8)) + seq!['-'] + hex_lower(b.subrange(8, 10)) + seq!['-']
        + hex_lower(b.subrange(10, 16))
}

/// Appends lowercase hex of `b[lo..hi]` to `s`.
fn push_hex(s: &mut String, b: &[u8; 16], lo: usize, hi: usize)
    requires
        lo <= hi <= 16,
    ensures
        final(s)@ == old(s)@ + hex_lower(b@.subrange(lo as int, hi as int)),
{
    let all: &[u8] = b.as_slice();
    let part: &[u8] = &all[lo..hi];
    let h = hex_encode(part);
    s.append(h.as_str());
}

/// Renders 16 UUID bytes as hyphenated lowercase text.
pub fn uuid_to_text(b: &[u8; 16]) -> (s: String)
    ensures
        s@ == uuid_text(b@),
{
    let mut s = String::new();
    push_hex(&mut s, b, 0, 4);
    s.append("-");
    push_hex(&mut s, b, 4, 6);
    s.append("-");
    push_hex(&mut s, b, 6, 8);
    s.append("-");
    push_hex(&mut s, b, 8, 10);
    s.append("-");
    push_hex(&mut s, b, 10, 16);
    proof {
        reveal_strlit("-");
    }
    assert(s@ =~= uuid_text(b@));
    s
}

} // verus!
