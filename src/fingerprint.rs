//! Rendering of a key fingerprint as the server expects it: uppercase
//! hexadecimal, two digits per byte, no separators.

use vstd::prelude::*;
use crate::text::string_of;

verus! {

/// The sixteen uppercase hexadecimal digits, in order of value.
pub open spec fn hex_digits() -> Seq<char> {
    seq!['0', '1', '2', '3', '4', '5', '6', '7', '8', '9', 'A', 'B', 'C', 'D', 'E', 'F']
}

/// Whether `c` is one of `0`-`9`, `A`-`F`.
pub open spec fn is_upper_hex_digit(c: char) -> bool {
    ('0' <= c && c <= '9') || ('A' <= c && c <= 'F')
}

/// The two digits of `b`, high nibble first.
pub open spec fn byte_hex(b: u8) -> Seq<char> {
    seq![hex_digits()[(b / 16) as int], hex_digits()[(b % 16) as int]]
}

/// The uppercase hexadecimal rendering of `bytes`, concatenated without separators.
pub open spec fn upper_hex(bytes: Seq<u8>) -> Seq<char>
    decreases bytes.len(),
{
    if bytes.len() == 0 {
        Seq::empty()
    } else {
        upper_hex(bytes.drop_last()) + byte_hex(bytes.last())
    }
}

/// A fingerprint of `N` bytes renders as exactly `2N` characters, each an
/// uppercase hexadecimal digit (so no separator appears), and byte `i` gives
/// the characters at `2i` and `2i + 1`.
pub proof fn lemma_fingerprint_shape(bytes: Seq<u8>)
    ensures
        upper_hex(bytes).len() == 2 * bytes.len(),
        forall|i: int| 0 <= i < upper_hex(bytes).len() ==> is_upper_hex_digit(#[trigger] upper_hex(bytes)[i]),
        forall|i: int| 0 <= i < bytes.len() ==> upper_hex(bytes).subrange(2 * i, 2 * i + 2) == byte_hex(#[trigger] bytes[i]),
    decreases bytes.len(),
{
    if bytes.len() > 0 {
        let init = bytes.drop_last();
        lemma_fingerprint_shape(init);
        let h = upper_hex(bytes);
        let b = bytes.last();
        assert(is_upper_hex_digit(hex_digits()[(b / 16) as int]));
        assert(is_upper_hex_digit(hex_digits()[(b % 16) as int]));
        assert forall|i: int| 0 <= i < h.len() implies is_upper_hex_digit(#[trigger] h[i]) by {
            if i < upper_hex(init).len() {
                assert(h[i] == upper_hex(init)[i]);
            }
        }
        assert forall|i: int| 0 <= i < bytes.len() implies h.subrange(2 * i, 2 * i + 2)
            == byte_hex(#[trigger] bytes[i]) by {
            if i < init.len() {
                assert(init[i] == bytes[i]);
                assert(h.subrange(2 * i, 2 * i + 2) =~= upper_hex(init).subrange(2 * i, 2 * i + 2));
            } else {
                assert(h.subrange(2 * i, 2 * i + 2) =~= byte_hex(b));
            }
        }
    }
}

/// Renders a fingerprint as uppercase hexadecimal, two digits per byte, without separators.
pub fn fingerprint_hex(fingerprint: &[u8]) -> (r: String)
    ensures
        r@ == upper_hex(fingerprint@),
        r@.len() == 2 * fingerprint@.len(),
        forall|i: int| 0 <= i < r@.len() ==> is_upper_hex_digit(#[trigger] r@[i]),
{
    let digits: Vec<char> = vec!['0', '1', '2', '3', '4', '5', '6', '7', '8', '9', 'A', 'B', 'C', 'D', 'E', 'F'];
    assert(digits@ == hex_digits());
    let mut out: Vec<char> = Vec::new();
    let mut i: usize = 0;
    while i < fingerprint.len()
        invariant
            i <= fingerprint@.len(),
            digits@ == hex_digits(),
            out@ == upper_hex(fingerprint@.subrange(0, i as int)),
        decreases fingerprint.len() - i,
    {
        let b = fingerprint[i];
        out.push(digits[(b / 16) as usize]);
        out.push(digits[(b % 16) as usize]);
        proof {
            let next = fingerprint@.subrange(0, i + 1);
            assert(next.drop_last() =~= fingerprint@.subrange(0, i as int));
        }
        i = i + 1;
        assert(out@ =~= upper_hex(fingerprint@.subrange(0, i as int)));
    }
    assert(fingerprint@.subrange(0, fingerprint@.len() as int) =~= fingerprint@);
    proof {
        lemma_fingerprint_shape(fingerprint@);
    }
    string_of(&out)
}

} // verus!
