//! Text utilities: UTF-8 facts, byte-range slicing of strings, comparison
//! with literals and decimal rendering.

use vstd::prelude::*;
use vstd::string::*;
use vstd::utf8::*;

verus! {

broadcast use vstd::utf8::group_utf8_lib;

/// The characters of `bytes[a..b]`, where `bytes` is a UTF-8 encoding.
pub open spec fn decoded(bytes: Seq<u8>, a: int, b: int) -> Seq<char> {
    decode_utf8(bytes.subrange(a, b))
}

/// A string's characters are the decoding of its bytes.
pub proof fn lemma_str_decode(s: &str)
    ensures
        decode_utf8(s.spec_bytes()) == s@,
        valid_utf8(s.spec_bytes()),
{
    encode_utf8_decode_utf8(s@);
    encode_utf8_valid_utf8(s@);
}

/// Two character sequences with equal encodings are equal.
pub proof fn lemma_encode_injective(a: Seq<char>, b: Seq<char>)
    requires
        encode_utf8(a) == encode_utf8(b),
    ensures
        a == b,
{
    encode_utf8_decode_utf8(a);
    encode_utf8_decode_utf8(b);
}

/// `s@ == lit@`, decided by comparing the encodings byte by byte.
pub fn text_is(s: &str, lit: &str) -> (r: bool)
    ensures
        r == (s@ == lit@),
{
    let a = s.as_bytes();
    let b = lit.as_bytes();
    if a.len() != b.len() {
        proof {
            if s@ == lit@ {
                assert(a@ == b@);
            }
        }
        return false;
    }
    let mut i: usize = 0;
    while i < a.len()
        invariant
            a@ == s.spec_bytes(),
            b@ == lit.spec_bytes(),
            a@.len() == b@.len(),
            i <= a@.len(),
            forall|j: int| 0 <= j < i ==> a@[j] == b@[j],
        decreases a@.len() - i,
    {
        if a[i] != b[i] {
            proof {
                if s@ == lit@ {
                    assert(a@ == b@);
                }
            }
            return false;
        }
        i += 1;
    }
    proof {
        assert(a@ =~= b@);
        lemma_encode_injective(s@, lit@);
    }
    true
}


/// A character boundary of `bytes` lying in `[a, c]` (both boundaries) is a
/// boundary of `bytes[a..c]`, and that range is itself valid UTF-8.
pub proof fn lemma_sub_boundary(bytes: Seq<u8>, a: int, x: int, c: int)
    requires
        valid_utf8(bytes),
        0 <= a <= x <= c <= bytes.len(),
        is_char_boundary(bytes, a),
        is_char_boundary(bytes, x),
        is_char_boundary(bytes, c),
    ensures
        valid_utf8(bytes.subrange(a, c)),
        is_char_boundary(bytes.subrange(a, c), x - a),
{
    let pre = bytes.subrange(0, c);
    valid_utf8_split(bytes, c);
    assert(is_char_boundary(pre, a)) by {
        if a < c {
            is_char_boundary_iff_not_is_continuation_byte(bytes, a);
            is_char_boundary_iff_not_is_continuation_byte(pre, a);
        } else {
            is_char_boundary_start_end_of_seq(pre);
        }
    }
    valid_utf8_split(pre, a);
    let mid = bytes.subrange(a, c);
    assert(pre.subrange(a, pre.len() as int) =~= mid);
    if x - a < mid.len() {
        is_char_boundary_iff_not_is_continuation_byte(bytes, x);
        is_char_boundary_iff_not_is_continuation_byte(mid, x - a);
    } else {
        is_char_boundary_start_end_of_seq(mid);
    }
}

/// Decoding distributes over a split at a character boundary.
pub proof fn lemma_decoded_concat(bytes: Seq<u8>, a: int, b: int, c: int)
    requires
        valid_utf8(bytes),
        0 <= a <= b <= c <= bytes.len(),
        is_char_boundary(bytes, a),
        is_char_boundary(bytes, b),
        is_char_boundary(bytes, c),
    ensures
        decoded(bytes, a, b) + decoded(bytes, b, c) == decoded(bytes, a, c),
{
    lemma_sub_boundary(bytes, a, b, c);
    let mid = bytes.subrange(a, c);
    decode_utf8_split(mid, b - a);
    assert(mid.subrange(0, b - a) =~= bytes.subrange(a, b));
    assert(mid.subrange(b - a, mid.len() as int) =~= bytes.subrange(b, c));
}

/// An empty range decodes to nothing.
pub proof fn lemma_decoded_empty(bytes: Seq<u8>, a: int)
    requires
        0 <= a <= bytes.len(),
    ensures
        decoded(bytes, a, a) == Seq::<char>::empty(),
{
    assert(bytes.subrange(a, a) =~= Seq::<u8>::empty());
}

/// The whole of a string's bytes decodes to the string.
pub proof fn lemma_decoded_all(s: &str)
    ensures
        decoded(s.spec_bytes(), 0, s.spec_bytes().len() as int) == s@,
        valid_utf8(s.spec_bytes()),
        is_char_boundary(s.spec_bytes(), 0),
        is_char_boundary(s.spec_bytes(), s.spec_bytes().len() as int),
{
    lemma_str_decode(s);
    assert(s.spec_bytes().subrange(0, s.spec_bytes().len() as int) =~= s.spec_bytes());
    is_char_boundary_start_end_of_seq(s.spec_bytes());
}

/// The text of `s` between the byte offsets `a` and `b`.
pub fn slice_bytes(s: &str, a: usize, b: usize) -> (r: String)
    requires
        a <= b <= s.spec_bytes().len(),
        is_char_boundary(s.spec_bytes(), a as int),
        is_char_boundary(s.spec_bytes(), b as int),
    ensures
        r@ == decoded(s.spec_bytes(), a as int, b as int),
{
    proof {
        lemma_str_decode(s);
        lemma_sub_boundary(s.spec_bytes(), 0, a as int, b as int);
        assert(s.spec_bytes().subrange(0, b as int) =~= s.spec_bytes().subrange(0, b as int));
    }
    let (left, _right) = s.split_at(b);
    proof {
        assert(left.spec_bytes() =~= s.spec_bytes().subrange(0, b as int));
    }
    let (_l, mid) = left.split_at(a);
    proof {
        assert(mid.spec_bytes() =~= s.spec_bytes().subrange(a as int, b as int));
        lemma_str_decode(mid);
    }
    mid.to_owned()
}


/// The decimal digit for `d` (below ten).
pub open spec fn digit_char(d: nat) -> char {
    if d == 0 {
        '0'
    } else if d == 1 {
        '1'

    } else if d == 2 {
        '2'

    } else if d == 3 {
        '3'

    } else if d == 4 {
        '4'

    } else if d == 5 {
        '5'

    } else if d == 6 {
        '6'

    } else if d == 7 {
        '7'

    } else if d == 8 {
        '8'
    } else {
        '9'
    }
}

/// The decimal rendering of `n`.
pub open spec fn decimal(n: nat) -> Seq<char>
    decreases n,
{
    if n < 10 {
        seq![digit_char(n)]
    } else {
        decimal(n / 10) + seq![digit_char(n % 10)]
    }
}

fn digit_str(d: u128) -> (r: &'static str)
    requires
        d < 10,
    ensures
        r@ == seq![digit_char(d as nat)],
{
    proof {
        reveal_strlit("0");
        reveal_strlit("1");
        reveal_strlit("2");
        reveal_strlit("3");
        reveal_strlit("4");
        reveal_strlit("5");
        reveal_strlit("6");
        reveal_strlit("7");
        reveal_strlit("8");
        reveal_strlit("9");
    }
    if d == 0 {
        "0"
    } else if d == 1 {
        "1"
    } else if d == 2 {
        "2"
    } else if d == 3 {
        "3"
    } else if d == 4 {
        "4"
    } else if d == 5 {
        "5"
    } else if d == 6 {
        "6"
    } else if d == 7 {
        "7"
    } else if d == 8 {
        "8"
    } else {
        "9"
    }
}

/// Appends the decimal rendering of `n`.
pub fn push_decimal(out: &mut String, n: u128)
    ensures
        final(out)@ == old(out)@ + decimal(n as nat),
    decreases n,
{
    if n >= 10 {
        push_decimal(out, n / 10);
    }
    out.append(digit_str(n % 10));
    proof {
        assert(final(out)@ =~= old(out)@ + decimal(n as nat));
    }
}

} // verus!
