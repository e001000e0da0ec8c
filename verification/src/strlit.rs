//! The value of a JavaScript string literal, computed by `esparse`.

use vstd::prelude::*;
use vstd::utf8::*;

verus! {

/// Why a string literal is invalid.
#[derive(Clone, Copy, PartialEq, Eq, Debug, Structural)]
pub enum ParseStrLitError {
    /// A `\` at the end of the literal's content.
    ExpectedEscape,
    /// An incomplete `\x__` escape.
    ExpectedHex2,
    /// A `\x__` escape whose digits are not hexadecimal.
    NotHex2,
    /// A `\u{…}` escape with no closing `}`.
    ExpectedRbrace,
    /// A `\u{…}` escape whose digits are not hexadecimal.
    NotHex,
    /// A Unicode escape naming no Unicode scalar value.
    NotChar,
    /// An incomplete `\u____` escape.
    ExpectedHex4,
    /// A `\u____` escape whose digits are not hexadecimal.
    NotHex4,
}

/// The index of the first byte `x` in `r` at or after `from` (`r.len()`
/// if there is none).
pub open spec fn first_byte(r: Seq<u8>, from: int, x: u8) -> int
    decreases r.len() - from,
{
    if from < 0 || from >= r.len() {
        r.len() as int
    } else if r[from] == x {
        from
    } else {
        first_byte(r, from + 1, x)
    }
}

/// Whether a `str` whose bytes are `r` may be cut at byte `i`: an end of
/// `r`, or a byte that does not continue a UTF-8 sequence.
pub open spec fn cut_ok(r: Seq<u8>, i: int) -> bool {
    i == 0 || i == r.len() || (0 < i < r.len() && !(0x80u8 <= r[i] && r[i] < 0xc0u8))
}

/// Whether the bytes `r[a..b]` can be taken as a `str` slice.
pub open spec fn slice_ok(r: Seq<u8>, a: int, b: int) -> bool {
    0 <= a <= b <= r.len() && cut_ok(r, a) && cut_ok(r, b)
}

/// An ASCII hexadecimal digit.
pub open spec fn hex_digit(c: u8) -> bool {
    (0x30u8 <= c <= 0x39u8) || (0x41u8 <= c <= 0x46u8) || (0x61u8 <= c <= 0x66u8)
}

/// The value of a hexadecimal digit.
pub open spec fn hex_digit_value(c: u8) -> nat {
    if c <= 0x39u8 {
        (c - 0x30u8) as nat
    } else if c <= 0x46u8 {
        (c - 0x41u8 + 10) as nat
    } else {
        (c - 0x61u8 + 10) as nat
    }
}

/// The number that the hexadecimal digits `d` write.
pub open spec fn hex_value(d: Seq<u8>) -> nat
    decreases d.len(),
{
    if d.len() == 0 {
        0
    } else {
        hex_value(d.drop_last()) * 16 + hex_digit_value(d.last())
    }
}

/// The digits of `d` after an optional leading `+`.
pub open spec fn hex_digits(d: Seq<u8>) -> Seq<u8> {
    if d.len() > 0 && d[0] == 0x2bu8 {
        d.drop_first()
    } else {
        d
    }
}

/// Whether `from_str_radix(d, 16)` succeeds for an unsigned integer type
/// whose largest value is `max`: an optional `+`, then one hexadecimal digit
/// or more, whose value fits.
pub open spec fn hex_parses(d: Seq<u8>, max: nat) -> bool {
    let e = hex_digits(d);
    &&& e.len() > 0
    &&& forall|i: int| 0 <= i < e.len() ==> hex_digit(#[trigger] e[i])
    &&& hex_value(e) <= max
}

/// A Unicode scalar value.
pub open spec fn scalar_value(v: nat) -> bool {
    v < 0xd800 || (0xe000 <= v && v < 0x110000)
}

/// How the computation of a literal's value goes on from byte `last` of the
/// literal's content `r`: `None` where it panics, else whether it returns
/// a value or which error.  Each step finds the next `\` and takes its
/// index within `r[last..]` as an index into `r`.
pub open spec fn scan_status(r: Seq<u8>, last: int) -> Option<Result<(), ParseStrLitError>>
    decreases r.len() - last,
{
    let n = r.len();
    let k = first_byte(r, last, 0x5cu8);
    let j = k - last;
    let e = j + 1;
    let l = e + 1;
    if last < 0 || last > n {
        None
    } else if k >= n {
        if cut_ok(r, last) {
            Some(Ok(()))
        } else {
            None
        }
    } else if !slice_ok(r, last, j) {
        None
    } else if e >= n {
        Some(Err(ParseStrLitError::ExpectedEscape))
    } else if r[e] == 0x78u8 {
        // `\x__`
        if l + 2 > n {
            Some(Err(ParseStrLitError::ExpectedHex2))
        } else if !slice_ok(r, l, l + 2) {
            None
        } else if !hex_parses(r.subrange(l, l + 2), 0xff) {
            Some(Err(ParseStrLitError::NotHex2))
        } else {
            scan_status(r, l + 2)
        }
    } else if r[e] == 0x75u8 && l < n && r[l] == 0x7bu8 {
        // `\u{…}`: the `}` is found by its index within `r[l + 1..]`
        let b = first_byte(r, l + 1, 0x7du8);
        let q = b - (l + 1);
        if b >= n {
            Some(Err(ParseStrLitError::ExpectedRbrace))
        } else if !slice_ok(r, l + 1, q) {
            None
        } else if !hex_parses(r.subrange(l + 1, q), 0xffff_ffff) {
            Some(Err(ParseStrLitError::NotHex))
        } else if !scalar_value(hex_value(hex_digits(r.subrange(l + 1, q)))) {
            Some(Err(ParseStrLitError::NotChar))
        } else {
            scan_status(r, q + 1)
        }
    } else if r[e] == 0x75u8 {
        // `\u____`
        if l + 4 > n {
            Some(Err(ParseStrLitError::ExpectedHex4))
        } else if !slice_ok(r, l, l + 4) {
            None
        } else if !hex_parses(r.subrange(l, l + 4), 0xffff_ffff) {
            Some(Err(ParseStrLitError::NotHex4))
        } else if !scalar_value(hex_value(hex_digits(r.subrange(l, l + 4)))) {
            Some(Err(ParseStrLitError::NotChar))
        } else {
            scan_status(r, l + 4)
        }
    } else if r[e] == 0x0du8 && l < n && r[l] == 0x0au8 {
        // `\<CR><LF>`
        scan_status(r, l + 1)
    } else {
        scan_status(r, l)
    }
}

/// How `esparse::lex::str_lit_value` ends on `source`: `None` where it
/// panics (fewer than two bytes, quotes that are not whole characters, or
/// a cut inside a character or out of order), else `Ok` or the error it
/// returns.
pub open spec fn str_lit_status(source: Seq<char>) -> Option<Result<(), ParseStrLitError>> {
    let b = encode_utf8(source);
    let n = b.len();
    if n >= 2 && cut_ok(b, 1) && cut_ok(b, n - 1) {
        scan_status(b.subrange(1, n - 1), 0)
    } else {
        None
    }
}

/// The literals on which `esparse::lex::str_lit_value` returns.
pub open spec fn str_lit_value_defined(source: Seq<char>) -> bool {
    str_lit_status(source) is Some
}

/// The character that a one-character escape `\c` stands for (`c` itself
/// where it is no escape code, the byte read as a Latin-1 character).
pub open spec fn escape_char(c: u8) -> char {
    if c == 0x30u8 {
        '\0'
    } else if c == 0x62u8 {
        '\u{8}'
    } else if c == 0x74u8 {
        '\t'
    } else if c == 0x6eu8 {
        '\n'
    } else if c == 0x76u8 {
        '\u{b}'
    } else if c == 0x66u8 {
        '\u{c}'
    } else if c == 0x72u8 {
        '\r'
    } else {
        c as char
    }
}

/// The character with the code point that the hexadecimal digits `d` write.
pub open spec fn hex_char(d: Seq<u8>) -> char {
    (hex_value(hex_digits(d)) as u32) as char
}

/// The value that the computation of [`scan_status`] builds from byte
/// `last` of the literal's content `r`, where it returns `Ok`: the text
/// between escapes as it stands, each escape replaced by its character
/// (a line continuation by nothing).
pub open spec fn scan_value(r: Seq<u8>, last: int) -> Seq<char>
    decreases r.len() - last,
{
    let n = r.len();
    let k = first_byte(r, last, 0x5cu8);
    let j = k - last;
    let e = j + 1;
    let l = e + 1;
    if last < 0 || last > n {
        seq![]
    } else if k >= n {
        decode_utf8(r.subrange(last, n as int))
    } else if !slice_ok(r, last, j) || e >= n {
        seq![]
    } else {
        let head = decode_utf8(r.subrange(last, j));
        if r[e] == 0x78u8 {
            if l + 2 > n {
                seq![]
            } else {
                head + seq![hex_char(r.subrange(l, l + 2))] + scan_value(r, l + 2)
            }
        } else if r[e] == 0x75u8 && l < n && r[l] == 0x7bu8 {
            let b = first_byte(r, l + 1, 0x7du8);
            let q = b - (l + 1);
            if b >= n || !slice_ok(r, l + 1, q) {
                seq![]
            } else {
                head + seq![hex_char(r.subrange(l + 1, q))] + scan_value(r, q + 1)
            }
        } else if r[e] == 0x75u8 {
            if l + 4 > n {
                seq![]
            } else {
                head + seq![hex_char(r.subrange(l, l + 4))] + scan_value(r, l + 4)
            }
        } else if r[e] == 0x0du8 && l < n && r[l] == 0x0au8 {
            head + scan_value(r, l + 1)
        } else if r[e] == 0x0du8 || r[e] == 0x0au8 {
            head + scan_value(r, l)
        } else {
            head + seq![escape_char(r[e])] + scan_value(r, l)
        }
    }
}

/// The value of a valid string literal `source`: [`scan_value`] over the
/// text between its first and last byte.
pub open spec fn str_lit_text(source: Seq<char>) -> Seq<char> {
    let b = encode_utf8(source);
    scan_value(b.subrange(1, b.len() - 1), 0)
}

/// The index of the first byte `x` in `r` at or after `from`.
fn first_of(r: &Vec<u8>, from: usize, x: u8) -> (k: usize)
    requires
        from <= r@.len(),
    ensures
        k == first_byte(r@, from as int, x),
        from <= k <= r@.len(),
{
    let mut i = from;
    while i < r.len()
        invariant
            from <= i <= r@.len(),
            first_byte(r@, i as int, x) == first_byte(r@, from as int, x),
        decreases r@.len() - i,
    {
        if r[i] == x {
            return i;
        }
        i += 1;
    }
    i
}

/// Whether [`cut_ok`] holds.
fn cut_at(r: &Vec<u8>, i: usize) -> (ok: bool)
    ensures
        ok == cut_ok(r@, i as int),
{
    if i == 0 || i == r.len() {
        true
    } else if i < r.len() {
        !(0x80u8 <= r[i] && r[i] < 0xc0u8)
    } else {
        false
    }
}

/// `hex_value` does not fall as digits are added.
proof fn lemma_hex_value_prefix(d: Seq<u8>, i: int)
    requires
        0 <= i <= d.len(),
    ensures
        hex_value(d.subrange(0, i)) <= hex_value(d),
    decreases d.len(),
{
    if i < d.len() {
        lemma_hex_value_prefix(d.drop_last(), i);
        assert(d.drop_last().subrange(0, i) =~= d.subrange(0, i));
    } else {
        assert(d.subrange(0, i) =~= d);
    }
}

/// The value of `r[a..b]` read as by `from_str_radix(.., 16)`, where it
/// parses and is at most `max`.
fn hex_check(r: &Vec<u8>, a: usize, b: usize, max: u32) -> (v: Option<u32>)
    requires
        a <= b <= r@.len(),
    ensures
        v is Some <==> hex_parses(r@.subrange(a as int, b as int), max as nat),
        v matches Some(x) ==> x == hex_value(hex_digits(r@.subrange(a as int, b as int))),
{
    let ghost d = r@.subrange(a as int, b as int);
    let mut start = a;
    if a < b && r[a] == 0x2bu8 {
        start = a + 1;
    }
    assert(hex_digits(d) =~= r@.subrange(start as int, b as int));
    if start == b {
        return None;
    }
    let mut v: u64 = 0;
    let mut i = start;
    while i < b
        invariant
            a <= start <= i <= b <= r@.len(),
            start < b,
            d == r@.subrange(a as int, b as int),
            hex_digits(d) == r@.subrange(start as int, b as int),
            forall|m: int| start <= m < i ==> hex_digit(#[trigger] r@[m]),
            v == hex_value(r@.subrange(start as int, i as int)),
            v <= max,
        decreases b - i,
    {
        let c = r[i];
        let dv: u64 = if 0x30u8 <= c && c <= 0x39u8 {
            (c - 0x30u8) as u64
        } else if 0x41u8 <= c && c <= 0x46u8 {
            (c - 0x41u8 + 10) as u64
        } else if 0x61u8 <= c && c <= 0x66u8 {
            (c - 0x61u8 + 10) as u64
        } else {
            assert(hex_digits(d)[i - start] == r@[i as int]);
            return None;
        };
        assert(r@.subrange(start as int, i + 1).drop_last() =~= r@.subrange(start as int, i as int));
        v = v * 16 + dv;
        i += 1;
        if v > max as u64 {
            proof {
                let e = r@.subrange(start as int, b as int);
                assert(e.subrange(0, i - start) =~= r@.subrange(start as int, i as int));
                lemma_hex_value_prefix(e, i - start);
            }
            return None;
        }
    }
    assert(r@.subrange(start as int, i as int) =~= hex_digits(d));
    Some(v as u32)
}

/// Whether [`scalar_value`] holds.
fn is_scalar(v: u32) -> (ok: bool)
    ensures
        ok == scalar_value(v as nat),
{
    v < 0xd800 || (0xe000 <= v && v < 0x110000)
}

/// [`scan_status`] from the start of the content `r`.
fn scan_check(r: &Vec<u8>) -> (st: Option<Result<(), ParseStrLitError>>)
    ensures
        st == scan_status(r@, 0),
{
    let n = r.len();
    let mut last: usize = 0;
    loop
        invariant
            n == r@.len(),
            last <= n,
            scan_status(r@, last as int) == scan_status(r@, 0),
        decreases n - last,
    {
        let k = first_of(r, last, 0x5cu8);
        if k >= n {
            return if cut_at(r, last) {
                Some(Ok(()))
            } else {
                None
            };
        }
        if k - last < last || !cut_at(r, last) || !cut_at(r, k - last) {
            return None;
        }
        let j = k - last;
        let e = j + 1;
        if e >= n {
            return Some(Err(ParseStrLitError::ExpectedEscape));
        }
        let l = e + 1;
        let c = r[e];
        if c == 0x78u8 {
            if n - l < 2 {
                return Some(Err(ParseStrLitError::ExpectedHex2));
            }
            if !cut_at(r, l) || !cut_at(r, l + 2) {
                return None;
            }
            if hex_check(r, l, l + 2, 0xff).is_none() {
                return Some(Err(ParseStrLitError::NotHex2));
            }
            last = l + 2;
        } else if c == 0x75u8 && l < n && r[l] == 0x7bu8 {
            let b = first_of(r, l + 1, 0x7du8);
            if b >= n {
                return Some(Err(ParseStrLitError::ExpectedRbrace));
            }
            if b - (l + 1) < l + 1 || !cut_at(r, l + 1) || !cut_at(r, b - (l + 1)) {
                return None;
            }
            let q = b - (l + 1);
            match hex_check(r, l + 1, q, 0xffff_ffff) {
                None => {
                    return Some(Err(ParseStrLitError::NotHex));
                },
                Some(v) => {
                    if !is_scalar(v) {
                        return Some(Err(ParseStrLitError::NotChar));
                    }
                },
            }
            last = q + 1;
        } else if c == 0x75u8 {
            if n - l < 4 {
                return Some(Err(ParseStrLitError::ExpectedHex4));
            }
            if !cut_at(r, l) || !cut_at(r, l + 4) {
                return None;
            }
            match hex_check(r, l, l + 4, 0xffff_ffff) {
                None => {
                    return Some(Err(ParseStrLitError::NotHex4));
                },
                Some(v) => {
                    if !is_scalar(v) {
                        return Some(Err(ParseStrLitError::NotChar));
                    }
                },
            }
            last = l + 4;
        } else if c == 0x0du8 && l < n && r[l] == 0x0au8 {
            last = l + 1;
        } else {
            last = l;
        }
    }
}

/// How `esparse::lex::str_lit_value` ends on `source` (see
/// [`str_lit_status`]).
pub fn str_lit_check(source: &str) -> (st: Option<Result<(), ParseStrLitError>>)
    ensures
        st == str_lit_status(source@),
{
    let b = source.as_bytes();
    let n = b.len();
    if n < 2 || (0x80u8 <= b[1] && b[1] < 0xc0u8) || (0x80u8 <= b[n - 1] && b[n - 1]
        < 0xc0u8) {
        return None;
    }
    let mut r: Vec<u8> = Vec::new();
    let mut i: usize = 1;
    while i < n - 1
        invariant
            b@ == encode_utf8(source@),
            n == b@.len(),
            n >= 2,
            1 <= i <= n - 1,
            r@ == b@.subrange(1, i as int),
        decreases n - 1 - i,
    {
        r.push(b[i]);
        i += 1;
        assert(r@ =~= b@.subrange(1, i as int));
    }
    scan_check(&r)
}

/// The value of a string literal (`esparse::lex::str_lit_value`): the text
/// between the quotes with escape sequences interpreted.  Claimed: it
/// returns `Ok` or the error as [`str_lit_status`] follows its steps, and
/// the value that [`str_lit_text`] gives.  Only literals on which it
/// returns are admitted.
#[verifier::external_body]
pub(crate) fn es_str_lit_value(source: &str) -> (r: Result<String, ParseStrLitError>)
    requires
        str_lit_value_defined(source@),
    ensures
        r is Ok <==> str_lit_status(source@) == Some(Ok::<(), ParseStrLitError>(())),
        r matches Ok(v) ==> v@ == str_lit_text(source@),
        r matches Err(e) ==> str_lit_status(source@) == Some(Err::<(), ParseStrLitError>(e)),
{
    match esparse::lex::str_lit_value(source) {
        Ok(v) => Ok(v.into_owned()),
        Err(esparse::lex::ParseStrLitError::ExpectedEscape) => Err(ParseStrLitError::ExpectedEscape),
        Err(esparse::lex::ParseStrLitError::ExpectedHex2) => Err(ParseStrLitError::ExpectedHex2),
        Err(esparse::lex::ParseStrLitError::NotHex2) => Err(ParseStrLitError::NotHex2),
        Err(esparse::lex::ParseStrLitError::ExpectedRbrace) => Err(ParseStrLitError::ExpectedRbrace),
        Err(esparse::lex::ParseStrLitError::NotHex) => Err(ParseStrLitError::NotHex),
        Err(esparse::lex::ParseStrLitError::NotChar) => Err(ParseStrLitError::NotChar),
        Err(esparse::lex::ParseStrLitError::ExpectedHex4) => Err(ParseStrLitError::ExpectedHex4),
        Err(esparse::lex::ParseStrLitError::NotHex4) => Err(ParseStrLitError::NotHex4),
    }
}


/// The description `esparse` gives of an invalid string literal.
pub open spec fn str_lit_error_text(e: ParseStrLitError) -> Seq<char> {
    match e {
        ParseStrLitError::ExpectedEscape => "expected escape sequence, but got end of string"@,
        ParseStrLitError::ExpectedHex2 => "expected two hexadecimal characters after '\\x'"@,
        ParseStrLitError::NotHex2 => "expected two hexadecimal characters after '\\x'"@,
        ParseStrLitError::ExpectedRbrace => "expected `}` after `\\u{`"@,
        ParseStrLitError::NotHex => "expected hexadecimal number in `\\u{…}` escape"@,
        ParseStrLitError::NotChar => "hexadecimal number in `\\u{…}` escape is not a Unicode Scalar Value"@,
        ParseStrLitError::ExpectedHex4 => "expected four hexadecimal characters or '{…}' after '\\u'"@,
        ParseStrLitError::NotHex4 => "expected four hexadecimal characters or '{…}' after '\\u'"@,
    }
}

/// The text of an invalid-literal error, as `esparse::lex::ParseStrLitError`
/// displays it.  Claimed: the fixed description of each kind, as its source
/// writes it.
#[verifier::external_body]
pub(crate) fn es_str_lit_error_text(e: ParseStrLitError) -> (r: String)
    ensures
        r@ == str_lit_error_text(e),
{
    let e = match e {
        ParseStrLitError::ExpectedEscape => esparse::lex::ParseStrLitError::ExpectedEscape,
        ParseStrLitError::ExpectedHex2 => esparse::lex::ParseStrLitError::ExpectedHex2,
        ParseStrLitError::NotHex2 => esparse::lex::ParseStrLitError::NotHex2,
        ParseStrLitError::ExpectedRbrace => esparse::lex::ParseStrLitError::ExpectedRbrace,
        ParseStrLitError::NotHex => esparse::lex::ParseStrLitError::NotHex,
        ParseStrLitError::NotChar => esparse::lex::ParseStrLitError::NotChar,
        ParseStrLitError::ExpectedHex4 => esparse::lex::ParseStrLitError::ExpectedHex4,
        ParseStrLitError::NotHex4 => esparse::lex::ParseStrLitError::NotHex4,
    };
    e.to_string()
}

} // verus!
