//! `yal.base64` for plugins: encoding and decoding with the `base64`
//! crate's standard and URL-safe engines.

use vstd::prelude::*;

use base64::Engine;
use vstd::arithmetic::div_mod::{lemma_div_denominator, lemma_fundamental_div_mod, lemma_fundamental_div_mod_converse};

verus! {

/// `base64::DecodeError`, carried as an opaque value.
#[verifier::external_type_specification]
#[verifier::external_body]
pub struct ExDecodeError(base64::DecodeError);

/// The character of a 6-bit value in the base64 alphabet (RFC 4648): `A`-`Z`,
/// `a`-`z`, `0`-`9`, then `+` and `/`, or `-` and `_` in the URL-safe
/// alphabet.
pub open spec fn sextet_char(v: int, url_safe: bool) -> char {
    if v < 26 {
        (65 + v) as char
    } else if v < 52 {
        (97 + v - 26) as char
    } else if v < 62 {
        (48 + v - 52) as char
    } else if v == 62 {
        if url_safe {
            '-'
        } else {
            '+'
        }
    } else {
        if url_safe {
            '_'
        } else {
            '/'
        }
    }
}

/// The base64 text of `b` (RFC 4648): each group of three bytes, read as a
/// 24-bit number, gives four characters of six bits each; a last group of
/// two bytes gives three characters (its 16 bits followed by two zero bits)
/// and one `=` when padded, a last single byte two characters (its 8 bits
/// followed by four zero bits) and `==` when padded.
#[verifier::opaque]
pub open spec fn base64_text(b: Seq<u8>, url_safe: bool, pad: bool) -> Seq<char>
    decreases b.len(),
{
    if b.len() == 0 {
        Seq::empty()
    } else if b.len() == 1 {
        let n = b[0] as int;
        seq![sextet_char(n / 4, url_safe), sextet_char((n % 4) * 16, url_safe)] + if pad {
            seq!['=', '=']
        } else {
            Seq::empty()
        }
    } else if b.len() == 2 {
        let n = (b[0] as int) * 256 + (b[1] as int);
        seq![
            sextet_char(n / 1024, url_safe),
            sextet_char((n / 16) % 64, url_safe),
            sextet_char((n % 16) * 4, url_safe),
        ] + if pad {
            seq!['=']
        } else {
            Seq::empty()
        }
    } else {
        let n = (b[0] as int) * 65536 + (b[1] as int) * 256 + (b[2] as int);
        seq![
            sextet_char(n / 262144, url_safe),
            sextet_char((n / 4096) % 64, url_safe),
            sextet_char((n / 64) % 64, url_safe),
            sextet_char(n % 64, url_safe),
        ] + base64_text(b.subrange(3, b.len() as int), url_safe, pad)
    }
}

/// Calls `Engine::encode` on `general_purpose::STANDARD`: the padded base64
/// text of `input` in the standard alphabet. The crate panics when the
/// encoded length overflows `usize`, which no input within the allocation
/// limit does.
#[verifier::external_body]
fn encode_standard(input: &[u8]) -> (r: String)
    requires
        input@.len() <= isize::MAX,
    ensures
        r@ == base64_text(input@, false, true),
{
    base64::engine::general_purpose::STANDARD.encode(input)
}

/// Calls `Engine::encode` on `general_purpose::STANDARD_NO_PAD` (see
/// `encode_standard`).
#[verifier::external_body]
fn encode_standard_no_pad(input: &[u8]) -> (r: String)
    requires
        input@.len() <= isize::MAX,
    ensures
        r@ == base64_text(input@, false, false),
{
    base64::engine::general_purpose::STANDARD_NO_PAD.encode(input)
}

/// Calls `Engine::encode` on `general_purpose::URL_SAFE` (see
/// `encode_standard`).
#[verifier::external_body]
fn encode_url_safe(input: &[u8]) -> (r: String)
    requires
        input@.len() <= isize::MAX,
    ensures
        r@ == base64_text(input@, true, true),
{
    base64::engine::general_purpose::URL_SAFE.encode(input)
}

/// Calls `Engine::encode` on `general_purpose::URL_SAFE_NO_PAD` (see
/// `encode_standard`).
#[verifier::external_body]
fn encode_url_safe_no_pad(input: &[u8]) -> (r: String)
    requires
        input@.len() <= isize::MAX,
    ensures
        r@ == base64_text(input@, true, false),
{
    base64::engine::general_purpose::URL_SAFE_NO_PAD.encode(input)
}

/// Calls `Engine::decode` on `general_purpose::STANDARD`, which takes
/// canonical padded text only: it succeeds exactly on the padded standard
/// text of some bytes, and gives those bytes. Which error it reports is not
/// stated.
#[verifier::external_body]
fn decode_standard(input: &str) -> (r: Result<Vec<u8>, base64::DecodeError>)
    ensures
        match r {
            Ok(v) => base64_text(v@, false, true) == input@,
            Err(_) => forall|x: Seq<u8>| #[trigger] base64_text(x, false, true) != input@,
        },
{
    base64::engine::general_purpose::STANDARD.decode(input)
}

/// Calls `Engine::decode` on `general_purpose::URL_SAFE`, which takes
/// canonical padded text only: it succeeds exactly on the padded URL-safe
/// text of some bytes, and gives those bytes (see `decode_standard`).
#[verifier::external_body]
fn decode_url_safe(input: &str) -> (r: Result<Vec<u8>, base64::DecodeError>)
    ensures
        match r {
            Ok(v) => base64_text(v@, true, true) == input@,
            Err(_) => forall|x: Seq<u8>| #[trigger] base64_text(x, true, true) != input@,
        },
{
    base64::engine::general_purpose::URL_SAFE.decode(input)
}

/// Why a text could not be decoded; the crate's error is kept for its message.
#[derive(Debug)]
pub enum Base64Error {
    Invalid(base64::DecodeError),
}

/// Whether output is padded: as the options say, padded when they say nothing.
pub open spec fn padded(pad: Option<bool>) -> bool {
    match pad {
        Some(p) => p,
        None => true,
    }
}

/// `encode(bytes, opts)`: standard base64, padded unless the options say
/// `pad = false`.
pub fn encode(input: &[u8], pad: Option<bool>) -> (r: String)
    requires
        input@.len() <= isize::MAX,
    ensures
        r@ == base64_text(input@, false, padded(pad)),
{
    if padded_setting(pad) {
        encode_standard(input)
    } else {
        encode_standard_no_pad(input)
    }
}

/// `encode_url(bytes, opts)`: URL-safe base64, padded unless the options say
/// `pad = false`.
pub fn encode_url(input: &[u8], pad: Option<bool>) -> (r: String)
    requires
        input@.len() <= isize::MAX,
    ensures
        r@ == base64_text(input@, true, padded(pad)),
{
    if padded_setting(pad) {
        encode_url_safe(input)
    } else {
        encode_url_safe_no_pad(input)
    }
}

fn padded_setting(pad: Option<bool>) -> (r: bool)
    ensures
        r == padded(pad),
{
    match pad {
        Some(p) => p,
        None => true,
    }
}

/// `decode(text)`: the bytes of standard, padded base64.
pub fn decode(input: &str) -> (r: Result<Vec<u8>, Base64Error>)
    ensures
        match r {
            Ok(v) => base64_text(v@, false, true) == input@,
            Err(_) => forall|x: Seq<u8>| #[trigger] base64_text(x, false, true) != input@,
        },
        forall|x: Seq<u8>| #[trigger] base64_text(x, false, true) == input@ ==> (r matches Ok(v) && v@ == x),
{
    match decode_standard(input) {
        Ok(v) => {
            proof {
                assert forall|x: Seq<u8>| #[trigger] base64_text(x, false, true) == input@ implies v@ == x by {
                    law_padded_text_determines_bytes(v@, x, false);
                }
            }
            Ok(v)
        },
        Err(e) => Err(Base64Error::Invalid(e)),
    }
}

/// `decode_url(text)`: the bytes of URL-safe, padded base64.
pub fn decode_url(input: &str) -> (r: Result<Vec<u8>, Base64Error>)
    ensures
        match r {
            Ok(v) => base64_text(v@, true, true) == input@,
            Err(_) => forall|x: Seq<u8>| #[trigger] base64_text(x, true, true) != input@,
        },
        forall|x: Seq<u8>| #[trigger] base64_text(x, true, true) == input@ ==> (r matches Ok(v) && v@ == x),
{
    match decode_url_safe(input) {
        Ok(v) => {
            proof {
                assert forall|x: Seq<u8>| #[trigger] base64_text(x, true, true) == input@ implies v@ == x by {
                    law_padded_text_determines_bytes(v@, x, true);
                }
            }
            Ok(v)
        },
        Err(e) => Err(Base64Error::Invalid(e)),
    }
}

/* ------------------------- padded text determines bytes ------------------------- */

/// Distinct 6-bit values have distinct characters, none of them `=`.
proof fn lemma_sextet_chars(a: int, b: int, url_safe: bool)
    requires
        0 <= a < 64,
        0 <= b < 64,
    ensures
        sextet_char(a, url_safe) != '=',
        sextet_char(a, url_safe) == sextet_char(b, url_safe) ==> a == b,
{
}

/// A 24-bit value is given by its four 6-bit digits.
proof fn lemma_sextets_determine_24(n: int, m: int)
    requires
        0 <= n < 16777216,
        0 <= m < 16777216,
        n / 262144 == m / 262144,
        (n / 4096) % 64 == (m / 4096) % 64,
        (n / 64) % 64 == (m / 64) % 64,
        n % 64 == m % 64,
    ensures
        n == m,
{
    lemma_fundamental_div_mod(n, 64);
    lemma_fundamental_div_mod(m, 64);
    lemma_fundamental_div_mod(n / 64, 64);
    lemma_fundamental_div_mod(m / 64, 64);
    lemma_div_denominator(n, 64, 64);
    lemma_div_denominator(m, 64, 64);
    lemma_fundamental_div_mod(n / 4096, 64);
    lemma_fundamental_div_mod(m / 4096, 64);
    lemma_div_denominator(n, 4096, 64);
    lemma_div_denominator(m, 4096, 64);
}

/// A 16-bit value is given by its digits of 6, 6 and 4 bits.
proof fn lemma_sextets_determine_16(n: int, m: int)
    requires
        0 <= n < 65536,
        0 <= m < 65536,
        n / 1024 == m / 1024,
        (n / 16) % 64 == (m / 16) % 64,
        n % 16 == m % 16,
    ensures
        n == m,
{
    lemma_fundamental_div_mod(n, 16);
    lemma_fundamental_div_mod(m, 16);
    lemma_fundamental_div_mod(n / 16, 64);
    lemma_fundamental_div_mod(m / 16, 64);
    lemma_div_denominator(n, 16, 64);
    lemma_div_denominator(m, 16, 64);
}

/// Bytes are given by the number they make, most significant first.
proof fn lemma_bytes_of_number(b0: int, b1: int, b2: int, c0: int, c1: int, c2: int)
    requires
        0 <= b0 < 256,
        0 <= b1 < 256,
        0 <= b2 < 256,
        0 <= c0 < 256,
        0 <= c1 < 256,
        0 <= c2 < 256,
        b0 * 65536 + b1 * 256 + b2 == c0 * 65536 + c1 * 256 + c2,
    ensures
        b0 == c0,
        b1 == c1,
        b2 == c2,
{
    let n = b0 * 65536 + b1 * 256 + b2;
    assert(n == (b0 * 256 + b1) * 256 + b2) by (nonlinear_arith)
        requires
            n == b0 * 65536 + b1 * 256 + b2,
    ;
    assert(n == (c0 * 256 + c1) * 256 + c2) by (nonlinear_arith)
        requires
            n == c0 * 65536 + c1 * 256 + c2,
    ;
    lemma_fundamental_div_mod_converse(n, 256, b0 * 256 + b1, b2);
    lemma_fundamental_div_mod_converse(n, 256, c0 * 256 + c1, c2);
    lemma_fundamental_div_mod_converse(n / 256, 256, b0, b1);
    lemma_fundamental_div_mod_converse(n / 256, 256, c0, c1);
}

/// The value of the first group of three bytes.
spec fn group_value(x: Seq<u8>) -> int {
    (x[0] as int) * 65536 + (x[1] as int) * 256 + (x[2] as int)
}

/// The value of a last group of two bytes.
spec fn pair_value(x: Seq<u8>) -> int {
    (x[0] as int) * 256 + (x[1] as int)
}

/// The shape of padded text: empty for no bytes; `=` third for one byte;
/// `=` fourth but not third for two bytes; neither for three or more.
proof fn lemma_text_shape(x: Seq<u8>, url_safe: bool)
    ensures
        x.len() == 0 <==> base64_text(x, url_safe, true).len() == 0,
        x.len() == 1 ==> base64_text(x, url_safe, true).len() == 4 && base64_text(x, url_safe, true)[2] == '=',
        x.len() == 2 ==> base64_text(x, url_safe, true).len() == 4 && base64_text(x, url_safe, true)[2] != '='
            && base64_text(x, url_safe, true)[3] == '=',
        x.len() >= 3 ==> base64_text(x, url_safe, true).len() >= 4 && base64_text(x, url_safe, true)[2] != '='
            && base64_text(x, url_safe, true)[3] != '=',
{
    reveal(base64_text);
    if x.len() == 2 {
        let n = pair_value(x);
        lemma_sextet_chars((n % 16) * 4, 0, url_safe);
    }
    if x.len() >= 3 {
        let n = group_value(x);
        assert(0 <= n < 16777216) by (nonlinear_arith)
            requires
                n == (x[0] as int) * 65536 + (x[1] as int) * 256 + (x[2] as int),
                0 <= x[0] < 256,
                0 <= x[1] < 256,
                0 <= x[2] < 256,
        ;
        lemma_sextet_chars((n / 64) % 64, 0, url_safe);
        lemma_sextet_chars(n % 64, 0, url_safe);
    }
}

proof fn lemma_one_byte(x: Seq<u8>, y: Seq<u8>, url_safe: bool)
    requires
        x.len() == 1,
        y.len() == 1,
        base64_text(x, url_safe, true) == base64_text(y, url_safe, true),
    ensures
        x == y,
{
    reveal(base64_text);
    let t = base64_text(x, url_safe, true);
    let u = base64_text(y, url_safe, true);
    let n = x[0] as int;
    let m = y[0] as int;
    assert(t[0] == u[0] && t[1] == u[1]);
    lemma_sextet_chars(n / 4, m / 4, url_safe);
    lemma_sextet_chars((n % 4) * 16, (m % 4) * 16, url_safe);
    lemma_fundamental_div_mod(n, 4);
    lemma_fundamental_div_mod(m, 4);
    assert(x =~= y);
}

proof fn lemma_two_bytes(x: Seq<u8>, y: Seq<u8>, url_safe: bool)
    requires
        x.len() == 2,
        y.len() == 2,
        base64_text(x, url_safe, true) == base64_text(y, url_safe, true),
    ensures
        x == y,
{
    reveal(base64_text);
    let t = base64_text(x, url_safe, true);
    let u = base64_text(y, url_safe, true);
    let n = pair_value(x);
    let m = pair_value(y);
    assert(t[0] == u[0] && t[1] == u[1] && t[2] == u[2]);
    assert(0 <= n < 65536 && 0 <= m < 65536);
    lemma_sextet_chars(n / 1024, m / 1024, url_safe);
    lemma_sextet_chars((n / 16) % 64, (m / 16) % 64, url_safe);
    lemma_sextet_chars((n % 16) * 4, (m % 16) * 4, url_safe);
    lemma_sextets_determine_16(n, m);
    lemma_bytes_of_number(0, x[0] as int, x[1] as int, 0, y[0] as int, y[1] as int);
    assert(x =~= y);
}

proof fn lemma_first_group(x: Seq<u8>, y: Seq<u8>, url_safe: bool)
    requires
        x.len() >= 3,
        y.len() >= 3,
        base64_text(x, url_safe, true) == base64_text(y, url_safe, true),
    ensures
        x[0] == y[0],
        x[1] == y[1],
        x[2] == y[2],
{
    reveal(base64_text);
    let t = base64_text(x, url_safe, true);
    let u = base64_text(y, url_safe, true);
    assert(t[0] == u[0] && t[1] == u[1] && t[2] == u[2] && t[3] == u[3]);
    let n = group_value(x);
    let m = group_value(y);
    assert(0 <= n < 16777216) by (nonlinear_arith)
        requires
            n == (x[0] as int) * 65536 + (x[1] as int) * 256 + (x[2] as int),
            0 <= x[0] < 256,
            0 <= x[1] < 256,
            0 <= x[2] < 256,
    ;
    assert(0 <= m < 16777216) by (nonlinear_arith)
        requires
            m == (y[0] as int) * 65536 + (y[1] as int) * 256 + (y[2] as int),
            0 <= y[0] < 256,
            0 <= y[1] < 256,
            0 <= y[2] < 256,
    ;
    lemma_sextet_chars(n / 262144, m / 262144, url_safe);
    lemma_sextet_chars((n / 4096) % 64, (m / 4096) % 64, url_safe);
    lemma_sextet_chars((n / 64) % 64, (m / 64) % 64, url_safe);
    lemma_sextet_chars(n % 64, m % 64, url_safe);
    lemma_sextets_determine_24(n, m);
    lemma_bytes_of_number(x[0] as int, x[1] as int, x[2] as int, y[0] as int, y[1] as int, y[2] as int);
}

/// Padded text of three or more bytes is the first group's four
/// characters followed by the text of the rest.
proof fn lemma_text_split(x: Seq<u8>, url_safe: bool)
    requires
        x.len() >= 3,
    ensures
        base64_text(x, url_safe, true).subrange(4, base64_text(x, url_safe, true).len() as int) == base64_text(
            x.subrange(3, x.len() as int),
            url_safe,
            true,
        ),
        base64_text(x, url_safe, true).len() >= 4,
{
    reveal(base64_text);
    let t = base64_text(x, url_safe, true);
    let rest = base64_text(x.subrange(3, x.len() as int), url_safe, true);
    assert(t.subrange(4, t.len() as int) =~= rest);
}

/// Padded base64 text determines the bytes it encodes: two byte strings
/// with the same padded text are equal. So decoding the padded text of
/// some bytes gives exactly those bytes.
pub proof fn law_padded_text_determines_bytes(x: Seq<u8>, y: Seq<u8>, url_safe: bool)
    requires
        base64_text(x, url_safe, true) == base64_text(y, url_safe, true),
    ensures
        x == y,
    decreases x.len(),
{
    let t = base64_text(x, url_safe, true);
    let u = base64_text(y, url_safe, true);
    lemma_text_shape(x, url_safe);
    lemma_text_shape(y, url_safe);
    if x.len() == 0 {
        assert(x =~= y);
    } else if x.len() == 1 {
        lemma_one_byte(x, y, url_safe);
    } else if x.len() == 2 {
        lemma_two_bytes(x, y, url_safe);
    } else {
        let xr = x.subrange(3, x.len() as int);
        let yr = y.subrange(3, y.len() as int);
        lemma_first_group(x, y, url_safe);
        lemma_text_split(x, url_safe);
        lemma_text_split(y, url_safe);
        law_padded_text_determines_bytes(xr, yr, url_safe);
        assert(x.len() == y.len());
        assert forall|i: int| 0 <= i < x.len() implies x[i] == y[i] by {
            if i >= 3 {
                assert(x[i] == xr[i - 3] && y[i] == yr[i - 3]);
            }
        }
        assert(x =~= y);
    }
}
} // verus!
