//! The token wire format: a three-part signed string
//! `header.claims.signature`.
//!
//! Each part is lowercase hex over bytes: a fixed JSON header, the
//! canonical claims JSON `{"expired_at":"…","permissions":[…],
//! "user_id":…}`, and an HMAC-SHA256 tag over `header.claims`. Claims
//! strings are restricted to plain printable ASCII (no `"` or `\`), so
//! the JSON needs no escapes and the encoding is canonical: every token
//! this module accepts is exactly the encoding of the claims it returns.
//!
//! This module is the spec layer and the parsing/printing primitives;
//! `jwt` holds the executable encoder and decoder.

use vstd::prelude::*;
use vstd::string::StrSliceExecFns;
use vstd::string::StringExecFnsIsAscii;
use vstd::string::StringSliceAdditionalSpecFns;
use crate::crypto::hmac_sha256_of;
use crate::entities::Claims;
use crate::time::plain_char;
use crate::time::plain_seq;
use crate::time::rfc3339_parse;

verus! {

/// May this byte stand unescaped inside a JSON string of the wire
/// format? Printable ASCII without `"` (34) and `\` (92).
pub open spec fn is_plain_byte(x: u8) -> bool {
    0x20 <= x <= 0x7e && x != 34 && x != 92
}

/// The bytes of a plain-ASCII string, one byte per character.
pub open spec fn plain_bytes(s: Seq<char>) -> Seq<u8> {
    s.map(|_i: int, c: char| c as u8)
}

/// An ASCII character's byte casts back to the character.
pub proof fn lemma_ascii_char_byte(c: char)
    requires
        (c as int) < 0x80,
    ensures
        (c as u8) as char == c,
        (c as u8) as int == c as int,
{
}


// ---------------------------------------------------------------------
// Hex
// ---------------------------------------------------------------------

/// The lowercase hex digit for a value below 16.
pub open spec fn hex_digit(v: int) -> u8 {
    if v < 10 {
        (48 + v) as u8
    } else {
        (87 + v) as u8
    }
}

/// The value of a lowercase hex digit byte.
pub open spec fn unhex_digit(x: u8) -> Option<int> {
    if 48 <= x <= 57 {
        Some((x - 48) as int)
    } else if 97 <= x <= 102 {
        Some((x - 87) as int)
    } else {
        None
    }
}

/// Two lowercase hex digits per byte.
pub open spec fn hex_bytes(data: Seq<u8>) -> Seq<u8>
    decreases data.len(),
{
    if data.len() == 0 {
        Seq::empty()
    } else {
        hex_bytes(data.drop_last()) + seq![
            hex_digit(data.last() as int / 16),
            hex_digit(data.last() as int % 16),
        ]
    }
}

/// The inverse of `hex_bytes`: defined exactly on even-length strings of
/// lowercase hex digits.
pub open spec fn unhex(h: Seq<u8>) -> Option<Seq<u8>>
    decreases h.len(),
{
    if h.len() == 0 {
        Some(Seq::empty())
    } else if h.len() == 1 {
        None
    } else {
        match unhex(h.drop_last().drop_last()) {
            None => None,
            Some(d) => match (unhex_digit(h[h.len() - 2]), unhex_digit(h.last())) {
                (Some(hi), Some(lo)) => Some(d.push((hi * 16 + lo) as u8)),
                _ => None,
            },
        }
    }
}

/// Hex output is made of digit bytes only: in particular plain, and
/// never a dot.
pub proof fn lemma_hex_bytes_range(data: Seq<u8>)
    ensures
        hex_bytes(data).len() == 2 * data.len(),
        forall|k: int| 0 <= k < hex_bytes(data).len() ==> 48 <= #[trigger] hex_bytes(data)[k] <= 102,
    decreases data.len(),
{
    if data.len() > 0 {
        lemma_hex_bytes_range(data.drop_last());
    }
}

/// Decoding inverts encoding.
pub proof fn lemma_unhex_hex(data: Seq<u8>)
    ensures
        unhex(hex_bytes(data)) == Some(data),
    decreases data.len(),
{
    if data.len() > 0 {
        lemma_unhex_hex(data.drop_last());
        lemma_hex_bytes_range(data.drop_last());
        let h = hex_bytes(data);
        assert(h.drop_last().drop_last() =~= hex_bytes(data.drop_last()));
        let b = data.last();
        vstd::arithmetic::div_mod::lemma_fundamental_div_mod(b as int, 16);
        assert(unhex(h).unwrap() =~= data);
    }
}

// ---------------------------------------------------------------------
// Dots and the three-part frame
// ---------------------------------------------------------------------

/// The index of the first dot (46), if any.
pub open spec fn first_dot(b: Seq<u8>) -> Option<int>
    decreases b.len(),
{
    if b.len() == 0 {
        None
    } else if b[0] == 46 {
        Some(0)
    } else {
        match first_dot(b.drop_first()) {
            Some(i) => Some(i + 1),
            None => None,
        }
    }
}

/// Split at the first two dots: `a.b.rest`.
pub open spec fn split3(b: Seq<u8>) -> Option<(Seq<u8>, Seq<u8>, Seq<u8>)> {
    match first_dot(b) {
        None => None,
        Some(i) => {
            let rest = b.subrange(i + 1, b.len() as int);
            match first_dot(rest) {
                None => None,
                Some(j) => Some(
                    (
                        b.subrange(0, i),
                        rest.subrange(0, j),
                        rest.subrange(j + 1, rest.len() as int),
                    ),
                ),
            }
        },
    }
}

/// In `a + "." + rest` with `a` dotless, the first dot is at `a.len()`.
pub proof fn lemma_first_dot_concat(a: Seq<u8>, rest: Seq<u8>)
    requires
        forall|k: int| 0 <= k < a.len() ==> a[k] != 46,
    ensures
        first_dot(a + seq![46u8] + rest) == Some(a.len() as int),
    decreases a.len(),
{
    let b = a + seq![46u8] + rest;
    if a.len() == 0 {
        assert(b[0] == 46);
    } else {
        lemma_first_dot_concat(a.drop_first(), rest);
        assert(b.drop_first() =~= a.drop_first() + seq![46u8] + rest);
        assert(b[0] != 46);
    }
}

/// Splitting recovers the three dotless-headed parts.
pub proof fn lemma_split3_concat(a: Seq<u8>, b: Seq<u8>, c: Seq<u8>)
    requires
        forall|k: int| 0 <= k < a.len() ==> a[k] != 46,
        forall|k: int| 0 <= k < b.len() ==> b[k] != 46,
    ensures
        split3(a + seq![46u8] + b + seq![46u8] + c) == Some((a, b, c)),
{
    let whole = a + seq![46u8] + b + seq![46u8] + c;
    assert(whole =~= a + seq![46u8] + (b + seq![46u8] + c));
    lemma_first_dot_concat(a, b + seq![46u8] + c);
    let rest = whole.subrange(a.len() as int + 1, whole.len() as int);
    assert(rest =~= b + seq![46u8] + c);
    lemma_first_dot_concat(b, c);
    assert(whole.subrange(0, a.len() as int) =~= a);
    assert(rest.subrange(0, b.len() as int) =~= b);
    assert(rest.subrange(b.len() as int + 1, rest.len() as int) =~= c);
}



// ---------------------------------------------------------------------
// Decimal integers
// ---------------------------------------------------------------------

/// The decimal digits of a natural number, most significant first.
pub open spec fn dec_digits(n: nat) -> Seq<u8>
    decreases n,
{
    if n < 10 {
        seq![(48 + n) as u8]
    } else {
        dec_digits(n / 10).push((48 + n % 10) as u8)
    }
}

/// The decimal form of an integer: digits, with `-` for negatives.
pub open spec fn dec_int(v: int) -> Seq<u8> {
    if v < 0 {
        seq![45u8] + dec_digits((-v) as nat)
    } else {
        dec_digits(v as nat)
    }
}

/// Decimal digits are digit bytes, never empty, and without a leading
/// zero unless the number is zero itself.
pub proof fn lemma_dec_digits_shape(n: nat)
    ensures
        dec_digits(n).len() >= 1,
        forall|k: int| 0 <= k < dec_digits(n).len() ==> 48 <= #[trigger] dec_digits(n)[k] <= 57,
        n >= 1 ==> dec_digits(n)[0] != 48,
        n < 10 ==> dec_digits(n).len() == 1,
    decreases n,
{
    if n >= 10 {
        lemma_dec_digits_shape(n / 10);
    }
}

/// The end of the run of digit bytes starting at `i`.
pub open spec fn digit_run_end(b: Seq<u8>, i: int) -> int
    decreases b.len() - i,
{
    if 0 <= i < b.len() && 48 <= b[i] <= 57 {
        digit_run_end(b, i + 1)
    } else {
        i
    }
}

/// The value of a digit-byte sequence, most significant first.
pub open spec fn val_of_digits(ds: Seq<u8>) -> nat
    decreases ds.len(),
{
    if ds.len() == 0 {
        0
    } else {
        val_of_digits(ds.drop_last()) * 10 + (if ds.last() >= 48 {
            (ds.last() - 48) as nat
        } else {
            0
        })
    }
}

/// Scanning a digit run over `pre + dec_digits(n) + rest`, where `rest`
/// does not begin with a digit, stops exactly at the boundary.
pub proof fn lemma_digit_run_of_canonical(b: Seq<u8>, i: int, ds: Seq<u8>, rest: Seq<u8>)
    requires
        0 <= i <= b.len(),
        b.subrange(i, b.len() as int) == ds + rest,
        forall|k: int| 0 <= k < ds.len() ==> 48 <= #[trigger] ds[k] <= 57,
        rest.len() == 0 || !(48 <= rest[0] <= 57),
    ensures
        digit_run_end(b, i) == i + ds.len(),
        b.subrange(i, i + ds.len() as int) == ds,
    decreases ds.len(),
{
    let tail = b.subrange(i, b.len() as int);
    assert(tail.len() == ds.len() + rest.len());
    if ds.len() == 0 {
        if i < b.len() {
            assert(b[i] == tail[0]);
            assert(tail[0] == rest[0]);
        }
    } else {
        assert(i < b.len());
        assert(b[i] == tail[0]);
        assert(tail[0] == ds[0]);
        assert(b.subrange(i + 1, b.len() as int) =~= tail.drop_first());
        assert(tail.drop_first() =~= ds.drop_first() + rest);
        lemma_digit_run_of_canonical(b, i + 1, ds.drop_first(), rest);
        assert(b.subrange(i, i + ds.len() as int) =~= ds);
    }
}

/// The value of the decimal form is the number.
pub proof fn lemma_val_of_dec_digits(n: nat)
    ensures
        val_of_digits(dec_digits(n)) == n,
    decreases n,
{
    if n < 10 {
        let d = dec_digits(n);
        assert(d.drop_last() =~= Seq::<u8>::empty());
        assert(val_of_digits(d.drop_last()) == 0);
        assert(d.last() == (48 + n) as u8);
        assert((48 + n) as u8 as nat == 48 + n);
        assert(val_of_digits(d) == (d.last() - 48) as nat);
    } else {
        lemma_val_of_dec_digits(n / 10);
        assert(dec_digits(n).drop_last() =~= dec_digits(n / 10));
        vstd::arithmetic::div_mod::lemma_fundamental_div_mod(n as int, 10);
    }
}

/// Parse the canonical decimal form of an `i32` at `i`: an optional `-`,
/// then digits without a useless leading zero, within the `i32` range.
pub open spec fn sp_user_id(b: Seq<u8>, i: int) -> Option<(int, int)> {
    if 0 <= i < b.len() && b[i] == 45 {
        let e = digit_run_end(b, i + 1);
        let ds = b.subrange(i + 1, e);
        let v = val_of_digits(ds) as int;
        if ds.len() >= 1 && (ds.len() == 1 || ds[0] != 48) && v >= 1 && -v >= i32::MIN {
            Some((-v, e))
        } else {
            None
        }
    } else {
        let e = digit_run_end(b, i);
        let ds = b.subrange(i, e);
        let v = val_of_digits(ds) as int;
        if ds.len() >= 1 && (ds.len() == 1 || ds[0] != 48) && v <= i32::MAX {
            Some((v, e))
        } else {
            None
        }
    }
}

// ---------------------------------------------------------------------
// JSON strings and the permission list
// ---------------------------------------------------------------------

/// Parse a plain JSON string body at `i`, consuming the closing quote.
pub open spec fn sp_str(b: Seq<u8>, i: int) -> Option<(Seq<char>, int)>
    decreases b.len() - i,
{
    if !(0 <= i < b.len()) {
        None
    } else if b[i] == 34 {
        Some((Seq::empty(), i + 1))
    } else if is_plain_byte(b[i]) {
        match sp_str(b, i + 1) {
            None => None,
            Some((s, j)) => Some((seq![b[i] as char] + s, j)),
        }
    } else {
        None
    }
}

/// What a successful string parse yields: it moves forward, and the
/// consumed bytes are the plain bytes of the result plus the quote.
pub proof fn lemma_sp_str_shape(b: Seq<u8>, i: int)
    requires
        sp_str(b, i) is Some,
    ensures
        ({
            let (s, j) = sp_str(b, i).unwrap();
            &&& 0 <= i < j <= b.len()
            &&& j == i + s.len() + 1
            &&& plain_seq(s)
            &&& b.subrange(i, j - 1) == plain_bytes(s)
            &&& b[j - 1] == 34
        }),
    decreases b.len() - i,
{
    let (s, j) = sp_str(b, i).unwrap();
    if b[i] == 34 {
        assert(b.subrange(i, i as int) =~= plain_bytes(s));
    } else {
        lemma_sp_str_shape(b, i + 1);
        let (s2, _j2) = sp_str(b, i + 1).unwrap();
        assert(b.subrange(i, j - 1) =~= seq![b[i]] + b.subrange(i + 1, j - 1));
        assert(plain_bytes(s) =~= seq![s[0] as u8] + plain_bytes(s2));
        assert(forall|k: int| 0 <= k < s.len() ==> plain_char(#[trigger] s[k]));
    }
}

/// Parsing the canonical form of a plain string finds it back.
pub proof fn lemma_sp_str_of_canonical(b: Seq<u8>, i: int, s: Seq<char>, rest: Seq<u8>)
    requires
        0 <= i <= b.len(),
        b.subrange(i, b.len() as int) == plain_bytes(s) + seq![34u8] + rest,
        plain_seq(s),
    ensures
        sp_str(b, i) == Some((s, i + s.len() + 1)),
    decreases s.len(),
{
    let tail = b.subrange(i, b.len() as int);
    assert(tail.len() == plain_bytes(s).len() + 1 + rest.len());
    assert(plain_bytes(s).len() == s.len());
    assert(i < b.len());
    if s.len() == 0 {
        assert(b[i] == tail[0]);
        assert(tail[0] == 34);
    } else {
        assert(b[i] == tail[0]);
        assert(tail[0] == plain_bytes(s)[0]);
        assert(plain_bytes(s)[0] == s[0] as u8);
        assert(plain_char(s[0]));
        assert(is_plain_byte(b[i]));
        assert(b[i] != 34);
        assert(b.subrange(i + 1, b.len() as int) =~= tail.drop_first());
        assert(tail.drop_first() =~= plain_bytes(s.drop_first()) + seq![34u8] + rest);
        lemma_sp_str_of_canonical(b, i + 1, s.drop_first(), rest);
        assert(seq![b[i] as char] + s.drop_first() =~= s);
    }
}

/// The canonical bytes of the permission list body (between `[` and
/// `]`): quoted plain strings joined by commas.
pub open spec fn perms_body_bytes(perms: Seq<Seq<char>>) -> Seq<u8>
    decreases perms.len(),
{
    if perms.len() == 0 {
        Seq::empty()
    } else {
        seq![34u8] + plain_bytes(perms[0]) + seq![34u8] + (if perms.len() == 1 {
            Seq::<u8>::empty()
        } else {
            seq![44u8] + perms_body_bytes(perms.drop_first())
        })
    }
}

/// Appending one more permission appends its quoted form (with a comma
/// where the list was not empty).
pub proof fn lemma_perms_body_push(perms: Seq<Seq<char>>, x: Seq<char>)
    ensures
        perms_body_bytes(perms.push(x)) == if perms.len() == 0 {
            seq![34u8] + plain_bytes(x) + seq![34u8]
        } else {
            perms_body_bytes(perms) + seq![44u8] + seq![34u8] + plain_bytes(x) + seq![34u8]
        },
    decreases perms.len(),
{
    let w = perms.push(x);
    if perms.len() == 0 {
        assert(w[0] == x);
        assert(w.len() == 1);
        assert(perms_body_bytes(w) =~= seq![34u8] + plain_bytes(x) + seq![34u8]);
    } else {
        lemma_perms_body_push(perms.drop_first(), x);
        assert(w.drop_first() =~= perms.drop_first().push(x));
        assert(w[0] == perms[0]);
        if perms.len() == 1 {
            assert(perms_body_bytes(w) =~= perms_body_bytes(perms) + seq![44u8] + seq![34u8]
                + plain_bytes(x) + seq![34u8]);
        } else {
            assert(perms_body_bytes(w) =~= perms_body_bytes(perms) + seq![44u8] + seq![34u8]
                + plain_bytes(x) + seq![34u8]);
        }
    }
}

/// Parse the permission list at `i`, just after the `[`, consuming the
/// closing `]`. `fuel` bounds the recursion; any fuel beyond the number
/// of elements gives the same answer.
pub open spec fn sp_perms(b: Seq<u8>, i: int, fuel: nat) -> Option<(Seq<Seq<char>>, int)>
    decreases fuel,
{
    if fuel == 0 {
        None
    } else if !(0 <= i < b.len()) {
        None
    } else if b[i] == 93 {
        Some((Seq::empty(), i + 1))
    } else if b[i] == 34 {
        match sp_str(b, i + 1) {
            None => None,
            Some((p, j)) => {
                if 0 <= j < b.len() && b[j] == 93 {
                    Some((seq![p], j + 1))
                } else if 0 <= j < b.len() && b[j] == 44 {
                    match sp_perms(b, j + 1, (fuel - 1) as nat) {
                        Some((ps, k)) => if ps.len() >= 1 {
                            Some((seq![p] + ps, k))
                        } else {
                            None
                        },
                        None => None,
                    }
                } else {
                    None
                }
            },
        }
    } else {
        None
    }
}

/// Parsing the canonical permission list finds it back, given fuel
/// beyond the element count.
pub proof fn lemma_sp_perms_of_canonical(
    b: Seq<u8>,
    i: int,
    perms: Seq<Seq<char>>,
    rest: Seq<u8>,
    fuel: nat,
)
    requires
        0 <= i <= b.len(),
        b.subrange(i, b.len() as int) == perms_body_bytes(perms) + seq![93u8] + rest,
        forall|k: int| 0 <= k < perms.len() ==> plain_seq(#[trigger] perms[k]),
        fuel >= perms.len() + 1,
    ensures
        sp_perms(b, i, fuel) == Some((perms, i + perms_body_bytes(perms).len() + 1)),
    decreases perms.len(),
{
    let body = perms_body_bytes(perms);
    let tail = b.subrange(i, b.len() as int);
    assert(tail.len() == body.len() + 1 + rest.len());
    assert(i < b.len());
    if perms.len() == 0 {
        assert(b[i] == tail[0]);
        assert(tail[0] == 93);
    } else {
        let p0 = perms[0];
        assert(body.len() >= 1);
        assert(b[i] == tail[0]);
        assert(tail[0] == body[0]);
        assert(body[0] == 34);
        assert(b[i] != 93);
        if perms.len() == 1 {
            assert(b.subrange(i + 1, b.len() as int) =~= tail.drop_first());
            assert(tail.drop_first() =~= plain_bytes(p0) + seq![34u8] + (seq![93u8] + rest));
            lemma_sp_str_of_canonical(b, i + 1, p0, seq![93u8] + rest);
            let j = i + 1 + p0.len() + 1;
            assert(b[j] == tail[j - i]);
            assert(tail[j - i] == 93);
            assert(seq![p0] =~= perms);
        } else {
            let tailperms = perms.drop_first();
            let tailbody = perms_body_bytes(tailperms);
            assert(body =~= seq![34u8] + plain_bytes(p0) + seq![34u8] + seq![44u8] + tailbody);
            assert(b.subrange(i + 1, b.len() as int) =~= tail.drop_first());
            assert(tail.drop_first() =~= plain_bytes(p0) + seq![34u8] + (seq![44u8] + tailbody
                + seq![93u8] + rest));
            lemma_sp_str_of_canonical(b, i + 1, p0, seq![44u8] + tailbody + seq![93u8] + rest);
            let j = i + 1 + p0.len() + 1;
            assert(b[j] == tail[j - i]);
            assert(tail[j - i] == 44);
            assert(b[j] != 93);
            assert(b.subrange(j + 1, b.len() as int) =~= tail.subrange(j - i + 1, tail.len() as int));
            assert(tail.subrange(j - i + 1, tail.len() as int) =~= tailbody + seq![93u8] + rest);
            lemma_sp_perms_of_canonical(b, j + 1, tailperms, rest, (fuel - 1) as nat);
            assert(seq![p0] + tailperms =~= perms);
            assert(perms_body_bytes(perms).len() == p0.len() + 3 + tailbody.len());
        }
    }
}

// ---------------------------------------------------------------------
// The claims document and the signed token
// ---------------------------------------------------------------------

/// The bytes of the fixed header JSON `{"alg":"HS256","typ":"JWT"}`.
pub open spec fn header_bytes() -> Seq<u8> {
    seq![123u8, 34u8, 97u8, 108u8, 103u8, 34u8, 58u8, 34u8, 72u8, 83u8, 50u8, 53u8, 54u8, 34u8,
        44u8, 34u8, 116u8, 121u8, 112u8, 34u8, 58u8, 34u8, 74u8, 87u8, 84u8, 34u8, 125u8]
}

/// The bytes of `{"expired_at":"`, up to and including the quote that
/// opens the expiry text.
pub open spec fn lit_exp() -> Seq<u8> {
    seq![123u8, 34u8, 101u8, 120u8, 112u8, 105u8, 114u8, 101u8, 100u8, 95u8, 97u8, 116u8, 34u8,
        58u8, 34u8]
}

/// The bytes of `,"permissions":[`.
pub open spec fn lit_perms() -> Seq<u8> {
    seq![44u8, 34u8, 112u8, 101u8, 114u8, 109u8, 105u8, 115u8, 115u8, 105u8, 111u8, 110u8, 115u8,
        34u8, 58u8, 91u8]
}

/// The bytes of `,"user_id":`.
pub open spec fn lit_uid() -> Seq<u8> {
    seq![44u8, 34u8, 117u8, 115u8, 101u8, 114u8, 95u8, 105u8, 100u8, 34u8, 58u8]
}

/// May these claims be put on the wire? The user id must fit an `i32`
/// and every string must be plain ASCII.
pub open spec fn claims_wf(user: int, exp: Seq<char>, perms: Seq<Seq<char>>) -> bool {
    &&& i32::MIN <= user <= i32::MAX
    &&& plain_seq(exp)
    &&& forall|k: int| 0 <= k < perms.len() ==> plain_seq(#[trigger] perms[k])
}

/// The canonical claims JSON:
/// `{"expired_at":"E","permissions":[…],"user_id":N}`.
pub open spec fn claims_bytes(user: int, exp: Seq<char>, perms: Seq<Seq<char>>) -> Seq<u8> {
    lit_exp() + plain_bytes(exp) + seq![34u8] + lit_perms() + perms_body_bytes(perms) + seq![93u8]
        + lit_uid() + dec_int(user) + seq![125u8]
}

/// Expect the exact bytes `lit` at `i`.
pub open spec fn sp_lit(b: Seq<u8>, i: int, lit: Seq<u8>) -> Option<int> {
    if 0 <= i && i + lit.len() <= b.len() && b.subrange(i, i + lit.len() as int) == lit {
        Some(i + lit.len() as int)
    } else {
        None
    }
}

/// Parse the canonical claims JSON, whole: expiry text, permission
/// list, user id, and nothing after the closing brace.
pub open spec fn sp_claims(b: Seq<u8>) -> Option<(int, Seq<char>, Seq<Seq<char>>)> {
    match sp_lit(b, 0, lit_exp()) {
        None => None,
        Some(i1) => match sp_str(b, i1) {
            None => None,
            Some((e, i2)) => match sp_lit(b, i2, lit_perms()) {
                None => None,
                Some(i3) => match sp_perms(b, i3, (b.len() + 1) as nat) {
                    None => None,
                    Some((ps, i4)) => match sp_lit(b, i4, lit_uid()) {
                        None => None,
                        Some(i5) => match sp_user_id(b, i5) {
                            None => None,
                            Some((u, i6)) => if 0 <= i6 < b.len() && b[i6] == 125 && i6 + 1
                                == b.len() {
                                Some((u, e, ps))
                            } else {
                                None
                            },
                        },
                    },
                },
            },
        },
    }
}

/// The permission list body is at least two bytes per permission.
pub proof fn lemma_perms_body_len(perms: Seq<Seq<char>>)
    ensures
        perms_body_bytes(perms).len() >= 2 * perms.len(),
    decreases perms.len(),
{
    if perms.len() > 0 {
        lemma_perms_body_len(perms.drop_first());
    }
}

/// Larger fuel than the remaining byte count never changes the answer.
pub proof fn lemma_sp_perms_fuel(b: Seq<u8>, i: int, f1: nat, f2: nat)
    requires
        f1 >= b.len() - i + 1,
        f2 >= b.len() - i + 1,
    ensures
        sp_perms(b, i, f1) == sp_perms(b, i, f2),
    decreases b.len() - i,
{
    if 0 <= i < b.len() && b[i] == 34 {
        match sp_str(b, i + 1) {
            None => {},
            Some((p, j)) => {
                lemma_sp_str_shape(b, i + 1);
                if 0 <= j < b.len() && b[j] == 44 {
                    lemma_sp_perms_fuel(b, j + 1, (f1 - 1) as nat, (f2 - 1) as nat);
                }
            },
        }
    }
}

/// Parsing the canonical claims JSON finds the claims back.
#[verifier::rlimit(100)]
pub proof fn lemma_sp_claims_of_canonical(user: int, exp: Seq<char>, perms: Seq<Seq<char>>)
    requires
        claims_wf(user, exp, perms),
    ensures
        sp_claims(claims_bytes(user, exp, perms)) == Some((user, exp, perms)),
{
    let b = claims_bytes(user, exp, perms);
    let body = perms_body_bytes(perms);
    let di = dec_int(user);
    let i1 = lit_exp().len() as int;
    assert(b.subrange(0, i1) =~= lit_exp());
    assert(sp_lit(b, 0, lit_exp()) == Some(i1));
    let rest1 = lit_perms() + body + seq![93u8] + lit_uid() + di + seq![125u8];
    assert(b.subrange(i1, b.len() as int) =~= plain_bytes(exp) + seq![34u8] + rest1);
    lemma_sp_str_of_canonical(b, i1, exp, rest1);
    let i2 = i1 + exp.len() + 1;
    assert(b.subrange(i2, i2 + lit_perms().len() as int) =~= lit_perms());
    assert(sp_lit(b, i2, lit_perms()) == Some(i2 + lit_perms().len() as int));
    let i3 = i2 + lit_perms().len() as int;
    let rest2 = lit_uid() + di + seq![125u8];
    assert(b.subrange(i3, b.len() as int) =~= body + seq![93u8] + rest2);
    lemma_perms_body_len(perms);
    lemma_sp_perms_of_canonical(b, i3, perms, rest2, (b.len() + 1) as nat);
    let i4 = i3 + body.len() + 1;
    assert(b.subrange(i4, i4 + lit_uid().len() as int) =~= lit_uid());
    assert(sp_lit(b, i4, lit_uid()) == Some(i4 + lit_uid().len() as int));
    let i5 = i4 + lit_uid().len() as int;
    assert(b.subrange(i5, b.len() as int) =~= di + seq![125u8]);
    if user >= 0 {
        lemma_dec_digits_shape(user as nat);
        assert(b[i5] == b.subrange(i5, b.len() as int)[0]);
        assert(b[i5] == di[0]);
        assert(b[i5] != 45);
        lemma_digit_run_of_canonical(b, i5, di, seq![125u8]);
        lemma_val_of_dec_digits(user as nat);
        let i6 = i5 + di.len();
        assert(sp_user_id(b, i5) == Some((user, i6)));
        assert(b[i6] == b.subrange(i5, b.len() as int)[i6 - i5]);
        assert(b[i6] == 125);
        assert(i6 + 1 == b.len());
    } else {
        let m = (-user) as nat;
        let ds = dec_digits(m);
        lemma_dec_digits_shape(m);
        assert(b[i5] == b.subrange(i5, b.len() as int)[0]);
        assert(di =~= seq![45u8] + ds);
        assert(b[i5] == 45);
        assert(b.subrange(i5 + 1, b.len() as int) =~= ds + seq![125u8]);
        lemma_digit_run_of_canonical(b, i5 + 1, ds, seq![125u8]);
        lemma_val_of_dec_digits(m);
        let i6 = i5 + 1 + ds.len();
        assert(sp_user_id(b, i5) == Some((user, i6)));
        assert(b[i6] == b.subrange(i5, b.len() as int)[i6 - i5]);
        assert(b[i6] == 125);
        assert(i6 + 1 == b.len());
    }
}

/// The character with the byte's code.
pub open spec fn byte_char(x: u8) -> char {
    x as char
}

/// The characters whose codes are the given bytes.
pub open spec fn ascii_chars(b: Seq<u8>) -> Seq<char> {
    b.map(|_i: int, x: u8| byte_char(x))
}

/// Is the character code in the ASCII range?
pub open spec fn ascii_char(c: char) -> bool {
    0 <= (c as int) < 0x80
}

/// Are all characters below 0x80?
pub open spec fn ascii_seq(t: Seq<char>) -> bool {
    forall|i: int| 0 <= i < t.len() ==> ascii_char(#[trigger] t[i])
}

/// What the signature is computed over: `hex(header).hex(claims)`.
pub open spec fn signing_input(claims: Seq<u8>) -> Seq<u8> {
    hex_bytes(header_bytes()) + seq![46u8] + hex_bytes(claims)
}

/// The whole token: `hex(header).hex(claims).hex(tag)`, the tag an
/// HMAC-SHA256 over the first two parts under `key`.
pub open spec fn token_bytes(key: Seq<u8>, claims: Seq<u8>) -> Seq<u8> {
    signing_input(claims) + seq![46u8] + hex_bytes(hmac_sha256_of(key, signing_input(claims)))
}

/// The token as text.
pub open spec fn token_chars(key: Seq<u8>, claims: Seq<u8>) -> Seq<char> {
    ascii_chars(token_bytes(key, claims))
}

/// What decoding a token under `key` at `now` yields: the claims, if
/// and only if the token is exactly the encoding of claims whose
/// signature matches `key` and whose expiry text parses to an instant
/// after `now`.
pub open spec fn spec_decode_token(key: Seq<u8>, token: Seq<char>, now: i64) -> Option<
    (int, Seq<char>, Seq<Seq<char>>),
> {
    if !ascii_seq(token) {
        None
    } else {
        let b = plain_bytes(token);
        match split3(b) {
            None => None,
            Some((a, m, c)) => {
                if a != hex_bytes(header_bytes()) {
                    None
                } else if c != hex_bytes(hmac_sha256_of(key, a + seq![46u8] + m)) {
                    None
                } else {
                    match unhex(m) {
                        None => None,
                        Some(cl) => match sp_claims(cl) {
                            None => None,
                            Some((u, e, ps)) => match rfc3339_parse(e) {
                                None => None,
                                Some(t) => if t > now {
                                    Some((u, e, ps))
                                } else {
                                    None
                                },
                            },
                        },
                    }
                }
            },
        }
    }
}

/// Token round trip: decoding the encoding of well-formed, unexpired
/// claims under the same key yields exactly those claims.
pub proof fn lemma_decode_of_encode(
    key: Seq<u8>,
    user: int,
    exp: Seq<char>,
    perms: Seq<Seq<char>>,
    now: i64,
)
    requires
        claims_wf(user, exp, perms),
        match rfc3339_parse(exp) {
            Some(t) => t > now,
            None => false,
        },
    ensures
        spec_decode_token(key, token_chars(key, claims_bytes(user, exp, perms)), now) == Some(
            (user, exp, perms),
        ),
{
    let cb = claims_bytes(user, exp, perms);
    let ha = hex_bytes(header_bytes());
    let hm = hex_bytes(cb);
    let si = signing_input(cb);
    let hc = hex_bytes(hmac_sha256_of(key, si));
    let tb = token_bytes(key, cb);
    let t = token_chars(key, cb);
    lemma_hex_bytes_range(header_bytes());
    lemma_hex_bytes_range(cb);
    lemma_hex_bytes_range(hmac_sha256_of(key, si));
    assert(tb =~= ha + seq![46u8] + hm + seq![46u8] + hc);
    assert forall|i: int| 0 <= i < tb.len() implies (#[trigger] tb[i]) < 0x80u8 by {
        if i < ha.len() {
            assert(tb[i] == ha[i]);
        } else if i == ha.len() {
        } else if i < ha.len() + 1 + hm.len() {
            assert(tb[i] == hm[i - ha.len() - 1]);
        } else if i == ha.len() + 1 + hm.len() {
        } else {
            assert(tb[i] == hc[i - ha.len() - 1 - hm.len() - 1]);
        }
    }
    assert forall|i: int| 0 <= i < t.len() implies ascii_char(#[trigger] t[i]) by {
        assert(t[i] == byte_char(tb[i]));
        assert(tb[i] < 0x80u8);
    }
    assert(ascii_seq(t));
    assert forall|i: int| 0 <= i < t.len() implies plain_bytes(t)[i] == tb[i] by {
        assert(t[i] == byte_char(tb[i]));
        assert(tb[i] < 0x80u8);
    }
    assert(plain_bytes(t) =~= tb);
    lemma_split3_concat(ha, hm, hc);
    assert(split3(plain_bytes(t)) == Some((ha, hm, hc)));
    assert(ha + seq![46u8] + hm =~= si);
    lemma_unhex_hex(cb);
    lemma_sp_claims_of_canonical(user, exp, perms);
}


// ---------------------------------------------------------------------
// Executable primitives
// ---------------------------------------------------------------------

/// Powers of ten.
pub open spec fn ten_pow(n: nat) -> nat
    decreases n,
{
    if n == 0 {
        1
    } else {
        10 * ten_pow((n - 1) as nat)
    }
}


/// Without a leading zero, a digit string's value reaches ten to its
/// length less one.
pub proof fn lemma_val_lower(ds: Seq<u8>)
    requires
        forall|k: int| 0 <= k < ds.len() ==> 48 <= #[trigger] ds[k] <= 57,
        ds.len() >= 1,
        ds[0] != 48,
    ensures
        val_of_digits(ds) >= ten_pow((ds.len() - 1) as nat),
    decreases ds.len(),
{
    if ds.len() == 1 {
        assert(ds.drop_last() =~= Seq::<u8>::empty());
    } else {
        lemma_val_lower(ds.drop_last());
    }
}

/// A scan that saw digits up to `e` and a non-digit (or the end) at `e`
/// found the digit run's end.
pub proof fn lemma_digit_run_at(b: Seq<u8>, i: int, e: int)
    requires
        0 <= i <= e <= b.len(),
        forall|j: int| i <= j < e ==> 48 <= #[trigger] b[j] <= 57,
        e == b.len() || !(48 <= b[e] <= 57),
    ensures
        digit_run_end(b, i) == e,
    decreases e - i,
{
    if i < e {
        lemma_digit_run_at(b, i + 1, e);
    }
}

/// A scan that saw no dot before `k` and a dot at `k` found the first
/// dot.
pub proof fn lemma_first_dot_at(s: Seq<u8>, k: int)
    requires
        0 <= k < s.len(),
        s[k] == 46,
        forall|j: int| 0 <= j < k ==> #[trigger] s[j] != 46,
    ensures
        first_dot(s) == Some(k),
    decreases k,
{
    if k > 0 {
        lemma_first_dot_at(s.drop_first(), k - 1);
    }
}

/// A scan that saw no dot at all found none.
pub proof fn lemma_first_dot_none(s: Seq<u8>)
    requires
        forall|j: int| 0 <= j < s.len() ==> #[trigger] s[j] != 46,
    ensures
        first_dot(s) is None,
    decreases s.len(),
{
    if s.len() > 0 {
        lemma_first_dot_none(s.drop_first());
    }
}

/// The bytes of the fixed header JSON, as a vector.
pub(crate) fn header_vec() -> (v: Vec<u8>)
    ensures
        v@ == header_bytes(),
{
    let v = vec![123u8, 34u8, 97u8, 108u8, 103u8, 34u8, 58u8, 34u8, 72u8, 83u8, 50u8, 53u8, 54u8,
        34u8, 44u8, 34u8, 116u8, 121u8, 112u8, 34u8, 58u8, 34u8, 74u8, 87u8, 84u8, 34u8, 125u8];
    proof {
        assert(v@ =~= header_bytes());
    }
    v
}

fn lit_exp_vec() -> (v: Vec<u8>)
    ensures
        v@ == lit_exp(),
{
    let v = vec![123u8, 34u8, 101u8, 120u8, 112u8, 105u8, 114u8, 101u8, 100u8, 95u8, 97u8, 116u8,
        34u8, 58u8, 34u8];
    proof {
        assert(v@ =~= lit_exp());
    }
    v
}

fn lit_perms_vec() -> (v: Vec<u8>)
    ensures
        v@ == lit_perms(),
{
    let v = vec![44u8, 34u8, 112u8, 101u8, 114u8, 109u8, 105u8, 115u8, 115u8, 105u8, 111u8, 110u8,
        115u8, 34u8, 58u8, 91u8];
    proof {
        assert(v@ =~= lit_perms());
    }
    v
}

fn lit_uid_vec() -> (v: Vec<u8>)
    ensures
        v@ == lit_uid(),
{
    let v = vec![44u8, 34u8, 117u8, 115u8, 101u8, 114u8, 95u8, 105u8, 100u8, 34u8, 58u8];
    proof {
        assert(v@ =~= lit_uid());
    }
    v
}

/// Append the lowercase hex form of `data`.
pub(crate) fn hex_append(out: &mut Vec<u8>, data: &Vec<u8>)
    ensures
        final(out)@ == old(out)@ + hex_bytes(data@),
{
    let n = data.len();
    let mut i: usize = 0;
    while i < n
        invariant
            n == data.len(),
            i <= n,
            out@ == old(out)@ + hex_bytes(data@.subrange(0, i as int)),
        decreases n - i,
    {
        let b = data[i];
        let hi = b / 16;
        let lo = b % 16;
        let hd: u8 = if hi < 10 {
            48 + hi
        } else {
            87 + hi
        };
        let ld: u8 = if lo < 10 {
            48 + lo
        } else {
            87 + lo
        };
        out.push(hd);
        out.push(ld);
        proof {
            let pre = data@.subrange(0, i as int);
            let cur = data@.subrange(0, i + 1);
            assert(cur.drop_last() =~= pre);
            assert(cur.last() == data@[i as int]);
            assert(hd == hex_digit(cur.last() as int / 16));
            assert(ld == hex_digit(cur.last() as int % 16));
            assert(out@ =~= old(out)@ + hex_bytes(cur));
        }
        i += 1;
    }
    proof {
        assert(data@.subrange(0, n as int) =~= data@);
    }
}

/// The index of the first dot at or after `from`.
pub(crate) fn find_dot(b: &Vec<u8>, from: usize) -> (r: Option<usize>)
    requires
        from <= b@.len(),
    ensures
        match r {
            Some(i) => {
                &&& from <= i < b@.len()
                &&& b@[i as int] == 46
                &&& forall|j: int| from <= j < i ==> #[trigger] b@[j] != 46
                &&& first_dot(b@.subrange(from as int, b@.len() as int)) == Some(i - from)
            },
            None => {
                &&& forall|j: int| from <= j < b@.len() ==> #[trigger] b@[j] != 46
                &&& first_dot(b@.subrange(from as int, b@.len() as int)) is None
            },
        },
{
    let n = b.len();
    let mut i: usize = from;
    while i < n
        invariant
            n == b.len(),
            from <= i <= n,
            forall|j: int| from <= j < i ==> #[trigger] b@[j] != 46,
        decreases n - i,
    {
        if b[i] == 46 {
            proof {
                let s = b@.subrange(from as int, b@.len() as int);
                assert(s[i - from] == b@[i as int]);
                assert(forall|j: int| 0 <= j < i - from ==> #[trigger] s[j] == b@[j + from]);
                lemma_first_dot_at(s, i - from);
            }
            return Some(i);
        }
        i += 1;
    }
    proof {
        let s = b@.subrange(from as int, b@.len() as int);
        assert(forall|j: int| 0 <= j < s.len() ==> #[trigger] s[j] == b@[j + from]);
        lemma_first_dot_none(s);
    }
    None
}

/// Copy the byte range `[from, to)`.
pub(crate) fn sub_vec(b: &Vec<u8>, from: usize, to: usize) -> (v: Vec<u8>)
    requires
        from <= to <= b@.len(),
    ensures
        v@ == b@.subrange(from as int, to as int),
{
    let mut v: Vec<u8> = Vec::new();
    let mut i: usize = from;
    while i < to
        invariant
            from <= i <= to <= b@.len(),
            v@ == b@.subrange(from as int, i as int),
        decreases to - i,
    {
        v.push(b[i]);
        proof {
            assert(v@ =~= b@.subrange(from as int, i + 1));
        }
        i += 1;
    }
    v
}

/// Are the two byte strings equal?
pub(crate) fn bytes_eq(x: &Vec<u8>, y: &Vec<u8>) -> (r: bool)
    ensures
        r == (x@ == y@),
{
    if x.len() != y.len() {
        return false;
    }
    let n = x.len();
    let mut i: usize = 0;
    while i < n
        invariant
            n == x.len() == y.len(),
            i <= n,
            forall|j: int| 0 <= j < i ==> #[trigger] x@[j] == y@[j],
        decreases n - i,
    {
        if x[i] != y[i] {
            return false;
        }
        i += 1;
    }
    proof {
        assert(x@ =~= y@);
    }
    true
}

/// Decode the first `n` bytes as lowercase hex.
pub(crate) fn unhex_prefix(h: &Vec<u8>, n: usize) -> (r: Option<Vec<u8>>)
    requires
        n <= h@.len(),
    ensures
        match r {
            Some(v) => unhex(h@.subrange(0, n as int)) == Some(v@),
            None => unhex(h@.subrange(0, n as int)) is None,
        },
    decreases n,
{
    if n == 0 {
        let v: Vec<u8> = Vec::new();
        proof {
            assert(h@.subrange(0, 0) =~= Seq::<u8>::empty());
        }
        return Some(v);
    }
    if n == 1 {
        return None;
    }
    let r = unhex_prefix(h, n - 2);
    proof {
        let s = h@.subrange(0, n as int);
        assert(s.drop_last().drop_last() =~= h@.subrange(0, n - 2));
        assert(s[n - 2] == h@[n - 2]);
        assert(s.last() == h@[n - 1]);
    }
    match r {
        None => None,
        Some(mut v) => {
            let hb = h[n - 2];
            let lb = h[n - 1];
            let hd: u8 = if 48 <= hb && hb <= 57 {
                hb - 48
            } else if 97 <= hb && hb <= 102 {
                hb - 87
            } else {
                return None;
            };
            let ld: u8 = if 48 <= lb && lb <= 57 {
                lb - 48
            } else if 97 <= lb && lb <= 102 {
                lb - 87
            } else {
                return None;
            };
            v.push(hd * 16 + ld);
            Some(v)
        },
    }
}

/// Append the decimal digits of `n`.
fn push_dec_u32(out: &mut Vec<u8>, n: u32)
    ensures
        final(out)@ == old(out)@ + dec_digits(n as nat),
    decreases n,
{
    if n < 10 {
        out.push(48 + n as u8);
        proof {
            assert(out@ =~= old(out)@ + dec_digits(n as nat));
        }
    } else {
        push_dec_u32(out, n / 10);
        out.push(48 + (n % 10) as u8);
        proof {
            assert(dec_digits(n as nat) =~= dec_digits((n as nat) / 10).push(
                (48 + (n as nat) % 10) as u8,
            ));
            assert((n / 10) as nat == (n as nat) / 10);
            assert((n % 10) as nat == (n as nat) % 10);
            assert(out@ =~= old(out)@ + dec_digits(n as nat));
        }
    }
}

/// Append the canonical decimal form of `v`.
fn push_dec_i32(out: &mut Vec<u8>, v: i32)
    ensures
        final(out)@ == old(out)@ + dec_int(v as int),
    decreases v,
{
    if v < 0 {
        out.push(45);
        let m = (-(v as i64)) as u32;
        push_dec_u32(out, m);
        proof {
            assert(m as nat == (-(v as int)) as nat);
            assert(out@ =~= old(out)@ + dec_int(v as int));
        }
    } else {
        push_dec_u32(out, v as u32);
    }
}

/// Parse a canonical digit run at `i`: at least one digit, no useless
/// leading zero, value at most 2147483648.
fn parse_digits_at(b: &Vec<u8>, i: usize) -> (r: Option<(u64, usize)>)
    requires
        i <= b@.len(),
    ensures
        ({
            let e = digit_run_end(b@, i as int);
            let ds = b@.subrange(i as int, e);
            match r {
                Some((v, j)) => {
                    &&& j as int == e
                    &&& ds.len() >= 1
                    &&& (ds.len() == 1 || ds[0] != 48)
                    &&& v as nat == val_of_digits(ds)
                    &&& v <= 2147483648u64
                },
                None => !(ds.len() >= 1 && (ds.len() == 1 || ds[0] != 48) && val_of_digits(ds)
                    <= 2147483648),
            }
        }),
{
    let n = b.len();
    let mut e: usize = i;
    while e < n && 48 <= b[e] && b[e] <= 57
        invariant
            n == b.len(),
            i <= e <= n,
            forall|j: int| i <= j < e ==> 48 <= #[trigger] b@[j] <= 57,
        decreases n - e,
    {
        e += 1;
    }
    proof {
        lemma_digit_run_at(b@, i as int, e as int);
        assert(forall|k: int|
            0 <= k < e - i ==> 48 <= #[trigger] b@.subrange(i as int, e as int)[k] <= 57);
    }
    let ghost ds = b@.subrange(i as int, e as int);
    if e == i {
        return None;
    }
    if e - i > 1 && b[i] == 48 {
        proof {
            assert(ds[0] == b@[i as int]);
        }
        return None;
    }
    proof {
        assert(ds[0] == b@[i as int]);
    }
    if e - i > 10 {
        proof {
            lemma_val_lower(ds);
            assert(ten_pow(10) == 10000000000) by {
                reveal_with_fuel(ten_pow, 11);
            }
            assert(ds.len() - 1 >= 10);
            lemma_ten_pow_mono(10, (ds.len() - 1) as nat);
        }
        return None;
    }
    let mut acc: u64 = 0;
    let mut k: usize = i;
    while k < e
        invariant
            i <= k <= e <= b@.len(),
            e - i <= 10,
            forall|j: int| i <= j < e ==> 48 <= #[trigger] b@[j] <= 57,
            acc as nat == val_of_digits(b@.subrange(i as int, k as int)),
            acc < ten_pow((k - i) as nat),
        decreases e - k,
    {
        let d = b[k] - 48;
        proof {
            assert(ten_pow((k - i) as nat) <= ten_pow(9)) by {
                if (k - i) as nat <= 9 {
                    lemma_ten_pow_mono((k - i) as nat, 9);
                }
            }
            assert(ten_pow(9) == 1000000000) by {
                reveal_with_fuel(ten_pow, 10);
            }
        }
        acc = acc * 10 + (d as u64);
        proof {
            let pre = b@.subrange(i as int, k as int);
            let cur = b@.subrange(i as int, k + 1);
            assert(cur.drop_last() =~= pre);
            assert(cur.last() == b@[k as int]);
        }
        k += 1;
    }
    proof {
        assert(b@.subrange(i as int, e as int) =~= ds);
    }
    if acc > 2147483648u64 {
        return None;
    }
    Some((acc, e))
}

/// Powers of ten grow with the exponent.
pub proof fn lemma_ten_pow_mono(a: nat, b: nat)
    requires
        a <= b,
    ensures
        ten_pow(a) <= ten_pow(b),
    decreases b,
{
    if a < b {
        lemma_ten_pow_mono(a, (b - 1) as nat);
        assert(ten_pow(b) == 10 * ten_pow((b - 1) as nat));
        assert(ten_pow((b - 1) as nat) >= 1) by {
            lemma_ten_pow_pos((b - 1) as nat);
        }
    }
}

/// Powers of ten are positive.
pub proof fn lemma_ten_pow_pos(n: nat)
    ensures
        ten_pow(n) >= 1,
    decreases n,
{
    if n > 0 {
        lemma_ten_pow_pos((n - 1) as nat);
    }
}

/// Parse the canonical decimal form of an `i32` at `i`.
fn parse_user_id_at(b: &Vec<u8>, i: usize) -> (r: Option<(i32, usize)>)
    requires
        i <= b@.len(),
    ensures
        match sp_user_id(b@, i as int) {
            Some((u, j)) => r matches Some(p) && p.0 as int == u && p.1 as int == j,
            None => r is None,
        },
{
    if i < b.len() && b[i] == 45 {
        match parse_digits_at(b, i + 1) {
            None => None,
            Some((v, j)) => {
                if v >= 1 {
                    Some(((-(v as i64)) as i32, j))
                } else {
                    None
                }
            },
        }
    } else {
        match parse_digits_at(b, i) {
            None => None,
            Some((v, j)) => {
                if v <= 2147483647u64 {
                    Some((v as i32, j))
                } else {
                    None
                }
            },
        }
    }
}


// ---------------------------------------------------------------------
// Executable parsing and printing
// ---------------------------------------------------------------------

/// Relies on std's `FromIterator` for `String`: collecting characters
/// builds the string of exactly those characters.
#[verifier::external_body]
pub(crate) fn chars_to_string(cs: &Vec<char>) -> (s: String)
    ensures
        s@ == cs@,
{
    cs.iter().collect()
}

/// Relies on `String::from_utf8`: bytes below 0x80 are valid UTF-8 and
/// decode to the characters with the same codes.
#[verifier::external_body]
pub(crate) fn ascii_to_string(bytes: Vec<u8>) -> (s: String)
    requires
        forall|i: int| 0 <= i < bytes@.len() ==> bytes@[i] < 0x80,
    ensures
        s@ == ascii_chars(bytes@),
{
    String::from_utf8(bytes).expect("bytes are ASCII")
}

/// The bytes of a string if it is plain ASCII, else `None`.
pub(crate) fn plain_str_bytes(s: &String) -> (r: Option<Vec<u8>>)
    ensures
        match r {
            Some(v) => plain_seq(s@) && v@ == plain_bytes(s@),
            None => !plain_seq(s@),
        },
{
    if !s.is_ascii() {
        proof {
            assert(!plain_seq(s@)) by {
                if plain_seq(s@) {
                    assert forall|i: int|
                        0 <= i < s@.len() implies '\0' <= #[trigger] s@[i] <= '\u{7f}' by {
                        assert(plain_char(s@[i]));
                    }
                }
            }
        }
        return None;
    }
    let sl = s.as_str();
    let bytes = sl.as_bytes();
    proof {
        assert(vstd::string::is_ascii(sl));
        vstd::string::is_ascii_spec_bytes(sl);
        assert forall|j: int| 0 <= j < s@.len() implies ((#[trigger] s@[j]) as int) < 0x80 by {
            assert(s@[j] <= '\u{7f}');
        }
        assert forall|j: int| 0 <= j < bytes@.len() implies #[trigger] bytes@[j] == plain_bytes(
            s@,
        )[j] by {
            assert(bytes@[j] == s@[j] as u8);
        }
        assert(bytes@ =~= plain_bytes(s@));
    }
    let n = bytes.len();
    let mut v: Vec<u8> = Vec::new();
    let mut i: usize = 0;
    while i < n
        invariant
            n == bytes@.len(),
            bytes@ == plain_bytes(s@),
            n == s@.len(),
            i <= n,
            v@ == bytes@.subrange(0, i as int),
            forall|j: int| 0 <= j < i ==> plain_char(#[trigger] s@[j]),
            forall|j: int| 0 <= j < s@.len() ==> ((#[trigger] s@[j]) as int) < 0x80,
        decreases n - i,
    {
        let x = bytes[i];
        proof {
            assert(x == s@[i as int] as u8);
        }
        if x < 0x20 || x > 0x7e || x == 34 || x == 92 {
            proof {
                assert(!plain_char(s@[i as int]));
            }
            return None;
        }
        v.push(x);
        proof {
            assert(v@ =~= bytes@.subrange(0, i + 1));
            assert((s@[i as int] as int) < 0x80);
            lemma_ascii_char_byte(s@[i as int]);
            assert(plain_char(s@[i as int]));
        }
        i += 1;
    }
    proof {
        assert(v@ =~= bytes@);
    }
    Some(v)
}

/// Parse a plain JSON string body at `i`, consuming the closing quote.
fn parse_str_at(b: &Vec<u8>, i: usize) -> (r: Option<(Vec<char>, usize)>)
    ensures
        match sp_str(b@, i as int) {
            Some((s, j)) => r matches Some(p) && p.0@ == s && p.1 as int == j,
            None => r is None,
        },
    decreases b@.len() - i,
{
    if i >= b.len() {
        return None;
    }
    let x = b[i];
    if x == 34 {
        let v: Vec<char> = Vec::new();
        return Some((v, i + 1));
    }
    if x < 0x20 || x > 0x7e || x == 92 {
        return None;
    }
    match parse_str_at(b, i + 1) {
        None => None,
        Some((mut cs, j)) => {
            let ghost pre = cs@;
            cs.insert(0, x as char);
            proof {
                assert(cs@ =~= seq![b@[i as int] as char] + pre);
            }
            Some((cs, j))
        },
    }
}

/// A successful permission-list parse moves forward and stays in
/// bounds.
pub proof fn lemma_sp_perms_shape(b: Seq<u8>, i: int, fuel: nat)
    requires
        sp_perms(b, i, fuel) is Some,
    ensures
        ({
            let (ps, k) = sp_perms(b, i, fuel).unwrap();
            i < k <= b.len()
        }),
    decreases fuel,
{
    if 0 <= i < b.len() && b[i] == 34 {
        match sp_str(b, i + 1) {
            None => {},
            Some((p, j)) => {
                lemma_sp_str_shape(b, i + 1);
                if 0 <= j < b.len() && b[j] == 44 {
                    if sp_perms(b, j + 1, (fuel - 1) as nat) is Some {
                        lemma_sp_perms_shape(b, j + 1, (fuel - 1) as nat);
                    }
                }
            },
        }
    }
}

/// Parse the permission list at `i`, just after the `[`.
fn parse_perms_at(b: &Vec<u8>, i: usize) -> (r: Option<(Vec<String>, usize)>)
    ensures
        ({
            let f = if i as int <= b@.len() {
                (b@.len() - i + 1) as nat
            } else {
                1nat
            };
            match sp_perms(b@, i as int, f) {
                Some((ps, j)) => r matches Some(p) && p.0.deep_view() == ps && p.1 as int == j,
                None => r is None,
            }
        }),
    decreases b@.len() - i,
{
    if i >= b.len() {
        return None;
    }
    if b[i] == 93 {
        let v: Vec<String> = Vec::new();
        proof {
            assert(v.deep_view() =~= Seq::<Seq<char>>::empty());
        }
        return Some((v, i + 1));
    }
    if b[i] != 34 {
        return None;
    }
    match parse_str_at(b, i + 1) {
        None => None,
        Some((cs, j)) => {
            proof {
                lemma_sp_str_shape(b@, i as int + 1);
            }
            let p = chars_to_string(&cs);
            if j < b.len() && b[j] == 93 {
                let mut v: Vec<String> = Vec::new();
                v.push(p);
                proof {
                    assert(v.deep_view() =~= seq![cs@]);
                }
                Some((v, j + 1))
            } else if j < b.len() && b[j] == 44 {
                match parse_perms_at(b, j + 1) {
                    None => {
                        proof {
                            lemma_sp_perms_fuel(
                                b@,
                                j as int + 1,
                                (b@.len() - (j + 1) + 1) as nat,
                                (b@.len() - i as int) as nat,
                            );
                        }
                        None
                    },
                    Some((mut ps, k)) => {
                        proof {
                            lemma_sp_perms_fuel(
                                b@,
                                j as int + 1,
                                (b@.len() - (j + 1) + 1) as nat,
                                (b@.len() - i as int) as nat,
                            );
                        }
                        if ps.len() >= 1 {
                            let ghost pre = ps.deep_view();
                            ps.insert(0, p);
                            proof {
                                assert(ps.deep_view() =~= seq![cs@] + pre);
                            }
                            Some((ps, k))
                        } else {
                            None
                        }
                    },
                }
            } else {
                None
            }
        },
    }
}

/// Expect the exact bytes of `lit` at `i`.
fn expect_lit(b: &Vec<u8>, i: usize, lit: &Vec<u8>) -> (r: Option<usize>)
    ensures
        match sp_lit(b@, i as int, lit@) {
            Some(j) => r matches Some(jj) && jj as int == j,
            None => r is None,
        },
{
    if i > b.len() || lit.len() > b.len() - i {
        return None;
    }
    let m = lit.len();
    let nb = b.len();
    let mut k: usize = 0;
    while k < m
        invariant
            m == lit@.len(),
            nb == b@.len(),
            i + m <= nb,
            k <= m,
            forall|j: int| 0 <= j < k ==> #[trigger] b@[i + j] == lit@[j],
        decreases m - k,
    {
        if b[i + k] != lit[k] {
            proof {
                if b@.subrange(i as int, i + lit@.len()) == lit@ {
                    assert(b@.subrange(i as int, i + lit@.len())[k as int] == lit@[k as int]);
                }
            }
            return None;
        }
        k += 1;
    }
    proof {
        assert forall|j: int| 0 <= j < lit@.len() implies b@.subrange(i as int, i + lit@.len())[j]
            == lit@[j] by {
            assert(b@[i + j] == lit@[j]);
        }
        assert(b@.subrange(i as int, i + lit@.len()) =~= lit@);
    }
    Some(i + m)
}

/// Parse the whole canonical claims JSON.
pub fn parse_claims_vec(cl: &Vec<u8>) -> (r: Option<(i32, String, Vec<String>)>)
    ensures
        match sp_claims(cl@) {
            Some((u, e, ps)) => r matches Some(t) && t.0 as int == u && t.1@ == e
                && t.2.deep_view() == ps,
            None => r is None,
        },
{
    let le = lit_exp_vec();
    let i1 = match expect_lit(cl, 0, &le) {
        Some(i) => i,
        None => {
            return None;
        },
    };
    let (ev, i2) = match parse_str_at(cl, i1) {
        Some(p) => p,
        None => {
            return None;
        },
    };
    proof {
        lemma_sp_str_shape(cl@, i1 as int);
    }
    let e_str = chars_to_string(&ev);
    let lp = lit_perms_vec();
    let i3 = match expect_lit(cl, i2, &lp) {
        Some(i) => i,
        None => {
            return None;
        },
    };
    let (pv, i4) = match parse_perms_at(cl, i3) {
        Some(p) => {
            proof {
                lemma_sp_perms_fuel(
                    cl@,
                    i3 as int,
                    (cl@.len() - i3 + 1) as nat,
                    (cl@.len() + 1) as nat,
                );
            }
            p
        },
        None => {
            proof {
                lemma_sp_perms_fuel(
                    cl@,
                    i3 as int,
                    (cl@.len() - i3 + 1) as nat,
                    (cl@.len() + 1) as nat,
                );
            }
            return None;
        },
    };
    proof {
        lemma_sp_perms_shape(cl@, i3 as int, (cl@.len() + 1) as nat);
    }
    let lu = lit_uid_vec();
    let i5 = match expect_lit(cl, i4, &lu) {
        Some(i) => i,
        None => {
            return None;
        },
    };
    let (uid, i6) = match parse_user_id_at(cl, i5) {
        Some(p) => p,
        None => {
            return None;
        },
    };
    if i6 < cl.len() && cl[i6] == 125 && i6 + 1 == cl.len() {
        Some((uid, e_str, pv))
    } else {
        None
    }
}

/// Are these claims fit for the wire? Every string plain ASCII.
pub open spec fn claims_plain(c: Claims) -> bool {
    &&& plain_seq(c.expired_at@)
    &&& forall|k: int| 0 <= k < c.permissions@.len() ==> plain_seq((#[trigger] c.permissions@[k])@)
}

/// The canonical claims JSON for a claims record, or `None` when some
/// string cannot be put on the wire.
pub fn encode_claims(c: &Claims) -> (r: Option<Vec<u8>>)
    ensures
        match r {
            Some(v) => claims_plain(*c) && v@ == claims_bytes(
                c.user_id as int,
                c.expired_at@,
                c.permissions.deep_view(),
            ),
            None => !claims_plain(*c),
        },
{
    let ghost dv = c.permissions.deep_view();
    let mut exp_b = match plain_str_bytes(&c.expired_at) {
        Some(v) => v,
        None => {
            return None;
        },
    };
    let mut out = lit_exp_vec();
    out.append(&mut exp_b);
    out.push(34);
    let mut lp = lit_perms_vec();
    out.append(&mut lp);
    let ghost head = lit_exp() + plain_bytes(c.expired_at@) + seq![34u8] + lit_perms();
    proof {
        assert(out@ =~= head + perms_body_bytes(dv.take(0)));
    }
    let n = c.permissions.len();
    let mut k: usize = 0;
    while k < n
        invariant
            n == c.permissions@.len(),
            k <= n,
            dv == c.permissions.deep_view(),
            head == lit_exp() + plain_bytes(c.expired_at@) + seq![34u8] + lit_perms(),
            plain_seq(c.expired_at@),
            out@ == head + perms_body_bytes(dv.take(k as int)),
            forall|j: int| 0 <= j < k ==> plain_seq(#[trigger] dv[j]),
        decreases n - k,
    {
        let mut pb = match plain_str_bytes(&c.permissions[k]) {
            Some(v) => v,
            None => {
                proof {
                    assert(dv[k as int] == c.permissions@[k as int]@);
                }
                return None;
            },
        };
        if k > 0 {
            out.push(44);
        }
        out.push(34);
        out.append(&mut pb);
        out.push(34);
        proof {
            assert(dv[k as int] == c.permissions@[k as int]@);
            lemma_perms_body_push(dv.take(k as int), dv[k as int]);
            assert(dv.take(k + 1) =~= dv.take(k as int).push(dv[k as int]));
            assert(out@ =~= head + perms_body_bytes(dv.take(k + 1)));
        }
        k += 1;
    }
    out.push(93);
    let mut lu = lit_uid_vec();
    out.append(&mut lu);
    push_dec_i32(&mut out, c.user_id);
    out.push(125);
    proof {
        assert(dv.take(n as int) =~= dv);
        assert(out@ =~= claims_bytes(c.user_id as int, c.expired_at@, dv));
        assert forall|j: int| 0 <= j < c.permissions@.len() implies plain_seq(
            (#[trigger] c.permissions@[j])@,
        ) by {
            assert(plain_seq(dv[j]));
        }
    }
    Some(out)
}

} // verus!
