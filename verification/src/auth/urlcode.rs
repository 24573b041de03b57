//! Percent encoding, form bodies and URL-safe base64.

use vstd::prelude::*;
use vstd::string::*;
use vstd::utf8::{encode_utf8, is_ascii_chars, is_ascii_chars_encode_utf8};

use crate::hash::{sha256, sha256_of};
use crate::text::{
    opt_view, push_char, same, split, split_at_first, split_once, split_pieces, utf8_lossy,
    utf8_lossy_of, views,
};

verus! {

/// Whether a byte stands for itself in a URL.
pub open spec fn unreserved(b: u8) -> bool {
    (65 <= b <= 90) || (97 <= b <= 122) || (48 <= b <= 57) || b == 45 || b == 95 || b == 46 || b
        == 126
}

/// The upper-case hexadecimal digit of `d`.
pub open spec fn upper_hex(d: u8) -> u8 {
    if d < 10 {
        (48 + d) as u8
    } else {
        (55 + d) as u8
    }
}

/// The bytes that a byte is written as.
pub open spec fn encoded_byte(b: u8) -> Seq<u8> {
    if unreserved(b) {
        seq![b]
    } else {
        seq![37u8, upper_hex((b / 16) as u8), upper_hex((b % 16) as u8)]
    }
}

/// The bytes that bytes are written as.
pub open spec fn encoded_bytes(bs: Seq<u8>) -> Seq<u8>
    decreases bs.len(),
{
    if bs.len() == 0 {
        Seq::empty()
    } else {
        encoded_byte(bs[0]) + encoded_bytes(bs.skip(1))
    }
}

/// ASCII bytes as characters.
pub open spec fn as_chars(bs: Seq<u8>) -> Seq<char> {
    bs.map_values(|b: u8| b as char)
}

/// The percent-encoded form of a text.
pub open spec fn url_encoded(s: Seq<char>) -> Seq<char> {
    as_chars(encoded_bytes(encode_utf8(s)))
}

fn upper_hex_digit(d: u8) -> (r: u8)
    requires
        d < 16,
    ensures
        r == upper_hex(d),
        r < 128,
{
    if d < 10 {
        48 + d
    } else {
        55 + d
    }
}

/// Percent-encodes a text: letters, digits and `-_.~` stand for themselves.
pub fn urlencode(s: &str) -> (r: String)
    ensures
        r@ == url_encoded(s@),
{
    let bytes = s.as_bytes();
    let mut out = String::new();
    let mut i: usize = 0;
    let ghost all = encoded_bytes(bytes@);
    assert(bytes@.skip(0) =~= bytes@);
    assert(out@ + as_chars(encoded_bytes(bytes@.skip(0))) =~= as_chars(all));
    while i < bytes.len()
        invariant
            i <= bytes@.len(),
            out@ + as_chars(encoded_bytes(bytes@.skip(i as int))) == as_chars(all),
        decreases bytes@.len() - i,
    {
        let b: u8 = bytes[i];
        let ghost o0 = out@;
        let ghost rest = bytes@.skip(i as int);
        assert(rest.skip(1) =~= bytes@.skip(i as int + 1));
        if (65 <= b && b <= 90) || (97 <= b && b <= 122) || (48 <= b && b <= 57) || b == 45 || b
            == 95 || b == 46 || b == 126 {
            push_char(&mut out, b as char);
        } else {
            push_char(&mut out, '%');
            push_char(&mut out, upper_hex_digit(b / 16) as char);
            push_char(&mut out, upper_hex_digit(b % 16) as char);
        }
        proof {
            assert(out@ =~= o0 + as_chars(encoded_byte(b)));
            assert(as_chars(encoded_bytes(rest)) =~= as_chars(encoded_byte(b)) + as_chars(
                encoded_bytes(rest.skip(1)),
            ));
            assert(out@ + as_chars(encoded_bytes(rest.skip(1))) =~= o0 + as_chars(
                encoded_bytes(rest),
            ));
        }
        i = i + 1;
    }
    assert(bytes@.skip(bytes@.len() as int) =~= Seq::empty());
    assert(out@ =~= as_chars(all));
    out
}

/// The value of a hexadecimal digit.
pub open spec fn hex_value(b: u8) -> Option<u8> {
    if 48 <= b <= 57 {
        Some((b - 48) as u8)
    } else if 97 <= b <= 102 {
        Some((b - 87) as u8)
    } else if 65 <= b <= 70 {
        Some((b - 55) as u8)
    } else {
        None
    }
}

/// The bytes that percent-encoded bytes stand for. `+` stands for a space; a
/// percent sign without two hexadecimal digits stands for itself.
pub open spec fn decoded_bytes(bs: Seq<u8>) -> Seq<u8>
    decreases bs.len(),
{
    if bs.len() == 0 {
        Seq::empty()
    } else if bs[0] == 37 && bs.len() >= 3 && hex_value(bs[1]) is Some && hex_value(bs[2]) is Some {
        seq![(hex_value(bs[1])->0 * 16 + hex_value(bs[2])->0) as u8] + decoded_bytes(bs.skip(3))
    } else if bs[0] == 43 {
        seq![32u8] + decoded_bytes(bs.skip(1))
    } else {
        seq![bs[0]] + decoded_bytes(bs.skip(1))
    }
}

/// What a percent-encoded text stands for.
pub open spec fn url_decoded(s: Seq<char>) -> Seq<char> {
    utf8_lossy_of(decoded_bytes(encode_utf8(s)))
}

fn hex_digit_value(b: u8) -> (r: Option<u8>)
    ensures
        r == hex_value(b),
        r matches Some(d) ==> d < 16,
{
    if 48 <= b && b <= 57 {
        Some(b - 48)
    } else if 97 <= b && b <= 102 {
        Some(b - 87)
    } else if 65 <= b && b <= 70 {
        Some(b - 55)
    } else {
        None
    }
}

fn decode_bytes(bytes: &[u8]) -> (out: Vec<u8>)
    ensures
        out@ == decoded_bytes(bytes@),
{
    let mut out: Vec<u8> = Vec::new();
    let n: usize = bytes.len();
    let mut i: usize = 0;
    assert(bytes@.skip(0) =~= bytes@);
    assert(out@ + decoded_bytes(bytes@) =~= decoded_bytes(bytes@));
    while i < n
        invariant
            i <= n == bytes@.len(),
            out@ + decoded_bytes(bytes@.skip(i as int)) == decoded_bytes(bytes@),
        decreases n - i,
    {
        let ghost rest = bytes@.skip(i as int);
        let ghost o0 = out@;
        let mut step: usize = 1;
        let mut value: u8 = bytes[i];
        if bytes[i] == 37 && n - i >= 3 {
            match (hex_digit_value(bytes[i + 1]), hex_digit_value(bytes[i + 2])) {
                (Some(h), Some(l)) => {
                    value = h * 16 + l;
                    step = 3;
                },
                _ => {},
            }
        } else if bytes[i] == 43 {
            value = 32;
        }
        out.push(value);
        proof {
            assert(rest.skip(step as int) =~= bytes@.skip(i + step));
            assert(decoded_bytes(rest) == seq![value] + decoded_bytes(rest.skip(step as int)));
            assert(out@ + decoded_bytes(rest.skip(step as int)) =~= o0 + (seq![value]
                + decoded_bytes(rest.skip(step as int))));
        }
        i = i + step;
    }
    assert(bytes@.skip(n as int) =~= Seq::empty());
    assert(out@ =~= decoded_bytes(bytes@));
    out
}

/// Decodes a percent-encoded text.
pub fn urldecode(s: &str) -> (r: String)
    ensures
        r@ == url_decoded(s@),
        forall|t: Seq<char>| s@ == #[trigger] url_encoded(t) ==> r@ == t,
{
    let out = decode_bytes(s.as_bytes());
    proof {
        assert forall|t: Seq<char>| s@ == #[trigger] url_encoded(t) implies out@ == encode_utf8(
            t,
        ) by {
            decoding_undoes_encoding(t);
        }
        assert forall|t: Seq<char>| #[trigger] vstd::utf8::valid_utf8(encode_utf8(t))
            && vstd::utf8::decode_utf8(encode_utf8(t)) == t by {
            vstd::utf8::encode_utf8_valid_utf8(t);
            vstd::utf8::encode_utf8_decode_utf8(t);
        }
    }
    utf8_lossy(out.as_slice())
}

proof fn lemma_encoded_ascii(bs: Seq<u8>)
    ensures
        forall|i: int| 0 <= i < encoded_bytes(bs).len() ==> (#[trigger] encoded_bytes(bs)[i]) < 128,
    decreases bs.len(),
{
    if bs.len() > 0 {
        lemma_encoded_ascii(bs.skip(1));
        let e = encoded_byte(bs[0]);
        let all = encoded_bytes(bs);
        assert forall|i: int| 0 <= i < all.len() implies (#[trigger] all[i]) < 128 by {
            if i < e.len() {
                assert(all[i] == e[i]);
            } else {
                assert(all[i] == encoded_bytes(bs.skip(1))[i - e.len()]);
            }
        }
    }
}

proof fn lemma_decode_encoded(bs: Seq<u8>)
    ensures
        decoded_bytes(encoded_bytes(bs)) == bs,
    decreases bs.len(),
{
    if bs.len() == 0 {
        assert(decoded_bytes(encoded_bytes(bs)) =~= bs);
    } else {
        let b = bs[0];
        let rest = encoded_bytes(bs.skip(1));
        lemma_decode_encoded(bs.skip(1));
        let all = encoded_bytes(bs);
        if unreserved(b) {
            assert(all[0] == b);
            assert(all.skip(1) =~= rest);
        } else {
            let h = (b / 16) as u8;
            let l = (b % 16) as u8;
            assert(all[0] == 37);
            assert(all[1] == upper_hex(h));
            assert(all[2] == upper_hex(l));
            assert(hex_value(upper_hex(h)) == Some(h));
            assert(hex_value(upper_hex(l)) == Some(l));
            assert(h * 16 + l == b);
            assert(all.skip(3) =~= rest);
        }
        assert(seq![b] + bs.skip(1) =~= bs);
    }
}

/// Decoding a percent-encoded text gives the bytes that were encoded.
pub proof fn decoding_undoes_encoding(s: Seq<char>)
    ensures
        decoded_bytes(encode_utf8(url_encoded(s))) == encode_utf8(s),
{
    let bs = encode_utf8(s);
    let e = encoded_bytes(bs);
    lemma_encoded_ascii(bs);
    lemma_decode_encoded(bs);
    let chars = as_chars(e);
    assert(is_ascii_chars(chars));
    is_ascii_chars_encode_utf8(chars);
    assert(encode_utf8(chars) =~= e);
}

/// The key of a pair in a form body.
pub open spec fn pair_key(pair: Seq<char>) -> Seq<char> {
    match split_at_first(pair, '=') {
        Some(p) => p.0,
        None => pair,
    }
}

/// The value of a pair in a form body.
pub open spec fn pair_value(pair: Seq<char>) -> Seq<char> {
    match split_at_first(pair, '=') {
        Some(p) => p.1,
        None => Seq::empty(),
    }
}

/// The decoded value of the last pair with a key.
pub open spec fn last_value(pairs: Seq<Seq<char>>, key: Seq<char>) -> Option<Seq<char>>
    decreases pairs.len(),
{
    if pairs.len() == 0 {
        None
    } else if pair_key(pairs.last()) == key {
        Some(url_decoded(pair_value(pairs.last())))
    } else {
        last_value(pairs.drop_last(), key)
    }
}

/// The decoded value of a key in a form body.
pub open spec fn form_value_of(body: Seq<char>, key: Seq<char>) -> Option<Seq<char>> {
    last_value(split_pieces(body, '&'), key)
}

/// The decoded value of a key in a form body; of several the last counts.
pub fn form_value(body: &str, key: &str) -> (r: Option<String>)
    ensures
        opt_view(r) == form_value_of(body@, key@),
{
    let pairs = split(body, '&');
    let ghost ps = views(pairs@);
    let mut found: Option<String> = None;
    let mut i: usize = 0;
    while i < pairs.len()
        invariant
            i <= pairs@.len(),
            ps == views(pairs@),
            opt_view(found) == last_value(ps.take(i as int), key@),
        decreases pairs@.len() - i,
    {
        proof {
            assert(ps.take(i as int + 1).drop_last() =~= ps.take(i as int));
            assert(ps.take(i as int + 1).last() == pairs@[i as int]@);
        }
        let (k, v) = match split_once(pairs[i].as_str(), '=') {
            Some(p) => p,
            None => {
                let none = String::new();
                assert(none@ =~= Seq::empty());
                (pairs[i].clone(), none)
            },
        };
        assert(k@ == pair_key(pairs@[i as int]@));
        assert(v@ == pair_value(pairs@[i as int]@));
        if same(k.as_str(), key) {
            found = Some(urldecode(v.as_str()));
        }
        i = i + 1;
    }
    assert(ps.take(pairs@.len() as int) =~= ps);
    found
}

/// The character of a six-bit number in the URL-safe alphabet.
pub open spec fn base64_char(d: int) -> char {
    if d < 26 {
        (65 + d) as u8 as char
    } else if d < 52 {
        (97 + d - 26) as u8 as char
    } else if d < 62 {
        (48 + d - 52) as u8 as char
    } else if d == 62 {
        '-'
    } else {
        '_'
    }
}

/// The number that up to three bytes stand for.
pub open spec fn triple(a: u8, b: u8, c: u8) -> int {
    a as int * 65536 + b as int * 256 + c as int
}

/// The URL-safe base64 form of bytes, without padding.
pub open spec fn base64_of(bs: Seq<u8>) -> Seq<char>
    decreases bs.len(),
{
    if bs.len() == 0 {
        Seq::empty()
    } else if bs.len() == 1 {
        let n = triple(bs[0], 0, 0);
        seq![base64_char(n / 262144), base64_char(n / 4096 % 64)]
    } else if bs.len() == 2 {
        let n = triple(bs[0], bs[1], 0);
        seq![base64_char(n / 262144), base64_char(n / 4096 % 64), base64_char(n / 64 % 64)]
    } else {
        let n = triple(bs[0], bs[1], bs[2]);
        seq![
            base64_char(n / 262144),
            base64_char(n / 4096 % 64),
            base64_char(n / 64 % 64),
            base64_char(n % 64),
        ] + base64_of(bs.skip(3))
    }
}

/// The character of a six-bit number in the URL-safe alphabet.
pub fn base64_digit(d: u32) -> (r: char)
    requires
        d < 64,
    ensures
        r == base64_char(d as int),
{
    let d: u8 = d as u8;
    if d < 26 {
        (65 + d) as char
    } else if d < 52 {
        (97 + (d - 26)) as char
    } else if d < 62 {
        (48 + (d - 52)) as char
    } else if d == 62 {
        '-'
    } else {
        '_'
    }
}

/// Encodes bytes in URL-safe base64 without padding.
pub fn base64_encode_url_safe(bytes: &[u8]) -> (r: String)
    ensures
        r@ == base64_of(bytes@),
{
    let mut out = String::new();
    let n: usize = bytes.len();
    let mut i: usize = 0;
    assert(bytes@.skip(0) =~= bytes@);
    assert(out@ + base64_of(bytes@) =~= base64_of(bytes@));
    while n - i >= 3
        invariant
            i <= n == bytes@.len(),
            out@ + base64_of(bytes@.skip(i as int)) == base64_of(bytes@),
        decreases n - i,
    {
        let ghost rest = bytes@.skip(i as int);
        let ghost o0 = out@;
        let v: u32 = (bytes[i] as u32) * 65536 + (bytes[i + 1] as u32) * 256 + (bytes[i + 2] as u32);
        push_char(&mut out, base64_digit(v / 262144));
        push_char(&mut out, base64_digit(v / 4096 % 64));
        push_char(&mut out, base64_digit(v / 64 % 64));
        push_char(&mut out, base64_digit(v % 64));
        proof {
            assert(rest.skip(3) =~= bytes@.skip(i as int + 3));
            let head = seq![
                base64_char(v as int / 262144),
                base64_char(v as int / 4096 % 64),
                base64_char(v as int / 64 % 64),
                base64_char(v as int % 64),
            ];
            assert(base64_of(rest) == head + base64_of(rest.skip(3)));
            assert(out@ =~= o0 + head);
            assert(out@ + base64_of(rest.skip(3)) =~= o0 + base64_of(rest));
        }
        i = i + 3;
    }
    let ghost rest = bytes@.skip(i as int);
    let ghost o0 = out@;
    if n - i == 1 {
        let v: u32 = (bytes[i] as u32) * 65536;
        push_char(&mut out, base64_digit(v / 262144));
        push_char(&mut out, base64_digit(v / 4096 % 64));
    } else if n - i == 2 {
        let v: u32 = (bytes[i] as u32) * 65536 + (bytes[i + 1] as u32) * 256;
        push_char(&mut out, base64_digit(v / 262144));
        push_char(&mut out, base64_digit(v / 4096 % 64));
        push_char(&mut out, base64_digit(v / 64 % 64));
    }
    assert(out@ =~= o0 + base64_of(rest));
    out
}

/// The PKCE challenge of a verifier: its SHA-256 digest in URL-safe base64.
pub open spec fn challenge_of(verifier: Seq<char>) -> Seq<char> {
    base64_of(sha256_of(encode_utf8(verifier)))
}

/// The PKCE challenge of a verifier.
pub fn pkce_challenge_s256(verifier: &str) -> (r: String)
    ensures
        r@ == challenge_of(verifier@),
{
    let d = sha256(verifier.as_bytes());
    base64_encode_url_safe(d.as_slice())
}

/// Whether a character is in the URL-safe alphabet.
pub open spec fn url_safe(c: char) -> bool {
    crate::random::alphanumeric(c) || c == '-' || c == '_'
}

/// URL-safe base64 uses its alphabet only: no `+`, no `/` and no padding.
pub proof fn base64_is_url_safe(bs: Seq<u8>)
    ensures
        forall|i: int| 0 <= i < base64_of(bs).len() ==> url_safe(#[trigger] base64_of(bs)[i]),
    decreases bs.len(),
{
    assert forall|d: int| 0 <= d < 64 implies url_safe(#[trigger] base64_char(d)) by {}
    if bs.len() >= 3 {
        base64_is_url_safe(bs.skip(3));
        let n = triple(bs[0], bs[1], bs[2]);
        let head = seq![
            base64_char(n / 262144),
            base64_char(n / 4096 % 64),
            base64_char(n / 64 % 64),
            base64_char(n % 64),
        ];
        let all = base64_of(bs);
        assert(all == head + base64_of(bs.skip(3)));
        assert(0 <= n / 262144 < 64);
        assert forall|i: int| 0 <= i < all.len() implies url_safe(#[trigger] all[i]) by {
            if i < 4 {
                assert(all[i] == head[i]);
            } else {
                assert(all[i] == base64_of(bs.skip(3))[i - 4]);
            }
        }
    } else if bs.len() == 2 {
        let n = triple(bs[0], bs[1], 0);
        assert(0 <= n / 262144 < 64);
    } else if bs.len() == 1 {
        let n = triple(bs[0], 0, 0);
        assert(0 <= n / 262144 < 64);
    }
}

/// The text that random bytes are turned into: one character of the URL-safe
/// alphabet for the low six bits of each.
pub open spec fn token_of(bs: Seq<u8>) -> Seq<char> {
    bs.map_values(|b: u8| base64_char(b as int % 64))
}

/// Turns random bytes into text.
pub fn token_from_bytes(bytes: &[u8]) -> (r: String)
    ensures
        r@ == token_of(bytes@),
        r@.len() == bytes@.len(),
        forall|i: int| 0 <= i < r@.len() ==> url_safe(#[trigger] r@[i]),
{
    let mut out = String::new();
    let mut i: usize = 0;
    assert(out@ =~= token_of(bytes@.take(0)));
    while i < bytes.len()
        invariant
            i <= bytes@.len(),
            out@ == token_of(bytes@.take(i as int)),
        decreases bytes@.len() - i,
    {
        push_char(&mut out, base64_digit((bytes[i] % 64) as u32));
        assert(out@ =~= token_of(bytes@.take(i as int + 1)));
        i = i + 1;
    }
    assert(bytes@.take(bytes@.len() as int) =~= bytes@);
    assert forall|k: int| 0 <= k < out@.len() implies url_safe(#[trigger] out@[k]) by {
        assert(out@[k] == base64_char(bytes@[k] as int % 64));
    }
    out
}

/// Whether a text is `n` characters of the URL-safe alphabet.
pub open spec fn is_token(s: Seq<char>, n: int) -> bool {
    s.len() == n && forall|i: int| 0 <= i < s.len() ==> url_safe(#[trigger] s[i])
}

/// A random text of `n` characters of the URL-safe alphabet.
pub fn random_token(n: usize) -> (r: String)
    ensures
        is_token(r@, n as int),
{
    let bytes = crate::random::random_bytes(n);
    token_from_bytes(bytes.as_slice())
}

/// In a URL letters, digits and the four marks `-`, `.`, `_` and `~` stand for
/// themselves. Every other byte is a percent sign and its two capital
/// hexadecimal digits.
pub proof fn other_bytes_are_escaped(b: u8, rest: Seq<u8>)
    ensures
        encoded_bytes(Seq::empty()) == Seq::<u8>::empty(),
        ({
            let stays = (65 <= b <= 90) || (97 <= b <= 122) || (48 <= b <= 57) || b == 45 || b == 46 || b
                == 95 || b == 126;
            let e = encoded_bytes(seq![b] + rest);
            if stays {
                e == seq![b] + encoded_bytes(rest)
            } else {
                &&& e.len() == 3 + encoded_bytes(rest).len()
                &&& e[0] == 37
                &&& forall|k: int| 1 <= k < 3 ==> 48 <= #[trigger] e[k] <= 57 || 65 <= e[k] <= 70
                &&& hex_value(e[1]) matches Some(h) && hex_value(e[2]) matches Some(l) && h * 16 + l == b
                &&& e.skip(3) == encoded_bytes(rest)
            }
        }),
{
    let bs = seq![b] + rest;
    assert(bs.skip(1) =~= rest);
    let e = encoded_bytes(bs);
    if !unreserved(b) {
        assert(e.skip(3) =~= encoded_bytes(rest));
        let h = (b / 16) as u8;
        let l = (b % 16) as u8;
        assert(e[1] == upper_hex(h) && e[2] == upper_hex(l));
    }
}

/// A text of letters, digits and the four marks is its own encoding.
pub proof fn plain_texts_stay(s: Seq<char>)
    requires
        forall|i: int|
            0 <= i < s.len() ==> crate::random::alphanumeric(#[trigger] s[i]) || s[i] == '-' || s[i] == '.'
                || s[i] == '_' || s[i] == '~',
    ensures
        url_encoded(s) == s,
{
    assert(is_ascii_chars(s));
    is_ascii_chars_encode_utf8(s);
    let bs = encode_utf8(s);
    lemma_plain_bytes(bs);
    assert(as_chars(bs) =~= s);
}

proof fn lemma_plain_bytes(bs: Seq<u8>)
    requires
        forall|i: int| 0 <= i < bs.len() ==> unreserved(#[trigger] bs[i]),
    ensures
        encoded_bytes(bs) == bs,
    decreases bs.len(),
{
    if bs.len() > 0 {
        lemma_plain_bytes(bs.skip(1));
        assert(seq![bs[0]] + bs.skip(1) =~= bs);
    } else {
        assert(bs =~= Seq::<u8>::empty());
    }
}

/// A plus sign is read as a space. A percent sign with two hexadecimal digits,
/// small or capital, is read as the byte. All else is read as it stands, a
/// percent sign without its digits too.
pub proof fn escapes_are_read(h: u8, l: u8, b: u8, rest: Seq<u8>)
    ensures
        decoded_bytes(Seq::empty()) == Seq::<u8>::empty(),
        decoded_bytes(seq![43u8] + rest) == seq![32u8] + decoded_bytes(rest),
        b != 43 && b != 37 ==> decoded_bytes(seq![b] + rest) == seq![b] + decoded_bytes(rest),
        rest.len() < 2 || hex_value(rest[0]) is None || hex_value(rest[1]) is None ==> decoded_bytes(
            seq![37u8] + rest,
        ) == seq![37u8] + decoded_bytes(rest),
        hex_value(h) is Some && hex_value(l) is Some ==> decoded_bytes(seq![37u8, h, l] + rest) == seq![
            (hex_value(h)->0 * 16 + hex_value(l)->0) as u8,
        ] + decoded_bytes(rest),
        hex_value(h) is Some <==> (48 <= h <= 57 || 65 <= h <= 70 || 97 <= h <= 102),
        48 <= h <= 57 ==> hex_value(h)->0 == h - 48,
        65 <= h <= 70 ==> hex_value(h)->0 == h - 65 + 10,
        97 <= h <= 102 ==> hex_value(h)->0 == h - 97 + 10,
{
    assert((seq![43u8] + rest).skip(1) =~= rest);
    assert((seq![b] + rest).skip(1) =~= rest);
    let p = seq![37u8] + rest;
    assert(p.skip(1) =~= rest);
    if rest.len() >= 2 {
        assert(p[1] == rest[0] && p[2] == rest[1]);
    }
    assert((seq![37u8, h, l] + rest).skip(3) =~= rest);
}

/// The last pair of a form body decides what its key is. The other keys are as
/// the pairs before it say.
pub proof fn the_last_pair_decides(body: Seq<char>, key: Seq<char>, value: Seq<char>, other: Seq<char>)
    requires
        !key.contains('&'),
        !key.contains('='),
        !value.contains('&'),
    ensures
        form_value_of(key + "="@ + value, key) == Some(url_decoded(value)),
        form_value_of(body + "&"@ + key + "="@ + value, key) == Some(url_decoded(value)),
        other != key ==> form_value_of(body + "&"@ + key + "="@ + value, other) == form_value_of(
            body,
            other,
        ),
        other != key ==> form_value_of(key + "="@ + value, other) is None,
{
    reveal_strlit("=");
    reveal_strlit("&");
    let pair = key + "="@ + value;
    let all = body + "&"@ + key + "="@ + value;
    assert(all =~= body.push('&') + pair);
    crate::text::pieces_of_both_sides(body, pair, '&');
    crate::text::pieces_join_back(pair, '&');
    assert(!pair.contains('&')) by {
        if pair.contains('&') {
            let k = choose|k: int| 0 <= k < pair.len() && pair[k] == '&';
            if k < key.len() {
                assert(key.contains(key[k]));
            } else if k > key.len() {
                assert(value.contains(value[k - key.len() - 1]));
            }
        }
    }
    lemma_whole_piece(pair, '&');
    let front = split_pieces(body, '&');
    assert(split_pieces(all, '&') =~= front.push(pair));
    assert(front.push(pair).drop_last() =~= front);
    crate::text::texts_are_split_at_the_first(pair, '=');
    assert(pair[key.len() as int] == '=');
    let q = split_at_first(pair, '=')->0;
    assert(q.0 =~= key && q.1 =~= value) by {
        let n = q.0.len();
        if n < key.len() {
            assert(pair[n as int] == '=');
            assert(key.contains(key[n as int]));
        }
        if n > key.len() {
            assert(q.0[key.len() as int] == pair[key.len() as int]);
            assert(q.0.contains('='));
        }
        assert(n == key.len());
        assert forall|k: int| 0 <= k < n implies q.0[k] == key[k] by {
            assert((q.0.push('=') + q.1)[k] == pair[k]);
        }
        assert forall|k: int| 0 <= k < value.len() implies q.1[k] == value[k] by {
            assert((q.0.push('=') + q.1)[n + 1 + k] == pair[n + 1 + k]);
        }
    }
    assert(seq![pair].drop_last() =~= Seq::<Seq<char>>::empty());
    assert(last_value(Seq::empty(), other) is None);
}

proof fn lemma_whole_piece(s: Seq<char>, c: char)
    requires
        !s.contains(c),
    ensures
        split_pieces(s, c) == seq![s],
{
    crate::text::lemma_index_of_from(s, c, 0);
    if crate::text::index_of_from(s, c, 0) < s.len() {
        assert(s.contains(s[crate::text::index_of_from(s, c, 0)]));
    }
}

/// What an encoded text reads as in a form body: the text.
pub proof fn encoded_values_read_back(s: Seq<char>)
    ensures
        url_decoded(url_encoded(s)) == utf8_lossy_of(encode_utf8(s)),
        !url_encoded(s).contains('&'),
        !url_encoded(s).contains('='),
{
    decoding_undoes_encoding(s);
    lemma_encoded_without(encode_utf8(s));
    let e = url_encoded(s);
    assert forall|k: int| 0 <= k < e.len() implies e[k] != '&' && e[k] != '=' by {
        assert(e[k] == encoded_bytes(encode_utf8(s))[k] as char);
    }
}

proof fn lemma_encoded_without(bs: Seq<u8>)
    ensures
        forall|i: int|
            0 <= i < encoded_bytes(bs).len() ==> (#[trigger] encoded_bytes(bs)[i]) < 128 && encoded_bytes(
                bs,
            )[i] != 38 && encoded_bytes(bs)[i] != 61,
    decreases bs.len(),
{
    if bs.len() > 0 {
        lemma_encoded_without(bs.skip(1));
        let e = encoded_byte(bs[0]);
        let all = encoded_bytes(bs);
        assert forall|i: int| 0 <= i < all.len() implies (#[trigger] all[i]) < 128 && all[i] != 38
            && all[i] != 61 by {
            if i < e.len() {
                assert(all[i] == e[i]);
            } else {
                assert(all[i] == encoded_bytes(bs.skip(1))[i - e.len()]);
            }
        }
    }
}

/// What a digit of URL-safe base64 stands for.
pub open spec fn base64_value(c: char) -> int {
    if 'A' <= c <= 'Z' {
        c as u32 - 65
    } else if 'a' <= c <= 'z' {
        c as u32 - 97 + 26
    } else if '0' <= c <= '9' {
        c as u32 - 48 + 52
    } else if c == '-' {
        62
    } else if c == '_' {
        63
    } else {
        -1
    }
}

/// Four digits of base64 are three bytes. Of one or two bytes at the end there
/// are two or three digits, the last filled up with zero bits.
pub proof fn base64_digits_are_the_bytes(a: u8, b: u8, c: u8, rest: Seq<u8>)
    ensures
        ({
            let e = base64_of(seq![a, b, c] + rest);
            &&& e.len() == 4 + base64_of(rest).len()
            &&& e.skip(4) == base64_of(rest)
            &&& base64_value(e[0]) * 262144 + base64_value(e[1]) * 4096 + base64_value(e[2]) * 64
                + base64_value(e[3]) == a * 65536 + b * 256 + c
        }),
        ({
            let e = base64_of(seq![a, b]);
            &&& e.len() == 3
            &&& base64_value(e[0]) * 4096 + base64_value(e[1]) * 64 + base64_value(e[2]) == (a * 256 + b)
                * 4
        }),
        ({
            let e = base64_of(seq![a]);
            &&& e.len() == 2
            &&& base64_value(e[0]) * 64 + base64_value(e[1]) == a * 16
        }),
        base64_of(Seq::empty()) == Seq::<char>::empty(),
{
    let s = seq![a, b, c] + rest;
    let e = base64_of(s);
    let n = triple(a, b, c);
    assert(s.skip(3) =~= rest);
    assert(s[0] == a && s[1] == b && s[2] == c);
    assert(e.skip(4) =~= base64_of(rest));
    assert(e[0] == base64_char(n / 262144) && e[1] == base64_char(n / 4096 % 64) && e[2] == base64_char(
        n / 64 % 64,
    ) && e[3] == base64_char(n % 64));
    lemma_four_digits(n);
    lemma_four_digits(triple(a, b, 0));
    lemma_four_digits(triple(a, 0, 0));
    assert(base64_of(seq![a, b]).len() == 3);
    assert(base64_of(seq![a]).len() == 2);
}

proof fn lemma_base64_value(d: int)
    requires
        0 <= d < 64,
    ensures
        base64_value(base64_char(d)) == d,
{
}

proof fn lemma_four_digits(n: int)
    requires
        0 <= n < 16777216,
    ensures
        base64_value(base64_char(n / 262144)) == n / 262144,
        base64_value(base64_char(n / 4096 % 64)) == n / 4096 % 64,
        base64_value(base64_char(n / 64 % 64)) == n / 64 % 64,
        base64_value(base64_char(n % 64)) == n % 64,
        n == n / 262144 * 262144 + n / 4096 % 64 * 4096 + n / 64 % 64 * 64 + n % 64,
{
    lemma_base64_value(n / 262144);
    lemma_base64_value(n / 4096 % 64);
    lemma_base64_value(n / 64 % 64);
    lemma_base64_value(n % 64);
}

/// Each random byte gives one digit: that of its six low bits.
pub proof fn random_bytes_give_one_digit_each(bs: Seq<u8>, i: int)
    requires
        0 <= i < bs.len(),
    ensures
        token_of(bs).len() == bs.len(),
        base64_value(token_of(bs)[i]) == bs[i] as int % 64,
{
    lemma_base64_value(bs[i] as int % 64);
}

} // verus!
