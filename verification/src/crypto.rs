//! Digests and base64, computed by the `sha2`, `sha1`, `md-5` and `base64`
//! crates.

use vstd::prelude::*;

verus! {

/// The SHA-256 digest of `data`.
pub uninterp spec fn sha256_of(data: Seq<u8>) -> Seq<u8>;

/// The SHA-512 digest of `data`.
pub uninterp spec fn sha512_of(data: Seq<u8>) -> Seq<u8>;

/// The SHA-1 digest of `data`.
pub uninterp spec fn sha1_of(data: Seq<u8>) -> Seq<u8>;

/// The MD5 digest of `data`.
pub uninterp spec fn md5_of(data: Seq<u8>) -> Seq<u8>;

/// Calls `sha2::Sha256::digest`. Trusted: the result is the digest of
/// `data` (named, not computed here) and is 32 bytes long.
#[verifier::external_body]
pub(crate) fn sha256(data: &[u8]) -> (r: Vec<u8>)
    ensures
        r@ == sha256_of(data@),
        r@.len() == 32,
{
    <sha2::Sha256 as sha2::Digest>::digest(data).to_vec()
}

/// Calls `sha2::Sha512::digest`. Trusted: the result is the digest of
/// `data` (named) and is 64 bytes long.
#[verifier::external_body]
pub(crate) fn sha512(data: &[u8]) -> (r: Vec<u8>)
    ensures
        r@ == sha512_of(data@),
        r@.len() == 64,
{
    <sha2::Sha512 as sha2::Digest>::digest(data).to_vec()
}

/// Calls `sha1::Sha1::digest`. Trusted: the result is the digest of
/// `data` (named) and is 20 bytes long.
#[verifier::external_body]
pub(crate) fn sha1(data: &[u8]) -> (r: Vec<u8>)
    ensures
        r@ == sha1_of(data@),
        r@.len() == 20,
{
    <sha1::Sha1 as sha1::Digest>::digest(data).to_vec()
}

/// Calls `md5::Md5::digest` (crate `md-5`). Trusted: the result is the
/// digest of `data` (named) and is 16 bytes long.
#[verifier::external_body]
pub(crate) fn md5(data: &[u8]) -> (r: Vec<u8>)
    ensures
        r@ == md5_of(data@),
        r@.len() == 16,
{
    <md5::Md5 as md5::Digest>::digest(data).to_vec()
}

/// The standard base64 alphabet (RFC 4648).
pub open spec fn b64_symbol(n: nat) -> char {
    seq![
        'A', 'B', 'C', 'D', 'E', 'F', 'G', 'H', 'I', 'J', 'K', 'L', 'M', 'N', 'O', 'P', 'Q', 'R',
        'S', 'T', 'U', 'V', 'W', 'X', 'Y', 'Z', 'a', 'b', 'c', 'd', 'e', 'f', 'g', 'h', 'i', 'j',
        'k', 'l', 'm', 'n', 'o', 'p', 'q', 'r', 's', 't', 'u', 'v', 'w', 'x', 'y', 'z', '0', '1',
        '2', '3', '4', '5', '6', '7', '8', '9', '+', '/',
    ][n as int]
}

/// The position of a symbol in the standard base64 alphabet.
pub open spec fn b64_value(c: char) -> nat {
    if 'A' <= c && c <= 'Z' {
        (c as nat - 'A' as nat) as nat
    } else if 'a' <= c && c <= 'z' {
        (c as nat - 'a' as nat + 26) as nat
    } else if '0' <= c && c <= '9' {
        (c as nat - '0' as nat + 52) as nat
    } else if c == '+' {
        62
    } else {
        63
    }
}

proof fn lemma_b64_value(n: nat)
    requires
        n < 64,
    ensures
        b64_value(b64_symbol(n)) == n,
        b64_symbol(n) != '=',
{
    if n == 0 {
        assert(b64_symbol(n) == 'A');
    } else if n == 1 {
        assert(b64_symbol(n) == 'B');
    } else if n == 2 {
        assert(b64_symbol(n) == 'C');
    } else if n == 3 {
        assert(b64_symbol(n) == 'D');
    } else if n == 4 {
        assert(b64_symbol(n) == 'E');
    } else if n == 5 {
        assert(b64_symbol(n) == 'F');
    } else if n == 6 {
        assert(b64_symbol(n) == 'G');
    } else if n == 7 {
        assert(b64_symbol(n) == 'H');
    } else if n == 8 {
        assert(b64_symbol(n) == 'I');
    } else if n == 9 {
        assert(b64_symbol(n) == 'J');
    } else if n == 10 {
        assert(b64_symbol(n) == 'K');
    } else if n == 11 {
        assert(b64_symbol(n) == 'L');
    } else if n == 12 {
        assert(b64_symbol(n) == 'M');
    } else if n == 13 {
        assert(b64_symbol(n) == 'N');
    } else if n == 14 {
        assert(b64_symbol(n) == 'O');
    } else if n == 15 {
        assert(b64_symbol(n) == 'P');
    } else if n == 16 {
        assert(b64_symbol(n) == 'Q');
    } else if n == 17 {
        assert(b64_symbol(n) == 'R');
    } else if n == 18 {
        assert(b64_symbol(n) == 'S');
    } else if n == 19 {
        assert(b64_symbol(n) == 'T');
    } else if n == 20 {
        assert(b64_symbol(n) == 'U');
    } else if n == 21 {
        assert(b64_symbol(n) == 'V');
    } else if n == 22 {
        assert(b64_symbol(n) == 'W');
    } else if n == 23 {
        assert(b64_symbol(n) == 'X');
    } else if n == 24 {
        assert(b64_symbol(n) == 'Y');
    } else if n == 25 {
        assert(b64_symbol(n) == 'Z');
    } else if n == 26 {
        assert(b64_symbol(n) == 'a');
    } else if n == 27 {
        assert(b64_symbol(n) == 'b');
    } else if n == 28 {
        assert(b64_symbol(n) == 'c');
    } else if n == 29 {
        assert(b64_symbol(n) == 'd');
    } else if n == 30 {
        assert(b64_symbol(n) == 'e');
    } else if n == 31 {
        assert(b64_symbol(n) == 'f');
    } else if n == 32 {
        assert(b64_symbol(n) == 'g');
    } else if n == 33 {
        assert(b64_symbol(n) == 'h');
    } else if n == 34 {
        assert(b64_symbol(n) == 'i');
    } else if n == 35 {
        assert(b64_symbol(n) == 'j');
    } else if n == 36 {
        assert(b64_symbol(n) == 'k');
    } else if n == 37 {
        assert(b64_symbol(n) == 'l');
    } else if n == 38 {
        assert(b64_symbol(n) == 'm');
    } else if n == 39 {
        assert(b64_symbol(n) == 'n');
    } else if n == 40 {
        assert(b64_symbol(n) == 'o');
    } else if n == 41 {
        assert(b64_symbol(n) == 'p');
    } else if n == 42 {
        assert(b64_symbol(n) == 'q');
    } else if n == 43 {
        assert(b64_symbol(n) == 'r');
    } else if n == 44 {
        assert(b64_symbol(n) == 's');
    } else if n == 45 {
        assert(b64_symbol(n) == 't');
    } else if n == 46 {
        assert(b64_symbol(n) == 'u');
    } else if n == 47 {
        assert(b64_symbol(n) == 'v');
    } else if n == 48 {
        assert(b64_symbol(n) == 'w');
    } else if n == 49 {
        assert(b64_symbol(n) == 'x');
    } else if n == 50 {
        assert(b64_symbol(n) == 'y');
    } else if n == 51 {
        assert(b64_symbol(n) == 'z');
    } else if n == 52 {
        assert(b64_symbol(n) == '0');
    } else if n == 53 {
        assert(b64_symbol(n) == '1');
    } else if n == 54 {
        assert(b64_symbol(n) == '2');
    } else if n == 55 {
        assert(b64_symbol(n) == '3');
    } else if n == 56 {
        assert(b64_symbol(n) == '4');
    } else if n == 57 {
        assert(b64_symbol(n) == '5');
    } else if n == 58 {
        assert(b64_symbol(n) == '6');
    } else if n == 59 {
        assert(b64_symbol(n) == '7');
    } else if n == 60 {
        assert(b64_symbol(n) == '8');
    } else if n == 61 {
        assert(b64_symbol(n) == '9');
    } else if n == 62 {
        assert(b64_symbol(n) == '+');
    } else if n == 63 {
        assert(b64_symbol(n) == '/');
    }
}

/// Standard padded base64 of `b` (RFC 4648 section 4): each group of three
/// bytes becomes four symbols; a final group of one or two bytes is padded
/// with `=` to four symbols.
pub open spec fn base64_std(b: Seq<u8>) -> Seq<char>
    decreases b.len(),
{
    if b.len() == 0 {
        Seq::empty()
    } else if b.len() == 1 {
        seq![b64_symbol(b[0] as nat / 4), b64_symbol((b[0] as nat % 4) * 16), '=', '=']
    } else if b.len() == 2 {
        seq![
            b64_symbol(b[0] as nat / 4),
            b64_symbol((b[0] as nat % 4) * 16 + b[1] as nat / 16),
            b64_symbol((b[1] as nat % 16) * 4),
            '=',
        ]
    } else {
        seq![
            b64_symbol(b[0] as nat / 4),
            b64_symbol((b[0] as nat % 4) * 16 + b[1] as nat / 16),
            b64_symbol((b[1] as nat % 16) * 4 + b[2] as nat / 64),
            b64_symbol(b[2] as nat % 64),
        ] + base64_std(b.skip(3))
    }
}

proof fn lemma_group_bytes(x0: nat, x1: nat, x2: nat, y0: nat, y1: nat, y2: nat)
    requires
        x0 < 256 && x1 < 256 && x2 < 256 && y0 < 256 && y1 < 256 && y2 < 256,
        x0 / 4 == y0 / 4,
        (x0 % 4) * 16 + x1 / 16 == (y0 % 4) * 16 + y1 / 16,
        (x1 % 16) * 4 + x2 / 64 == (y1 % 16) * 4 + y2 / 64,
        x2 % 64 == y2 % 64,
    ensures
        x0 == y0 && x1 == y1 && x2 == y2,
{
}

proof fn lemma_two_bytes(x0: nat, x1: nat, y0: nat, y1: nat)
    requires
        x0 < 256 && x1 < 256 && y0 < 256 && y1 < 256,
        x0 / 4 == y0 / 4,
        (x0 % 4) * 16 + x1 / 16 == (y0 % 4) * 16 + y1 / 16,
        (x1 % 16) * 4 == (y1 % 16) * 4,
    ensures
        x0 == y0 && x1 == y1,
{
}

proof fn lemma_one_byte(x0: nat, y0: nat)
    requires
        x0 < 256 && y0 < 256,
        x0 / 4 == y0 / 4,
        (x0 % 4) * 16 == (y0 % 4) * 16,
    ensures
        x0 == y0,
{
}

/// The shape of an encoding: empty for no bytes; otherwise four symbols
/// first, the third `=` exactly for one byte and the fourth `=` exactly
/// for one or two bytes, and the rest the encoding of the bytes after
/// the first three.
proof fn lemma_base64_shape(b: Seq<u8>)
    ensures
        b.len() == 0 ==> base64_std(b).len() == 0,
        b.len() > 0 ==> base64_std(b).len() >= 4,
        b.len() > 0 ==> base64_std(b)[0] == b64_symbol(b[0] as nat / 4),
        b.len() == 1 ==> base64_std(b)[2] == '=' && base64_std(b).len() == 4
            && base64_std(b)[1] == b64_symbol((b[0] as nat % 4) * 16),
        b.len() >= 2 ==> base64_std(b)[2] != '=' && base64_std(b)[1] == b64_symbol(
            (b[0] as nat % 4) * 16 + b[1] as nat / 16,
        ),
        b.len() == 2 ==> base64_std(b)[3] == '=' && base64_std(b).len() == 4
            && base64_std(b)[2] == b64_symbol((b[1] as nat % 16) * 4),
        b.len() >= 3 ==> base64_std(b)[3] != '=' && base64_std(b)[2] == b64_symbol(
            (b[1] as nat % 16) * 4 + b[2] as nat / 64,
        ) && base64_std(b)[3] == b64_symbol(b[2] as nat % 64) && base64_std(b).skip(4)
            == base64_std(b.skip(3)),
{
    if b.len() == 1 {
        lemma_b64_value((b[0] as nat % 4) * 16);
    } else if b.len() == 2 {
        lemma_b64_value((b[0] as nat % 4) * 16 + b[1] as nat / 16);
    } else if b.len() >= 3 {
        lemma_b64_value((b[1] as nat % 16) * 4 + b[2] as nat / 64);
        lemma_b64_value(b[2] as nat % 64);
        let head = seq![
            b64_symbol(b[0] as nat / 4),
            b64_symbol((b[0] as nat % 4) * 16 + b[1] as nat / 16),
            b64_symbol((b[1] as nat % 16) * 4 + b[2] as nat / 64),
            b64_symbol(b[2] as nat % 64),
        ];
        assert((head + base64_std(b.skip(3))).skip(4) =~= base64_std(b.skip(3)));
    }
}

/// The standard encoding is one-to-one: the text determines the bytes.
pub proof fn lemma_base64_injective(a: Seq<u8>, b: Seq<u8>)
    requires
        base64_std(a) == base64_std(b),
    ensures
        a == b,
    decreases a.len(),
{
    lemma_base64_shape(a);
    lemma_base64_shape(b);
    let t = base64_std(a);
    if a.len() == 0 || b.len() == 0 {
        assert(a.len() == 0 && b.len() == 0);
        assert(a =~= b);
    } else {
        lemma_b64_value(a[0] as nat / 4);
        lemma_b64_value(b[0] as nat / 4);
        if a.len() == 1 {
            assert(b.len() == 1);
            lemma_b64_value((a[0] as nat % 4) * 16);
            lemma_b64_value((b[0] as nat % 4) * 16);
            lemma_one_byte(a[0] as nat, b[0] as nat);
            assert(a =~= b);
        } else if a.len() == 2 {
            assert(b.len() == 2);
            lemma_b64_value((a[0] as nat % 4) * 16 + a[1] as nat / 16);
            lemma_b64_value((b[0] as nat % 4) * 16 + b[1] as nat / 16);
            lemma_b64_value((a[1] as nat % 16) * 4);
            lemma_b64_value((b[1] as nat % 16) * 4);
            lemma_two_bytes(a[0] as nat, a[1] as nat, b[0] as nat, b[1] as nat);
            assert(a =~= b);
        } else {
            assert(b.len() >= 3);
            lemma_b64_value((a[0] as nat % 4) * 16 + a[1] as nat / 16);
            lemma_b64_value((b[0] as nat % 4) * 16 + b[1] as nat / 16);
            lemma_b64_value((a[1] as nat % 16) * 4 + a[2] as nat / 64);
            lemma_b64_value((b[1] as nat % 16) * 4 + b[2] as nat / 64);
            lemma_b64_value(a[2] as nat % 64);
            lemma_b64_value(b[2] as nat % 64);
            lemma_group_bytes(
                a[0] as nat,
                a[1] as nat,
                a[2] as nat,
                b[0] as nat,
                b[1] as nat,
                b[2] as nat,
            );
            lemma_base64_injective(a.skip(3), b.skip(3));
            assert(a =~= a.take(3) + a.skip(3));
            assert(b =~= b.take(3) + b.skip(3));
            assert(a.take(3) =~= b.take(3));
        }
    }
}

/// Decoding the standard encoding of bytes gives those bytes back.
pub proof fn lemma_base64_round_trip(b: Seq<u8>)
    ensures
        base64_decoded(base64_std(b)) == Some(b),
{
    let t = base64_std(b);
    assert(exists|x: Seq<u8>| base64_std(x) == t);
    let c = choose|x: Seq<u8>| base64_std(x) == t;
    lemma_base64_injective(c, b);
}

/// Calls `base64::Engine::encode` on the `STANDARD` engine. Trusted: the
/// text is the standard padded base64 of `data`, as the crate documents.
#[verifier::external_body]
pub(crate) fn base64_encode(data: &[u8]) -> (r: String)
    ensures
        r@ == base64_std(data@),
{
    base64::Engine::encode(&base64::engine::general_purpose::STANDARD, data)
}

/// What decoding `text` as standard base64 gives: the bytes whose standard
/// encoding `text` is (there is at most one), or `None` when the text is
/// not such an encoding.
pub open spec fn base64_decoded(text: Seq<char>) -> Option<Seq<u8>> {
    if exists|b: Seq<u8>| base64_std(b) == text {
        Some(choose|b: Seq<u8>| base64_std(b) == text)
    } else {
        None
    }
}

/// Calls `base64::Engine::decode` on the `STANDARD` engine, whose
/// configuration requires canonical padding and rejects trailing bits.
/// Trusted: it succeeds exactly on texts that are the standard encoding of
/// some bytes, and then gives those bytes (the only ones, by
/// [`lemma_base64_injective`]).
#[verifier::external_body]
pub(crate) fn base64_decode(text: &str) -> (r: Option<Vec<u8>>)
    ensures
        match r {
            Some(b) => base64_decoded(text@) == Some(b@),
            None => base64_decoded(text@) is None,
        },
        r matches Some(b) ==> base64_std(b@) == text@,
        (exists|b: Seq<u8>| base64_std(b) == text@) ==> r is Some,
{
    base64::Engine::decode(&base64::engine::general_purpose::STANDARD, text).ok()
}

} // verus!
