//! Base64 in the standard alphabet with padding (RFC 4648, section 4), as the
//! wire format of binary modules: what the text of a byte sequence is, and that
//! the bytes can be read back from it.

use vstd::prelude::*;

verus! {

/// The character of the standard alphabet that stands for the six-bit value `v`.
pub open spec fn sextet_char(v: int) -> char {
    if v < 26 {
        (v + 65) as char
    } else if v < 52 {
        (v + 71) as char
    } else if v < 62 {
        (v - 4) as char
    } else if v == 62 {
        '+'
    } else {
        '/'
    }
}

/// The six-bit value that `c` stands for, or -1 where `c` is not in the alphabet.
pub open spec fn sextet_value(c: char) -> int {
    let n = c as int;
    if 65 <= n <= 90 {
        n - 65
    } else if 97 <= n <= 122 {
        n - 71
    } else if 48 <= n <= 57 {
        n + 4
    } else if c == '+' {
        62
    } else if c == '/' {
        63
    } else {
        -1
    }
}

/// Three bytes read as one 24-bit number, the first byte highest.
pub open spec fn group_value(b0: u8, b1: u8, b2: u8) -> int {
    b0 as int * 65536 + b1 as int * 256 + b2 as int
}

/// The `k`-th of the four six-bit values of the 24-bit number `n`, the highest first.
pub open spec fn sextet(n: int, k: int) -> int {
    if k == 0 {
        n / 262144
    } else if k == 1 {
        n / 4096 % 64
    } else if k == 2 {
        n / 64 % 64
    } else {
        n % 64
    }
}

/// The padded base64 text of `bytes`: four characters for every three bytes, the
/// last group filled up with zero bits and closed with `=` where bytes are missing.
pub open spec fn base64_text(bytes: Seq<u8>) -> Seq<char>
    decreases bytes.len(),
{
    if bytes.len() == 0 {
        Seq::empty()
    } else if bytes.len() == 1 {
        let n = group_value(bytes[0], 0, 0);
        seq![sextet_char(sextet(n, 0)), sextet_char(sextet(n, 1)), '=', '=']
    } else if bytes.len() == 2 {
        let n = group_value(bytes[0], bytes[1], 0);
        seq![sextet_char(sextet(n, 0)), sextet_char(sextet(n, 1)), sextet_char(sextet(n, 2)), '=']
    } else {
        let n = group_value(bytes[0], bytes[1], bytes[2]);
        seq![
            sextet_char(sextet(n, 0)),
            sextet_char(sextet(n, 1)),
            sextet_char(sextet(n, 2)),
            sextet_char(sextet(n, 3)),
        ] + base64_text(bytes.skip(3))
    }
}

/// The number of characters in the base64 text of `len` bytes.
pub open spec fn base64_len(len: nat) -> nat {
    4 * ((len + 2) / 3)
}

/// The bytes that the padded base64 text `text` stands for, or `None` where
/// `text` is not the base64 text of any byte sequence.
pub open spec fn base64_bytes(text: Seq<char>) -> Option<Seq<u8>>
    decreases text.len(),
{
    if text.len() == 0 {
        Some(Seq::empty())
    } else if text.len() < 4 {
        None
    } else {
        let s0 = sextet_value(text[0]);
        let s1 = sextet_value(text[1]);
        let s2 = sextet_value(text[2]);
        let s3 = sextet_value(text[3]);
        if s0 < 0 || s1 < 0 {
            None
        } else if text.len() == 4 && text[2] == '=' && text[3] == '=' {
            if s1 % 16 == 0 {
                Some(seq![(s0 * 4 + s1 / 16) as u8])
            } else {
                None
            }
        } else if s2 < 0 {
            None
        } else if text.len() == 4 && text[3] == '=' {
            if s2 % 4 == 0 {
                Some(seq![(s0 * 4 + s1 / 16) as u8, (s1 % 16 * 16 + s2 / 4) as u8])
            } else {
                None
            }
        } else if s3 < 0 {
            None
        } else {
            match base64_bytes(text.skip(4)) {
                Some(rest) => Some(
                    seq![
                        (s0 * 4 + s1 / 16) as u8,
                        (s1 % 16 * 16 + s2 / 4) as u8,
                        (s2 % 4 * 64 + s3) as u8,
                    ] + rest,
                ),
                None => None,
            }
        }
    }
}

/// Every six-bit value is read back from its character, and no character of the
/// alphabet is the padding sign.
pub proof fn lemma_sextet_char_value(v: int)
    requires
        0 <= v < 64,
    ensures
        sextet_value(sextet_char(v)) == v,
        sextet_char(v) != '=',
{
}

proof fn lemma_group_bits(b0: u32, b1: u32, b2: u32)
    by (bit_vector)
    requires
        b0 < 256,
        b1 < 256,
        b2 < 256,
    ensures
        ({
            let n = (b0 * 65536 + b1 * 256 + b2) as u32;
            &&& n / 262144 < 64
            &&& (n / 262144) * 4 + (n / 4096 % 64) / 16 == b0
            &&& (n / 4096 % 64) % 16 * 16 + (n / 64 % 64) / 4 == b1
            &&& (n / 64 % 64) % 4 * 64 + n % 64 == b2
            &&& b2 == 0 ==> (n / 64 % 64) % 4 == 0
            &&& b1 == 0 && b2 == 0 ==> (n / 4096 % 64) % 16 == 0
        }),
{
}

/// The four six-bit values of a group are in range and hold the three bytes.
pub proof fn lemma_group_sextets(b0: u8, b1: u8, b2: u8)
    ensures
        ({
            let n = group_value(b0, b1, b2);
            &&& 0 <= sextet(n, 0) < 64
            &&& 0 <= sextet(n, 1) < 64
            &&& 0 <= sextet(n, 2) < 64
            &&& 0 <= sextet(n, 3) < 64
            &&& sextet(n, 0) * 4 + sextet(n, 1) / 16 == b0
            &&& sextet(n, 1) % 16 * 16 + sextet(n, 2) / 4 == b1
            &&& sextet(n, 2) % 4 * 64 + sextet(n, 3) == b2
            &&& b2 == 0 ==> sextet(n, 2) % 4 == 0
            &&& b1 == 0 && b2 == 0 ==> sextet(n, 1) % 16 == 0
        }),
{
    lemma_group_bits(b0 as u32, b1 as u32, b2 as u32);
    let n = group_value(b0, b1, b2);
    assert(0 <= n < 16777216);
    assert(n == (b0 as u32 * 65536 + b1 as u32 * 256 + b2 as u32) as u32);
}

/// The base64 text of `len` bytes has `base64_len(len)` characters.
pub proof fn lemma_base64_text_len(bytes: Seq<u8>)
    ensures
        base64_text(bytes).len() == base64_len(bytes.len()),
    decreases bytes.len(),
{
    if bytes.len() >= 3 {
        lemma_base64_text_len(bytes.skip(3));
    }
}

/// Round trip: decoding the base64 text of a byte sequence gives back exactly
/// that byte sequence.
pub proof fn lemma_base64_round_trip(bytes: Seq<u8>)
    ensures
        base64_bytes(base64_text(bytes)) == Some(bytes),
    decreases bytes.len(),
{
    let text = base64_text(bytes);
    if bytes.len() == 0 {
    } else if bytes.len() == 1 {
        let n = group_value(bytes[0], 0, 0);
        lemma_group_sextets(bytes[0], 0, 0);
        lemma_sextet_char_value(sextet(n, 0));
        lemma_sextet_char_value(sextet(n, 1));
        assert(base64_bytes(text).unwrap() =~= bytes);
    } else if bytes.len() == 2 {
        let n = group_value(bytes[0], bytes[1], 0);
        lemma_group_sextets(bytes[0], bytes[1], 0);
        lemma_sextet_char_value(sextet(n, 0));
        lemma_sextet_char_value(sextet(n, 1));
        lemma_sextet_char_value(sextet(n, 2));
        assert(base64_bytes(text).unwrap() =~= bytes);
    } else {
        let n = group_value(bytes[0], bytes[1], bytes[2]);
        lemma_group_sextets(bytes[0], bytes[1], bytes[2]);
        lemma_sextet_char_value(sextet(n, 0));
        lemma_sextet_char_value(sextet(n, 1));
        lemma_sextet_char_value(sextet(n, 2));
        lemma_sextet_char_value(sextet(n, 3));
        lemma_base64_round_trip(bytes.skip(3));
        assert(text.skip(4) =~= base64_text(bytes.skip(3)));
        assert(base64_bytes(text).unwrap() =~= bytes);
    }
}

/// Two byte sequences with the same base64 text are the same.
pub proof fn lemma_base64_text_injective(a: Seq<u8>, b: Seq<u8>)
    requires
        base64_text(a) == base64_text(b),
    ensures
        a == b,
{
    lemma_base64_round_trip(a);
    lemma_base64_round_trip(b);
}

/// Calls `base64::encode`, which writes its argument in the standard alphabet
/// with padding. The contract states that the result is the RFC 4648 text of the
/// bytes; it leaves out the lengths on which the outside function stops because
/// the length of the text does not fit in `usize`.
#[verifier::external_body]
fn encode_standard(data: &[u8]) -> (text: String)
    requires
        base64_len(data@.len()) <= usize::MAX,
    ensures
        text@ == base64_text(data@),
{
    base64::encode(data)
}

/// The padded base64 text of `data` in the standard alphabet.
pub fn encode_base64(data: &[u8]) -> (text: String)
    requires
        base64_len(data@.len()) <= usize::MAX,
    ensures
        text@ == base64_text(data@),
        text@.len() == base64_len(data@.len()),
        base64_bytes(text@) == Some(data@),
{
    proof {
        lemma_base64_text_len(data@);
        lemma_base64_round_trip(data@);
    }
    encode_standard(data)
}

/// Whether the base64 text of `len` bytes has a length that fits in `usize`.
pub fn fits_base64(len: usize) -> (r: bool)
    ensures
        r == (base64_len(len as nat) <= usize::MAX),
{
    let groups: usize = if len % 3 == 0 {
        len / 3
    } else {
        len / 3 + 1
    };
    groups <= usize::MAX / 4
}

} // verus!
