//! Bytes written as text: hexadecimal and Base64.

use vstd::prelude::*;

use base64::Engine;

verus! {

// ── Hexadecimal ──────────────────────────────────────────────────

pub open spec fn is_hex_digit(c: char) -> bool {
    '0' <= c <= '9' || 'a' <= c <= 'f' || 'A' <= c <= 'F'
}

pub open spec fn hex_digit_value(c: char) -> int {
    if '0' <= c <= '9' {
        c as int - '0' as int
    } else if 'a' <= c <= 'f' {
        c as int - 'a' as int + 10
    } else {
        c as int - 'A' as int + 10
    }
}

/// The bytes that a text writes with two hexadecimal digits each.
pub open spec fn hex_decoded(text: Seq<char>) -> Option<Seq<u8>> {
    if text.len() % 2 == 0 && (forall|i: int|
        0 <= i < text.len() ==> is_hex_digit(#[trigger] text[i])) {
        Some(
            Seq::new(
                text.len() / 2,
                |i: int| (16 * hex_digit_value(text[2 * i]) + hex_digit_value(text[2 * i + 1])) as u8,
            ),
        )
    } else {
        None
    }
}

#[verifier::external_type_specification]
#[verifier::external_body]
pub struct ExFromHexError(hex::FromHexError);

/// `hex::decode`: an even number of hexadecimal digits, in either case, gives the bytes that each
/// two of them write, the higher digit first. Every other text is an error.
#[verifier::external_body]
pub(crate) fn decode_hex(text: &str) -> (r: Result<Vec<u8>, hex::FromHexError>)
    ensures
        match r {
            Ok(bytes) => hex_decoded(text@) == Some(bytes@),
            Err(_) => hex_decoded(text@) is None,
        },
{
    hex::decode(text)
}

/// The lower-case character for a value below sixteen.
pub open spec fn hex_digit(n: int) -> char {
    if n < 10 {
        ('0' as int + n) as char
    } else {
        ('a' as int + n - 10) as char
    }
}

/// Bytes in lower-case hexadecimal notation.
pub open spec fn hex_text(bytes: Seq<u8>) -> Seq<char> {
    Seq::new(
        2 * bytes.len(),
        |i: int|
            hex_digit(
                if i % 2 == 0 {
                    bytes[i / 2] as int / 16
                } else {
                    bytes[i / 2] as int % 16
                },
            ),
    )
}

/// Hexadecimal notation is read back as the bytes that it was written for.
pub proof fn hex_notation_is_read_back(bytes: Seq<u8>)
    ensures
        hex_decoded(hex_text(bytes)) == Some(bytes),
{
    let text = hex_text(bytes);
    assert forall|i: int| 0 <= i < bytes.len() implies #[trigger] hex_decoded(text)->0[i]
        == bytes[i] by {
        assert((2 * i) / 2 == i && (2 * i) % 2 == 0 && (2 * i + 1) / 2 == i && (2 * i + 1) % 2
            == 1);
        assert(text[2 * i] == hex_digit(bytes[i] as int / 16));
        assert(text[2 * i + 1] == hex_digit(bytes[i] as int % 16));
    }
    assert(hex_decoded(text)->0 =~= bytes);
}

// ── Base64 ───────────────────────────────────────────────────────

/// The character for a value below sixty-four.
pub open spec fn base64_digit(n: int) -> char {
    if n < 26 {
        ('A' as int + n) as char
    } else if n < 52 {
        ('a' as int + n - 26) as char
    } else if n < 62 {
        ('0' as int + n - 52) as char
    } else if n == 62 {
        '+'
    } else {
        '/'
    }
}

/// The four characters for up to three bytes.
pub open spec fn base64_group(bytes: Seq<u8>) -> Seq<char> {
    let a = bytes[0] as int;
    let b = if bytes.len() > 1 {
        bytes[1] as int
    } else {
        0
    };
    let c = if bytes.len() > 2 {
        bytes[2] as int
    } else {
        0
    };
    seq![
        base64_digit(a / 4),
        base64_digit(a % 4 * 16 + b / 16),
        if bytes.len() > 1 {
            base64_digit(b % 16 * 4 + c / 64)
        } else {
            '='
        },
        if bytes.len() > 2 {
            base64_digit(c % 64)
        } else {
            '='
        },
    ]
}

/// Bytes in padded Base64 notation.
pub open spec fn base64_text(bytes: Seq<u8>) -> Seq<char>
    decreases bytes.len(),
{
    if bytes.len() == 0 {
        seq![]
    } else if bytes.len() <= 3 {
        base64_group(bytes)
    } else {
        base64_group(bytes.take(3)) + base64_text(bytes.skip(3))
    }
}

#[verifier::external_type_specification]
#[verifier::external_body]
pub struct ExDecodeError(base64::DecodeError);

/// `decode` of `base64::engine::general_purpose::STANDARD`, which takes padded texts in canonical
/// form only: the bytes that it gives for a text have that text as their notation, and it fails
/// only on a text that is the notation of no bytes.
#[verifier::external_body]
pub(crate) fn decode_base64(text: &str) -> (r: Result<Vec<u8>, base64::DecodeError>)
    ensures
        match r {
            Ok(bytes) => base64_text(bytes@) == text@,
            Err(_) => forall|bytes: Seq<u8>| #[trigger] base64_text(bytes) != text@,
        },
{
    base64::engine::general_purpose::STANDARD.decode(text)
}

proof fn lemma_base64_digit(n: int, m: int)
    requires
        0 <= n < 64,
        0 <= m < 64,
    ensures
        base64_digit(n) != '=',
        base64_digit(n) == base64_digit(m) ==> n == m,
{
}

proof fn lemma_base64_group(a: Seq<u8>, b: Seq<u8>)
    requires
        0 < a.len() <= 3,
        0 < b.len() <= 3,
        base64_group(a) == base64_group(b),
    ensures
        a == b,
{
    let x = base64_group(a);
    let y = base64_group(b);
    assert(x[0] == y[0] && x[1] == y[1] && x[2] == y[2] && x[3] == y[3]);
    let (a0, b0) = (a[0] as int, b[0] as int);
    let (a1, b1) = (
        if a.len() > 1 {
            a[1] as int
        } else {
            0
        },
        if b.len() > 1 {
            b[1] as int
        } else {
            0
        },
    );
    let (a2, b2) = (
        if a.len() > 2 {
            a[2] as int
        } else {
            0
        },
        if b.len() > 2 {
            b[2] as int
        } else {
            0
        },
    );
    lemma_base64_digit(a0 / 4, b0 / 4);
    lemma_base64_digit(a0 % 4 * 16 + a1 / 16, b0 % 4 * 16 + b1 / 16);
    lemma_base64_digit(a1 % 16 * 4 + a2 / 64, b1 % 16 * 4 + b2 / 64);
    lemma_base64_digit(b1 % 16 * 4 + b2 / 64, a1 % 16 * 4 + a2 / 64);
    lemma_base64_digit(a2 % 64, b2 % 64);
    lemma_base64_digit(b2 % 64, a2 % 64);
    assert(a.len() == b.len());
    assert(a =~= b);
}

/// A Base64 text is the notation of one series of bytes only.
pub proof fn base64_notation_is_unambiguous(a: Seq<u8>, b: Seq<u8>)
    requires
        base64_text(a) == base64_text(b),
    ensures
        a == b,
    decreases a.len(),
{
    lemma_base64_len(a);
    lemma_base64_len(b);
    if a.len() == 0 || b.len() == 0 {
        assert(a =~= b);
    } else {
        let x = a.take(if a.len() <= 3 {
            a.len() as int
        } else {
            3
        });
        let y = b.take(if b.len() <= 3 {
            b.len() as int
        } else {
            3
        });
        let (s, t) = (a.skip(x.len() as int), b.skip(y.len() as int));
        lemma_base64_step(a);
        lemma_base64_step(b);
        assert(base64_group(x) =~= base64_text(a).take(4));
        assert(base64_group(y) =~= base64_text(b).take(4));
        lemma_base64_group(x, y);
        assert(base64_text(s) =~= base64_text(a).skip(4));
        assert(base64_text(t) =~= base64_text(b).skip(4));
        base64_notation_is_unambiguous(s, t);
        assert(a =~= x + s);
        assert(b =~= y + t);
    }
}

proof fn lemma_base64_len(a: Seq<u8>)
    ensures
        a.len() == 0 <==> base64_text(a).len() == 0,
{
}

proof fn lemma_base64_step(a: Seq<u8>)
    requires
        a.len() > 0,
    ensures
        ({
            let n = if a.len() <= 3 {
                a.len() as int
            } else {
                3
            };
            base64_text(a) == base64_group(a.take(n)) + base64_text(a.skip(n))
        }),
{
    if a.len() <= 3 {
        let n = a.len() as int;
        assert(a.take(n) =~= a);
        assert(a.skip(n).len() == 0);
        assert(base64_text(a.skip(n)) =~= Seq::<char>::empty());
        assert(base64_text(a) =~= base64_group(a) + Seq::<char>::empty());
    }
}

} // verus!
