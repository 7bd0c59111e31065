//! Base64: bytes as text, in the standard alphabet with padding and in the URL-safe alphabet
//! without.

use base64::Engine;
use base64::engine::general_purpose::{STANDARD, URL_SAFE_NO_PAD};
use vstd::prelude::*;

verus! {

/// The symbol of a six-bit number, in the URL-safe alphabet or in the standard one.
pub open spec fn symbol(n: int, url_safe: bool) -> char {
    if n < 26 {
        (n + 65) as u8 as char
    } else if n < 52 {
        (n + 71) as u8 as char
    } else if n < 62 {
        (n - 4) as u8 as char
    } else if n == 62 {
        if url_safe {
            '-'
        } else {
            '+'
        }
    } else if url_safe {
        '_'
    } else {
        '/'
    }
}

/// The Base64 text of `b`: URL-safe and unpadded, or standard and padded to whole groups of
/// four.
pub open spec fn base64_text(b: Seq<u8>, url_safe: bool) -> Seq<char>
    decreases b.len(),
{
    if b.len() == 0 {
        Seq::empty()
    } else if b.len() == 1 {
        seq![symbol(b[0] as int / 4, url_safe), symbol(b[0] as int % 4 * 16, url_safe)] + if url_safe {
            Seq::empty()
        } else {
            seq!['=', '=']
        }
    } else if b.len() == 2 {
        seq![
            symbol(b[0] as int / 4, url_safe),
            symbol(b[0] as int % 4 * 16 + b[1] as int / 16, url_safe),
            symbol(b[1] as int % 16 * 4, url_safe),
        ] + if url_safe {
            Seq::empty()
        } else {
            seq!['=']
        }
    } else {
        seq![
            symbol(b[0] as int / 4, url_safe),
            symbol(b[0] as int % 4 * 16 + b[1] as int / 16, url_safe),
            symbol(b[1] as int % 16 * 4 + b[2] as int / 64, url_safe),
            symbol(b[2] as int % 64, url_safe),
        ] + base64_text(b.skip(3), url_safe)
    }
}

/// `Engine::encode` of `STANDARD`: the padded text of the bytes in the standard alphabet. Its
/// one panic is an encoded length beyond `usize`, which no slice reaches.
#[verifier::external_body]
pub(crate) fn encode_standard(b: &[u8]) -> (r: String)
    ensures
        r@ == base64_text(b@, false),
{
    STANDARD.encode(b)
}

/// `Engine::encode` of `URL_SAFE_NO_PAD`: the unpadded text of the bytes in the URL-safe
/// alphabet. Its one panic is an encoded length beyond `usize`, which no slice reaches.
#[verifier::external_body]
pub(crate) fn encode_url_safe(b: &[u8]) -> (r: String)
    ensures
        r@ == base64_text(b@, true),
{
    URL_SAFE_NO_PAD.encode(b)
}

/// `Engine::decode` of `STANDARD`: the bytes whose padded text is `text`. It refuses every other
/// text, among them one without its padding and one with bits set that no byte takes up.
#[verifier::external_body]
pub(crate) fn decode_standard(text: &str) -> (r: Option<Vec<u8>>)
    ensures
        r matches Some(b) ==> base64_text(b@, false) == text@,
        r is None ==> forall|b: Seq<u8>| #[trigger] base64_text(b, false) != text@,
{
    STANDARD.decode(text).ok()
}

/// `Engine::decode` of `URL_SAFE_NO_PAD`: the bytes whose unpadded text is `text`. It refuses
/// every other text, among them one with padding and one with bits set that no byte takes up.
#[verifier::external_body]
pub(crate) fn decode_url_safe(text: &str) -> (r: Option<Vec<u8>>)
    ensures
        r matches Some(b) ==> base64_text(b@, true) == text@,
        r is None ==> forall|b: Seq<u8>| #[trigger] base64_text(b, true) != text@,
{
    URL_SAFE_NO_PAD.decode(text).ok()
}

/// The bytes of a Base64 text, where it is one.
pub open spec fn base64_bytes(text: Seq<char>, url_safe: bool) -> Option<Seq<u8>> {
    if exists|b: Seq<u8>| #[trigger] base64_text(b, url_safe) == text {
        Some(choose|b: Seq<u8>| #[trigger] base64_text(b, url_safe) == text)
    } else {
        None
    }
}

proof fn symbols_differ(m: int, n: int, url_safe: bool)
    requires
        0 <= m < 64,
        0 <= n < 64,
        symbol(m, url_safe) == symbol(n, url_safe),
    ensures
        m == n,
{
}

proof fn symbol_shape(n: int, url_safe: bool)
    requires
        0 <= n < 64,
    ensures
        symbol(n, url_safe) != '=',
        symbol(n, url_safe) != '.',
{
}

/// How long a text is tells how many bytes it stands for, but for the padding.
proof fn text_len(b: Seq<u8>, url_safe: bool)
    ensures
        url_safe ==> base64_text(b, url_safe).len() == b.len() / 3 * 4 + (if b.len() % 3 == 0 {
            0nat
        } else {
            b.len() % 3 + 1
        }),
        !url_safe ==> base64_text(b, url_safe).len() == (b.len() + 2) / 3 * 4,
    decreases b.len(),
{
    if b.len() > 2 {
        text_len(b.skip(3), url_safe);
    }
}

/// Two rows of bytes with one Base64 text are the same.
pub proof fn base64_determines_bytes(a: Seq<u8>, b: Seq<u8>, url_safe: bool)
    requires
        base64_text(a, url_safe) == base64_text(b, url_safe),
    ensures
        a == b,
    decreases a.len(),
{
    let t = base64_text(a, url_safe);
    text_len(a, url_safe);
    text_len(b, url_safe);
    if a.len() == 0 || b.len() == 0 {
        assert(a =~= b);
    } else {
        let a0 = a[0] as int;
        let b0 = b[0] as int;
        assert(t[0] == symbol(a0 / 4, url_safe) && t[0] == symbol(b0 / 4, url_safe));
        symbols_differ(a0 / 4, b0 / 4, url_safe);
        if a.len() > 2 && b.len() > 2 {
            let a1 = a[1] as int;
            let b1 = b[1] as int;
            let a2 = a[2] as int;
            let b2 = b[2] as int;
            assert(t[1] == symbol(a0 % 4 * 16 + a1 / 16, url_safe));
            assert(t[1] == symbol(b0 % 4 * 16 + b1 / 16, url_safe));
            symbols_differ(a0 % 4 * 16 + a1 / 16, b0 % 4 * 16 + b1 / 16, url_safe);
            assert(t[2] == symbol(a1 % 16 * 4 + a2 / 64, url_safe));
            assert(t[2] == symbol(b1 % 16 * 4 + b2 / 64, url_safe));
            symbols_differ(a1 % 16 * 4 + a2 / 64, b1 % 16 * 4 + b2 / 64, url_safe);
            assert(t[3] == symbol(a2 % 64, url_safe));
            assert(t[3] == symbol(b2 % 64, url_safe));
            symbols_differ(a2 % 64, b2 % 64, url_safe);
            assert(t.skip(4) =~= base64_text(a.skip(3), url_safe));
            assert(t.skip(4) =~= base64_text(b.skip(3), url_safe));
            base64_determines_bytes(a.skip(3), b.skip(3), url_safe);
            assert(a =~= seq![a[0], a[1], a[2]] + a.skip(3));
            assert(b =~= seq![b[0], b[1], b[2]] + b.skip(3));
        } else {
            base64_tail_determines(a, b, url_safe);
        }
    }
}

proof fn base64_tail_determines(a: Seq<u8>, b: Seq<u8>, url_safe: bool)
    requires
        base64_text(a, url_safe) == base64_text(b, url_safe),
        0 < a.len(),
        0 < b.len(),
        a.len() <= 2 || b.len() <= 2,
    ensures
        a == b,
{
    let t = base64_text(a, url_safe);
    text_len(a, url_safe);
    text_len(b, url_safe);
    let a0 = a[0] as int;
    let b0 = b[0] as int;
    assert(t[0] == symbol(a0 / 4, url_safe) && t[0] == symbol(b0 / 4, url_safe));
    symbols_differ(a0 / 4, b0 / 4, url_safe);
    let a1 = if a.len() > 1 {
        a[1] as int
    } else {
        0
    };
    let b1 = if b.len() > 1 {
        b[1] as int
    } else {
        0
    };
    assert(t[1] == symbol(a0 % 4 * 16 + a1 / 16, url_safe));
    assert(t[1] == symbol(b0 % 4 * 16 + b1 / 16, url_safe));
    symbols_differ(a0 % 4 * 16 + a1 / 16, b0 % 4 * 16 + b1 / 16, url_safe);
    let a2 = if a.len() > 2 {
        a[2] as int
    } else {
        0
    };
    let b2 = if b.len() > 2 {
        b[2] as int
    } else {
        0
    };
    if a.len() > 1 {
        assert(t[2] == symbol(a1 % 16 * 4 + a2 / 64, url_safe));
        symbol_shape(a1 % 16 * 4 + a2 / 64, url_safe);
    }
    if b.len() > 1 {
        assert(t[2] == symbol(b1 % 16 * 4 + b2 / 64, url_safe));
        symbol_shape(b1 % 16 * 4 + b2 / 64, url_safe);
    }
    if a.len() > 2 {
        assert(t[3] == symbol(a2 % 64, url_safe));
        symbol_shape(a2 % 64, url_safe);
    }
    if b.len() > 2 {
        assert(t[3] == symbol(b2 % 64, url_safe));
        symbol_shape(b2 % 64, url_safe);
    }
    assert(a.len() == b.len());
    if a.len() == 2 {
        symbols_differ(a1 % 16 * 4, b1 % 16 * 4, url_safe);
    }
    assert(a =~= b);
}

/// Decoding gives back what was encoded.
pub proof fn base64_round_trip(b: Seq<u8>, url_safe: bool)
    ensures
        base64_bytes(base64_text(b, url_safe), url_safe) == Some(b),
{
    let text = base64_text(b, url_safe);
    let found = choose|c: Seq<u8>| #[trigger] base64_text(c, url_safe) == text;
    base64_determines_bytes(b, found, url_safe);
}

/// No Base64 text has a dot in it.
pub proof fn base64_has_no_dot(b: Seq<u8>, url_safe: bool)
    ensures
        !base64_text(b, url_safe).contains('.'),
    decreases b.len(),
{
    let t = base64_text(b, url_safe);
    if b.len() > 2 {
        base64_has_no_dot(b.skip(3), url_safe);
        assert forall|i: int| 0 <= i < t.len() implies t[i] != '.' by {
            if i >= 4 {
                assert(t[i] == base64_text(b.skip(3), url_safe)[i - 4]);
            }
        }
    }
}

/// The bytes of an unpadded text in the URL-safe alphabet.
pub fn bytes_of_url_safe(text: &str) -> (r: Option<Vec<u8>>)
    ensures
        r.deep_view() == base64_bytes(text@, true),
{
    let r = decode_url_safe(text);
    proof {
        if let Some(b) = &r {
            base64_round_trip(b@, true);
            assert(b.deep_view() =~= b@);
        }
    }
    r
}

/// The bytes of a padded text in the standard alphabet.
pub fn bytes_of_standard(text: &str) -> (r: Option<Vec<u8>>)
    ensures
        r.deep_view() == base64_bytes(text@, false),
{
    let r = decode_standard(text);
    proof {
        if let Some(b) = &r {
            base64_round_trip(b@, false);
            assert(b.deep_view() =~= b@);
        }
    }
    r
}

} // verus!
