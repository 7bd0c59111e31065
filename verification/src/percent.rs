//! Percent-encoding of text in URLs.

use vstd::prelude::*;
use vstd::utf8::{
    decode_utf8, encode_utf8, encode_utf8_decode_utf8, encode_utf8_valid_utf8, is_ascii_chars,
    is_ascii_chars_encode_utf8, is_continuation_byte, valid_utf8,
};

verus! {

/// What `String::from_utf8_lossy` makes of bytes that are not UTF-8.
pub uninterp spec fn mended_utf8(bytes: Seq<u8>) -> Seq<char>;

/// `String::from_utf8_lossy`: the text that the bytes encode; where they are not UTF-8, that
/// text with replacement characters in it.
#[verifier::external_body]
pub(crate) fn text_from_utf8_lossy(bytes: &[u8]) -> (r: String)
    ensures
        r@ == if valid_utf8(bytes@) {
            decode_utf8(bytes@)
        } else {
            mended_utf8(bytes@)
        },
{
    String::from_utf8_lossy(bytes).into_owned()
}

/// The text that `bytes` encode, mended where they are not UTF-8.
pub open spec fn lossy_text(bytes: Seq<u8>) -> Seq<char> {
    if valid_utf8(bytes) {
        decode_utf8(bytes)
    } else {
        mended_utf8(bytes)
    }
}

/// Whether a byte stands for itself in an encoded text.
pub open spec fn is_unreserved(b: u8) -> bool {
    ||| 65 <= b <= 90
    ||| 97 <= b <= 122
    ||| 48 <= b <= 57
    ||| b == 45
    ||| b == 95
    ||| b == 46
    ||| b == 126
}

/// The upper-case hexadecimal digit of `n`, which is below sixteen.
pub open spec fn upper_hex(n: u8) -> u8 {
    if n < 10 {
        (n + 48) as u8
    } else {
        (n + 55) as u8
    }
}

/// The encoded form of one byte.
pub open spec fn encoded_byte(b: u8) -> Seq<u8> {
    if is_unreserved(b) {
        seq![b]
    } else {
        seq![37u8, upper_hex((b / 16) as u8), upper_hex((b % 16) as u8)]
    }
}

/// The encoded form of a row of bytes.
pub open spec fn encoded_bytes(b: Seq<u8>) -> Seq<u8>
    decreases b.len(),
{
    if b.len() == 0 {
        Seq::empty()
    } else {
        encoded_bytes(b.drop_last()) + encoded_byte(b.last())
    }
}

/// ASCII bytes as text.
pub open spec fn ascii_text(b: Seq<u8>) -> Seq<char> {
    b.map_values(|x: u8| x as char)
}

/// The percent-encoded form of a text.
pub open spec fn percent_encoded(s: Seq<char>) -> Seq<char> {
    ascii_text(encoded_bytes(encode_utf8(s)))
}

fn hex_digit(n: u8) -> (r: u8)
    requires
        n < 16,
    ensures
        r == upper_hex(n),
{
    if n < 10 {
        n + 48
    } else {
        n + 55
    }
}

/// The percent-encoded form of `value`, for a path segment or a query.
pub fn percent_encode(value: &str) -> (r: String)
    ensures
        r@ == percent_encoded(value@),
{
    let bytes = value.as_bytes();
    let mut r = String::new();
    let mut i: usize = 0;
    assert(r@ =~= ascii_text(encoded_bytes(bytes@.take(0))));
    while i < bytes.len()
        invariant
            i <= bytes@.len(),
            r@ == ascii_text(encoded_bytes(bytes@.take(i as int))),
        decreases bytes@.len() - i,
    {
        let b: u8 = bytes[i];
        let ghost upto = bytes@.take(i + 1);
        assert(upto.drop_last() =~= bytes@.take(i as int));
        assert(upto.last() == b);
        let ghost before = r@;
        if (65 <= b && b <= 90) || (97 <= b && b <= 122) || (48 <= b && b <= 57) || b == 45 || b
            == 95 || b == 46 || b == 126 {
            r.push(b as char);
        } else {
            r.push('%');
            r.push(hex_digit(b / 16) as char);
            r.push(hex_digit(b % 16) as char);
        }
        assert(r@ =~= before + ascii_text(encoded_byte(b)));
        assert(ascii_text(encoded_bytes(upto)) =~= before + ascii_text(encoded_byte(b)));
        i += 1;
    }
    assert(bytes@.take(i as int) =~= bytes@);
    r
}

/// The value of a hexadecimal digit.
pub open spec fn hex_value(b: u8) -> Option<int> {
    if 48 <= b <= 57 {
        Some(b - 48)
    } else if 65 <= b <= 70 {
        Some(b - 55)
    } else if 97 <= b <= 102 {
        Some(b - 87)
    } else {
        None
    }
}

/// The bytes that an encoded row of bytes stands for: a percent sign with two hexadecimal digits
/// behind it is one byte, and every other byte is itself.
pub open spec fn decoded_bytes(b: Seq<u8>) -> Seq<u8>
    decreases b.len(),
{
    if b.len() == 0 {
        Seq::empty()
    } else if b[0] == 37 && b.len() > 2 && hex_value(b[1]) is Some && hex_value(b[2]) is Some {
        seq![(hex_value(b[1])->0 * 16 + hex_value(b[2])->0) as u8] + decoded_bytes(b.skip(3))
    } else {
        seq![b[0]] + decoded_bytes(b.skip(1))
    }
}

/// `b` with a space for each plus sign.
pub open spec fn plus_as_space(b: Seq<u8>) -> Seq<u8> {
    b.map_values(
        |x: u8|
            if x == 43 {
                32u8
            } else {
                x
            },
    )
}

/// The text that an encoded text stands for.
pub open spec fn percent_decoded(s: Seq<char>) -> Seq<char> {
    lossy_text(decoded_bytes(plus_as_space(encode_utf8(s))))
}

/// Whether the two bytes behind each percent sign, where there are two, are whole characters.
pub open spec fn escapes_whole_bytes(b: Seq<u8>) -> bool {
    forall|i: int|
        0 <= i && i + 3 < b.len() && #[trigger] b[i] == 37 ==> !is_continuation_byte(b[i + 3])
}

/// Whether the two bytes behind each percent sign, where there are two, are whole characters.
pub open spec fn escapes_whole(s: Seq<char>) -> bool {
    escapes_whole_bytes(encode_utf8(s))
}

/// Whether `percent_decode` takes `input`.
pub fn has_whole_escapes(input: &str) -> (r: bool)
    ensures
        r == escapes_whole(input@),
{
    let b = input.as_bytes();
    let mut i: usize = 0;
    while i < b.len() && b.len() - i > 3
        invariant
            i <= b@.len(),
            b@ == encode_utf8(input@),
            forall|j: int| 0 <= j < i && #[trigger] b@[j] == 37 ==> !is_continuation_byte(b@[j + 3]),
        decreases b@.len() - i,
    {
        let last: u8 = b[i + 3];
        if b[i] == 37 && 128 <= last && last <= 191 {
            assert(b@[i as int] == 37 && is_continuation_byte(b@[i + 3]));
            return false;
        }
        i += 1;
    }
    true
}

fn digit_value(b: u8) -> (r: Option<u8>)
    ensures
        r is Some == hex_value(b) is Some,
        r matches Some(v) ==> hex_value(b) == Some(v as int) && v < 16,
{
    if 48 <= b && b <= 57 {
        Some(b - 48)
    } else if 65 <= b && b <= 70 {
        Some(b - 55)
    } else if 97 <= b && b <= 102 {
        Some(b - 87)
    } else {
        None
    }
}

/// The text that the encoded `input` stands for.
pub fn percent_decode(input: &str) -> (r: String)
    requires
        escapes_whole(input@),
    ensures
        r@ == percent_decoded(input@),
{
    let raw = input.as_bytes();
    let mut bytes: Vec<u8> = Vec::new();
    let mut i: usize = 0;
    while i < raw.len()
        invariant
            i <= raw@.len(),
            bytes@ == plus_as_space(raw@).take(i as int),
        decreases raw@.len() - i,
    {
        bytes.push(if raw[i] == 43 { 32 } else { raw[i] });
        i += 1;
        assert(bytes@ =~= plus_as_space(raw@).take(i as int));
    }
    assert(bytes@ =~= plus_as_space(raw@));
    let mut out: Vec<u8> = Vec::new();
    let mut index: usize = 0;
    assert(bytes@.skip(0) =~= bytes@);
    assert(out@ + decoded_bytes(bytes@) =~= decoded_bytes(bytes@));
    while index < bytes.len()
        invariant
            index <= bytes@.len(),
            out@ + decoded_bytes(bytes@.skip(index as int)) == decoded_bytes(bytes@),
        decreases bytes@.len() - index,
    {
        let ghost before = out@;
        let ghost rest = bytes@.skip(index as int);
        let mut step: usize = 1;
        let mut value: u8 = bytes[index];
        if value == 37 && bytes.len() - index > 2 {
            if let (Some(high), Some(low)) = (
                digit_value(bytes[index + 1]),
                digit_value(bytes[index + 2]),
            ) {
                value = high * 16 + low;
                step = 3;
            }
        }
        out.push(value);
        assert(rest.skip(step as int) =~= bytes@.skip(index + step));
        assert(before + (seq![value] + decoded_bytes(rest.skip(step as int))) =~= out@
            + decoded_bytes(rest.skip(step as int)));
        index += step;
    }
    assert(bytes@.skip(index as int) =~= Seq::<u8>::empty());
    assert(out@ + Seq::<u8>::empty() =~= out@);
    text_from_utf8_lossy(out.as_slice())
}

proof fn decoded_of_encoded(b: Seq<u8>, rest: Seq<u8>)
    ensures
        decoded_bytes(encoded_bytes(b) + rest) == b + decoded_bytes(rest),
    decreases b.len(),
{
    if b.len() == 0 {
        assert(encoded_bytes(b) + rest =~= rest);
        assert(b + decoded_bytes(rest) =~= decoded_bytes(rest));
    } else {
        let x = b.last();
        let e = encoded_byte(x);
        decoded_of_encoded(b.drop_last(), e + rest);
        assert(encoded_bytes(b) + rest =~= encoded_bytes(b.drop_last()) + (e + rest));
        assert((e + rest).skip(e.len() as int) =~= rest);
        assert(b =~= b.drop_last() + seq![x]);
        assert(decoded_bytes(e + rest) =~= seq![x] + decoded_bytes(rest));
        assert(b.drop_last() + (seq![x] + decoded_bytes(rest)) =~= b + decoded_bytes(rest));
    }
}

proof fn encoded_shape(b: Seq<u8>)
    ensures
        forall|i: int| 0 <= i < encoded_bytes(b).len() ==> #[trigger] encoded_bytes(b)[i] < 128
            && encoded_bytes(b)[i] != 43,
    decreases b.len(),
{
    if b.len() > 0 {
        encoded_shape(b.drop_last());
        let e = encoded_bytes(b);
        let head = encoded_bytes(b.drop_last());
        let tail = encoded_byte(b.last());
        assert forall|i: int| 0 <= i < e.len() implies #[trigger] e[i] < 128 && e[i] != 43 by {
            if i < head.len() {
                assert(e[i] == head[i]);
            } else {
                assert(e[i] == tail[i - head.len()]);
            }
        }
    }
}

/// Decoding gives back what was encoded, and takes every encoded text.
pub proof fn percent_round_trip(s: Seq<char>)
    ensures
        escapes_whole(percent_encoded(s)),
        percent_decoded(percent_encoded(s)) == s,
{
    let b = encode_utf8(s);
    let e = encoded_bytes(b);
    let t = percent_encoded(s);
    encoded_shape(b);
    assert(is_ascii_chars(t)) by {
        assert forall|i: int| 0 <= i < t.len() implies '\0' <= #[trigger] t[i] <= '\u{7f}' by {
            assert(e[i] < 128);
        }
    }
    is_ascii_chars_encode_utf8(t);
    assert(encode_utf8(t) =~= e) by {
        assert forall|i: int| 0 <= i < e.len() implies encode_utf8(t)[i] == e[i] by {
            assert(e[i] < 128);
            assert(t[i] == e[i] as char);
        }
    }
    assert(plus_as_space(e) =~= e);
    decoded_of_encoded(b, Seq::empty());
    assert(e + Seq::<u8>::empty() =~= e);
    assert(b + decoded_bytes(Seq::empty()) =~= b);
    encode_utf8_valid_utf8(s);
    encode_utf8_decode_utf8(s);
}

/// An encoded text holds letters, digits, a few marks and percent signs.
pub proof fn encoded_text_is_plain(s: Seq<char>)
    ensures
        forall|i: int|
            0 <= i < percent_encoded(s).len() ==> is_plain_char(#[trigger] percent_encoded(s)[i]),
{
    plain_bytes(encode_utf8(s));
    let e = encoded_bytes(encode_utf8(s));
    assert forall|i: int| 0 <= i < percent_encoded(s).len() implies is_plain_char(
        #[trigger] percent_encoded(s)[i],
    ) by {
        assert(is_unreserved(e[i]) || e[i] == 37);
        assert(percent_encoded(s)[i] == e[i] as char);
    }
}

/// A character that an encoded text may hold.
pub open spec fn is_plain_char(c: char) -> bool {
    ||| 'A' <= c <= 'Z'
    ||| 'a' <= c <= 'z'
    ||| '0' <= c <= '9'
    ||| c == '-'
    ||| c == '_'
    ||| c == '.'
    ||| c == '~'
    ||| c == '%'
}

proof fn plain_bytes(b: Seq<u8>)
    ensures
        forall|i: int|
            0 <= i < encoded_bytes(b).len() ==> is_unreserved(#[trigger] encoded_bytes(b)[i])
                || encoded_bytes(b)[i] == 37,
    decreases b.len(),
{
    if b.len() > 0 {
        let head = encoded_bytes(b.drop_last());
        plain_bytes(b.drop_last());
        let all = encoded_bytes(b);
        assert forall|i: int| 0 <= i < all.len() implies is_unreserved(#[trigger] all[i]) || all[i]
            == 37 by {
            if i < head.len() {
                assert(all[i] == head[i]);
            } else {
                assert(all[i] == encoded_byte(b.last())[i - head.len()]);
            }
        }
    }
}

/// A letter, a digit and a few marks are encoded as themselves, and every other byte as a percent
/// sign and its two digits, the higher first.
pub proof fn byte_is_encoded(b: Seq<u8>, x: u8)
    ensures
        ({
            let c = x as char;
            let kept = ('A' <= c <= 'Z') || ('a' <= c <= 'z') || ('0' <= c <= '9') || c == '-' || c
                == '_' || c == '.' || c == '~';
            let added = encoded_bytes(b.push(x)).skip(encoded_bytes(b).len() as int);
            &&& encoded_bytes(b) == encoded_bytes(b.push(x)).take(encoded_bytes(b).len() as int)
            &&& kept ==> added == seq![x]
            &&& !kept ==> added.len() == 3 && added[0] == 37 && hex_value(added[1]) == Some(
                x as int / 16,
            ) && hex_value(added[2]) == Some(x as int % 16) && !(97 <= added[1] <= 102) && !(97
                <= added[2] <= 102)
        }),
{
    assert(b.push(x).drop_last() =~= b);
    let before = encoded_bytes(b);
    let all = before + encoded_byte(x);
    assert(all.take(before.len() as int) =~= before);
    assert(all.skip(before.len() as int) =~= encoded_byte(x));
}

} // verus!
