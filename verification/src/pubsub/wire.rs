//! The binary form of requests: numbers of variable length, fields, and the frame around them.

use vstd::prelude::*;
use vstd::slice::{slice_subrange, slice_to_vec};
use vstd::utf8::{decode_utf8, valid_utf8};

verus! {

/// `String::from_utf8`: the text that the bytes encode, if they are UTF-8.
#[verifier::external_body]
fn text_from_utf8(bytes: Vec<u8>) -> (r: Option<String>)
    ensures
        r is Some == valid_utf8(bytes@),
        r matches Some(text) ==> text@ == decode_utf8(bytes@),
{
    String::from_utf8(bytes).ok()
}

/// The text that the bytes encode, if they are UTF-8.
pub open spec fn utf8_text(bytes: Seq<u8>) -> Option<Seq<char>> {
    if valid_utf8(bytes) {
        Some(decode_utf8(bytes))
    } else {
        None
    }
}

/// The text that the bytes encode, if they are UTF-8.
pub fn read_text(bytes: &Vec<u8>) -> (r: Option<String>)
    ensures
        r.deep_view() == utf8_text(bytes@),
{
    text_from_utf8(slice_to_vec(bytes.as_slice()))
}

/// A number of variable length: seven bits in each byte, the lowest first, and the top bit set
/// where more follow.
pub open spec fn varint(n: nat) -> Seq<u8>
    decreases n,
{
    if n < 128 {
        seq![n as u8]
    } else {
        seq![(n % 128 + 128) as u8] + varint(n / 128)
    }
}

/// The number of variable length at the start of `b`, in at most `budget` bytes, and how many
/// bytes it takes.
pub open spec fn leading_varint(b: Seq<u8>, budget: nat) -> Option<(nat, nat)>
    decreases budget,
{
    if b.len() == 0 || budget == 0 {
        None
    } else if b[0] < 128 {
        Some((b[0] as nat, 1))
    } else {
        match leading_varint(b.skip(1), (budget - 1) as nat) {
            Some((value, length)) => Some(
                ((b[0] as nat - 128 + 128 * value) as nat, length + 1),
            ),
            None => None,
        }
    }
}

/// The number of 64 bits at the start of `b`, and how many bytes it takes.
pub open spec fn leading_u64(b: Seq<u8>) -> Option<(nat, nat)> {
    match leading_varint(b, 10) {
        Some((value, length)) => if value <= u64::MAX {
            Some((value, length))
        } else {
            None
        },
        None => None,
    }
}

proof fn leading_varint_length(b: Seq<u8>, budget: nat)
    ensures
        leading_varint(b, budget) matches Some((value, length)) ==> 1 <= length <= b.len(),
    decreases budget,
{
    if b.len() > 0 && budget > 0 && b[0] >= 128 {
        leading_varint_length(b.skip(1), (budget - 1) as nat);
    }
}

fn read_varint(b: &[u8], at: usize, budget: u32) -> (r: Option<(u64, usize)>)
    requires
        at <= b@.len(),
    ensures
        match leading_varint(b@.skip(at as int), budget as nat) {
            Some((value, length)) => if value <= u64::MAX {
                r is Some && (r->0).0 == value && (r->0).1 == at + length && (r->0).1 <= b@.len()
            } else {
                r is None
            },
            None => r is None,
        },
    decreases budget,
{
    let ghost rest = b@.skip(at as int);
    if at >= b.len() || budget == 0 {
        return None;
    }
    assert(rest[0] == b@[at as int]);
    assert(rest.skip(1) =~= b@.skip(at + 1));
    proof {
        leading_varint_length(rest, budget as nat);
    }
    let low: u8 = b[at];
    if low < 128 {
        return Some((low as u64, at + 1));
    }
    match read_varint(b, at + 1, budget - 1) {
        Some((high, next)) => {
            if high > (u64::MAX - (low as u64 - 128)) / 128 {
                assert(high * 128 + (low - 128) > u64::MAX) by (nonlinear_arith)
                    requires
                        high > (u64::MAX - (low - 128)) / 128,
                        128 <= low,
                ;
                return None;
            }
            assert(high * 128 + (low - 128) <= u64::MAX) by (nonlinear_arith)
                requires
                    high <= (u64::MAX - (low - 128)) / 128,
                    128 <= low,
            ;
            Some((low as u64 - 128 + 128 * high, next))
        },
        None => {
            proof {
                if let Some((value, length)) = leading_varint(
                    b@.skip(at + 1),
                    (budget - 1) as nat,
                ) {
                    assert(value > u64::MAX);
                }
            }
            None
        },
    }
}

/// A field of a message: its number, and its bytes if it is one of variable length.
pub type FieldView = (nat, Option<Seq<u8>>);

/// The field that starts a message, and how many bytes it takes.
pub open spec fn leading_field(b: Seq<u8>) -> Option<(FieldView, nat)> {
    match leading_u64(b) {
        None => None,
        Some((tag, start)) => {
            let rest = b.skip(start as int);
            let number = tag / 8;
            if tag % 8 == 0 {
                match leading_u64(rest) {
                    Some((_, length)) => Some(((number, None), start + length)),
                    None => None,
                }
            } else if tag % 8 == 1 {
                if rest.len() >= 8 {
                    Some(((number, None), start + 8))
                } else {
                    None
                }
            } else if tag % 8 == 2 {
                match leading_u64(rest) {
                    Some((size, length)) => if length + size <= rest.len() {
                        Some(
                            (
                                (
                                    number,
                                    Some(rest.subrange(length as int, (length + size) as int)),
                                ),
                                start + length + size,
                            ),
                        )
                    } else {
                        None
                    },
                    None => None,
                }
            } else if tag % 8 == 5 {
                if rest.len() >= 4 {
                    Some(((number, None), start + 4))
                } else {
                    None
                }
            } else {
                None
            }
        },
    }
}

/// The fields of a message.
pub open spec fn fields_of(b: Seq<u8>) -> Option<Seq<FieldView>>
    decreases b.len(),
{
    if b.len() == 0 {
        Some(Seq::empty())
    } else {
        match leading_field(b) {
            Some((field, length)) => if 1 <= length <= b.len() {
                match fields_of(b.skip(length as int)) {
                    Some(rest) => Some(seq![field] + rest),
                    None => None,
                }
            } else {
                None
            },
            None => None,
        }
    }
}

/// A field of a message.
#[derive(Debug)]
pub struct Field {
    pub number: u64,
    pub bytes: Option<Vec<u8>>,
}

impl DeepView for Field {
    type V = FieldView;

    open spec fn deep_view(&self) -> FieldView {
        (
            self.number as nat,
            match self.bytes {
                Some(bytes) => Some(bytes@),
                None => None,
            },
        )
    }
}

fn read_field(b: &[u8], at: usize) -> (r: Option<(Field, usize)>)
    requires
        at <= b@.len(),
    ensures
        match leading_field(b@.skip(at as int)) {
            Some((field, length)) => r is Some && (r->0).0.deep_view() == field && (r->0).1 == at
                + length && at < (r->0).1 <= b@.len(),
            None => r is None,
        },
{
    let ghost whole = b@.skip(at as int);
    proof {
        leading_varint_length(whole, 10);
    }
    let (tag, start) = match read_varint(b, at, 10) {
        Some(found) => found,
        None => {
            return None;
        },
    };
    let ghost rest = whole.skip(start - at);
    assert(rest =~= b@.skip(start as int));
    proof {
        leading_varint_length(rest, 10);
    }
    let number: u64 = tag / 8;
    let left: usize = b.len() - start;
    if tag % 8 == 0 {
        match read_varint(b, start, 10) {
            Some((_, next)) => Some((Field { number, bytes: None }, next)),
            None => None,
        }
    } else if tag % 8 == 1 {
        if left >= 8 {
            Some((Field { number, bytes: None }, start + 8))
        } else {
            None
        }
    } else if tag % 8 == 2 {
        match read_varint(b, start, 10) {
            Some((size, from)) => {
                if size > (b.len() - from) as u64 {
                    return None;
                }
                let to: usize = from + size as usize;
                let bytes = slice_to_vec(slice_subrange(b, from, to));
                assert(bytes@ =~= rest.subrange(from - start, from - start + size));
                Some((Field { number, bytes: Some(bytes) }, to))
            },
            None => None,
        }
    } else if tag % 8 == 5 {
        if left >= 4 {
            Some((Field { number, bytes: None }, start + 4))
        } else {
            None
        }
    } else {
        None
    }
}

/// The fields of a message.
pub fn read_fields(b: &[u8]) -> (r: Option<Vec<Field>>)
    ensures
        r.deep_view() == fields_of(b@),
{
    let mut fields: Vec<Field> = Vec::new();
    let mut at: usize = 0;
    assert(b@.skip(0) =~= b@);
    assert(fields.deep_view() =~= Seq::empty());
    assert(fields_of(b@) matches Some(rest) ==> fields.deep_view() + rest =~= rest);
    while at < b.len()
        invariant
            at <= b@.len(),
            fields_of(b@) is Some == fields_of(b@.skip(at as int)) is Some,
            fields_of(b@.skip(at as int)) matches Some(rest) ==> fields_of(b@) == Some(
                fields.deep_view() + rest,
            ),
        decreases b@.len() - at,
    {
        let ghost rest = b@.skip(at as int);
        let ghost before = fields.deep_view();
        match read_field(b, at) {
            Some((field, next)) => {
                let ghost shown = field.deep_view();
                assert(rest.skip(next - at) =~= b@.skip(next as int));
                fields.push(field);
                assert(fields.deep_view() =~= before.push(shown));
                assert(fields_of(b@.skip(next as int)) matches Some(more) ==> before + (
                seq![shown] + more) =~= fields.deep_view() + more);
                at = next;
            },
            None => {
                return None;
            },
        }
    }
    assert(b@.skip(at as int).len() == 0);
    assert(fields.deep_view() + Seq::<FieldView>::empty() =~= fields.deep_view());
    Some(fields)
}

/// A field of variable length.
pub open spec fn written_field(number: nat, bytes: Seq<u8>) -> Seq<u8> {
    varint(number * 8 + 2) + varint(bytes.len()) + bytes
}

/// Fields of variable length, all of one number.
pub open spec fn written_fields(number: nat, all: Seq<Seq<u8>>) -> Seq<u8>
    decreases all.len(),
{
    if all.len() == 0 {
        Seq::empty()
    } else {
        written_field(number, all[0]) + written_fields(number, all.drop_first())
    }
}

fn write_varint(out: &mut Vec<u8>, n: u64)
    ensures
        final(out)@ == old(out)@ + varint(n as nat),
    decreases n,
{
    let ghost before = out@;
    if n < 128 {
        out.push(n as u8);
        assert(out@ =~= before + varint(n as nat));
    } else {
        out.push((n % 128 + 128) as u8);
        let ghost between = out@;
        write_varint(out, n / 128);
        assert(out@ =~= before + varint(n as nat));
    }
}

/// Adds a field of variable length to a message.
pub fn write_field(out: &mut Vec<u8>, number: u8, bytes: &[u8])
    ensures
        final(out)@ == old(out)@ + written_field(number as nat, bytes@),
{
    let ghost before = out@;
    write_varint(out, number as u64 * 8 + 2);
    write_varint(out, bytes.len() as u64);
    out.extend_from_slice(bytes);
    assert(out@ =~= before + written_field(number as nat, bytes@));
}

proof fn varint_read_back(n: nat, rest: Seq<u8>, budget: nat, bound: nat)
    requires
        n < bound,
        bound == pow128(budget),
        budget >= 1,
    ensures
        leading_varint(varint(n) + rest, budget) == Some((n, varint(n).len())),
    decreases budget,
{
    let b = varint(n) + rest;
    if n < 128 {
        assert(b[0] == n as u8);
    } else {
        assert(budget > 1) by {
            if budget == 1 {
                assert(pow128(1) == 128) by {
                    reveal_with_fuel(pow128, 2);
                }
            }
        }
        assert(b[0] == (n % 128 + 128) as u8);
        assert(b.skip(1) =~= varint(n / 128) + rest);
        assert(pow128(budget) == 128 * pow128((budget - 1) as nat));
        assert(n / 128 < pow128((budget - 1) as nat));
        varint_read_back(n / 128, rest, (budget - 1) as nat, pow128((budget - 1) as nat));
        assert(n % 128 + 128 * (n / 128) == n);
    }
}

spec fn pow128(k: nat) -> nat
    decreases k,
{
    if k == 0 {
        1
    } else {
        128 * pow128((k - 1) as nat)
    }
}

/// A number of 64 bits is read as it was written.
pub proof fn u64_read_back(n: u64, rest: Seq<u8>)
    ensures
        leading_u64(varint(n as nat) + rest) == Some((n as nat, varint(n as nat).len())),
{
    assert(pow128(10) > u64::MAX) by {
        reveal_with_fuel(pow128, 11);
    }
    varint_read_back(n as nat, rest, 10, pow128(10));
}

/// A field of variable length is read as it was written.
pub proof fn field_read_back(number: u8, bytes: Seq<u8>, rest: Seq<u8>)
    requires
        bytes.len() <= u64::MAX,
    ensures
        leading_field(written_field(number as nat, bytes) + rest) == Some(
            (
                (number as nat, Some(bytes)),
                written_field(number as nat, bytes).len(),
            ),
        ),
{
    let tag = varint((number as nat) * 8 + 2);
    let size = varint(bytes.len());
    let b = written_field(number as nat, bytes) + rest;
    let tail = size + (bytes + rest);
    assert(b =~= tag + tail);
    u64_read_back((number as u64 * 8 + 2) as u64, tail);
    assert(b.skip(tag.len() as int) =~= tail);
    u64_read_back(bytes.len() as u64, bytes + rest);
    assert(tail.subrange(size.len() as int, (size.len() + bytes.len()) as int) =~= bytes);
}

/// Fields of variable length are read as they were written.
pub proof fn fields_read_back(number: u8, all: Seq<Seq<u8>>)
    requires
        forall|i: int| 0 <= i < all.len() ==> (#[trigger] all[i]).len() <= u64::MAX,
    ensures
        fields_of(written_fields(number as nat, all)) == Some(
            all.map_values(|bytes: Seq<u8>| (number as nat, Some(bytes))),
        ),
    decreases all.len(),
{
    let shown = all.map_values(|bytes: Seq<u8>| (number as nat, Some(bytes)));
    if all.len() == 0 {
        assert(shown =~= Seq::empty());
    } else {
        let rest = all.drop_first();
        assert forall|i: int| 0 <= i < rest.len() implies (#[trigger] rest[i]).len()
            <= u64::MAX by {
            assert(rest[i] == all[i + 1]);
        }
        fields_read_back(number, rest);
        let b = written_fields(number as nat, all);
        let first = written_field(number as nat, all[0]);
        field_read_back(number, all[0], written_fields(number as nat, rest));
        assert(b.skip(first.len() as int) =~= written_fields(number as nat, rest));
        varint_not_empty((number as nat) * 8 + 2);
        assert(shown =~= seq![(number as nat, Some(all[0]))] + rest.map_values(
            |bytes: Seq<u8>| (number as nat, Some(bytes)),
        ));
    }
}

proof fn varint_not_empty(n: nat)
    ensures
        varint(n).len() >= 1,
{
}

/// The number that four bytes stand for, the highest first.
pub open spec fn be32(b: Seq<u8>) -> nat {
    (b[0] as nat) * 0x100_0000 + (b[1] as nat) * 0x1_0000 + (b[2] as nat) * 256 + (b[3] as nat)
}

/// The message in a frame: a zero for no compression, the length in four bytes, and the message.
pub open spec fn framed_message(frame: Seq<u8>) -> Option<Seq<u8>> {
    if frame.len() < 5 || frame[0] != 0 {
        None
    } else {
        let length = be32(frame.subrange(1, 5));
        if frame.len() < 5 + length {
            None
        } else {
            Some(frame.subrange(5, 5 + length as int))
        }
    }
}

/// The message in a frame.
pub fn read_frame(frame: &[u8]) -> (r: Option<Vec<u8>>)
    ensures
        r is Some == framed_message(frame@) is Some,
        r matches Some(message) ==> framed_message(frame@) == Some(message@),
{
    if frame.len() < 5 || frame[0] != 0 {
        return None;
    }
    let length: u64 = (frame[1] as u64) * 0x100_0000 + (frame[2] as u64) * 0x1_0000 + (
    frame[3] as u64) * 256 + (frame[4] as u64);
    assert(length == be32(frame@.subrange(1, 5)));
    if ((frame.len() - 5) as u64) < length {
        return None;
    }
    Some(slice_to_vec(slice_subrange(frame, 5, 5 + length as usize)))
}

/// The frame around a message.
pub open spec fn frame_of(message: Seq<u8>) -> Seq<u8> {
    let n = message.len();
    seq![
        0u8,
        (n / 0x100_0000) as u8,
        (n / 0x1_0000 % 256) as u8,
        (n / 256 % 256) as u8,
        (n % 256) as u8,
    ] + message
}

/// The frame around a message, whose length fits four bytes.
pub fn write_frame(message: &Vec<u8>) -> (r: Vec<u8>)
    requires
        message@.len() < 0x1_0000_0000,
    ensures
        r@ == frame_of(message@),
{
    let n: u64 = message.len() as u64;
    let mut r: Vec<u8> = Vec::new();
    r.push(0);
    r.push((n / 0x100_0000) as u8);
    r.push((n / 0x1_0000 % 256) as u8);
    r.push((n / 256 % 256) as u8);
    r.push((n % 256) as u8);
    r.extend_from_slice(message.as_slice());
    assert(r@ =~= frame_of(message@));
    r
}

/// A message is read from its frame as it was written.
pub proof fn frame_read_back(message: Seq<u8>)
    requires
        message.len() < 0x1_0000_0000,
    ensures
        framed_message(frame_of(message)) == Some(message),
{
    let f = frame_of(message);
    assert(be32(f.subrange(1, 5)) == message.len());
    assert(f.subrange(5, 5 + message.len() as int) =~= message);
}

} // verus!
