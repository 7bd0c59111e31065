//! Searching, cutting and joining text by code points.

use crate::text_order::{place, Placement};
use vstd::prelude::*;
use vstd::std_specs::iter::IteratorSpec;
use vstd::utf8::encode_utf8;

verus! {

/// `String::push` appends one code point.
pub assume_specification[ String::push ](s: &mut String, c: char)
    ensures
        final(s)@ == old(s)@.push(c),
;

/// The length of a text in UTF-8 bytes.
pub open spec fn byte_len(s: Seq<char>) -> nat {
    encode_utf8(s).len()
}

/// The length of `s` in UTF-8 bytes.
pub fn utf8_len(s: &str) -> (n: usize)
    ensures
        n == byte_len(s@),
{
    s.as_bytes().len()
}

/// Whether two texts hold the same code points.
pub fn same_text(a: &str, b: &str) -> (r: bool)
    ensures
        r == (a@ == b@),
{
    match place(a, b) {
        Placement::Same => true,
        _ => false,
    }
}

/// Whether `wanted` is among `texts`.
pub fn list_contains(texts: &Vec<String>, wanted: &str) -> (r: bool)
    ensures
        r == texts.deep_view().contains(wanted@),
{
    let mut i: usize = 0;
    while i < texts.len()
        invariant
            i <= texts@.len(),
            forall|j: int| 0 <= j < i ==> (#[trigger] texts.deep_view()[j]) != wanted@,
        decreases texts@.len() - i,
    {
        if same_text(texts[i].as_str(), wanted) {
            assert(texts.deep_view()[i as int] == wanted@);
            return true;
        }
        i += 1;
    }
    false
}

/// The code points of `s`.
pub fn chars_of(s: &str) -> (r: Vec<char>)
    ensures
        r@ == s@,
{
    let mut r: Vec<char> = Vec::new();
    let mut it = s.chars();
    loop
        invariant
            it.obeys_prophetic_iter_laws(),
            it.decrease() is Some,
            r@ + it.remaining() == s@,
        decreases it.decrease()->0,
    {
        let ghost left = it.remaining();
        match it.next() {
            Some(c) => {
                assert(left =~= seq![c] + it.remaining());
                r.push(c);
                assert(r@ + it.remaining() =~= s@);
            },
            None => {
                assert(r@ =~= s@);
                return r;
            },
        }
    }
}

/// The text made of the code points of `chars` from `from` up to `to`.
pub fn text_between(chars: &Vec<char>, from: usize, to: usize) -> (r: String)
    requires
        from <= to <= chars@.len(),
    ensures
        r@ == chars@.subrange(from as int, to as int),
{
    let mut r = String::new();
    let mut i: usize = from;
    while i < to
        invariant
            from <= i <= to <= chars@.len(),
            r@ == chars@.subrange(from as int, i as int),
        decreases to - i,
    {
        r.push(chars[i]);
        i += 1;
        assert(r@ =~= chars@.subrange(from as int, i as int));
    }
    assert(r@ =~= chars@.subrange(from as int, to as int));
    r
}

/// `a` followed by `b`.
pub fn join2(a: &str, b: &str) -> (r: String)
    ensures
        r@ == a@ + b@,
{
    let mut r = a.to_owned();
    r.append(b);
    r
}

/// `a`, `b` and `c` in a row.
pub fn join3(a: &str, b: &str, c: &str) -> (r: String)
    ensures
        r@ == a@ + b@ + c@,
{
    let mut r = a.to_owned();
    r.append(b);
    r.append(c);
    r
}

/// Whether `p` occurs in `s` at `i`.
pub open spec fn occurs_at<A>(s: Seq<A>, p: Seq<A>, i: int) -> bool {
    0 <= i && i + p.len() <= s.len() && s.subrange(i, i + p.len()) == p
}

/// The first place of `p` in `s` that is not before `from`.
pub open spec fn find_from<A>(s: Seq<A>, p: Seq<A>, from: int) -> Option<int>
    decreases s.len() + 1 - from,
{
    if from + p.len() > s.len() {
        None
    } else if occurs_at(s, p, from) {
        Some(from)
    } else {
        find_from(s, p, from + 1)
    }
}

/// The first place of `p` in `s`.
pub open spec fn find<A>(s: Seq<A>, p: Seq<A>) -> Option<int> {
    find_from(s, p, 0)
}

/// `find_from` gives a place where `p` occurs, and `p` occurs at no place before it.
pub proof fn find_from_meaning<A>(s: Seq<A>, p: Seq<A>, from: int)
    requires
        0 <= from,
    ensures
        find_from(s, p, from) matches Some(i) ==> from <= i && occurs_at(s, p, i) && (forall|j: int|
            from <= j < i ==> !#[trigger] occurs_at(s, p, j)),
        find_from(s, p, from) is None ==> forall|j: int| from <= j ==> !#[trigger] occurs_at(s, p, j),
    decreases s.len() + 1 - from,
{
    if from + p.len() > s.len() {
    } else if occurs_at(s, p, from) {
    } else {
        find_from_meaning(s, p, from + 1);
    }
}

fn occurs(s: &Vec<char>, p: &Vec<char>, at: usize) -> (r: bool)
    ensures
        r == occurs_at(s@, p@, at as int),
{
    if at > s.len() || p.len() > s.len() - at {
        return false;
    }
    let end: usize = s.len();
    let mut i: usize = 0;
    while i < p.len()
        invariant
            end == s@.len(),
            at + p@.len() <= end,
            i <= p@.len(),
            forall|j: int| 0 <= j < i ==> s@[at + j] == #[trigger] p@[j],
        decreases p@.len() - i,
    {
        if s[at + i] != p[i] {
            assert(s@.subrange(at as int, at + p@.len())[i as int] != p@[i as int]);
            return false;
        }
        i += 1;
    }
    assert(s@.subrange(at as int, at + p@.len()) =~= p@);
    true
}

fn position_from(s: &Vec<char>, p: &Vec<char>, from: usize) -> (r: Option<usize>)
    requires
        from <= s@.len(),
    ensures
        r is Some == find_from(s@, p@, from as int) is Some,
        r matches Some(i) ==> find_from(s@, p@, from as int) == Some(i as int) && i + p@.len()
            <= s@.len(),
{
    let mut i: usize = from;
    while i <= s.len() && p.len() <= s.len() - i
        invariant
            from <= i <= s@.len() + 1,
            find_from(s@, p@, from as int) == find_from(s@, p@, i as int),
        decreases s@.len() + 1 - i,
    {
        if occurs(s, p, i) {
            return Some(i);
        }
        if i == s.len() {
            assert(find_from(s@, p@, i + 1) is None);
            return None;
        }
        i += 1;
    }
    None
}

/// The two sides of the first place of `p` in `s`.
pub open spec fn cut(s: Seq<char>, p: Seq<char>) -> Option<(Seq<char>, Seq<char>)> {
    match find(s, p) {
        Some(i) => Some((s.take(i), s.skip(i + p.len()))),
        None => None,
    }
}

/// What stands before and after the first `p` in `s`.
pub fn split_once<'a>(s: &'a str, p: &str) -> (r: Option<(&'a str, &'a str)>)
    ensures
        r.deep_view() == cut(s@, p@),
{
    let chars = chars_of(s);
    let sep = chars_of(p);
    let end: usize = chars.len();
    match position_from(&chars, &sep, 0) {
        Some(i) => Some((s.substring_char(0, i), s.substring_char(i + sep.len(), end))),
        None => None,
    }
}

/// Whether `s` has the code point `c` in it.
pub fn contains_char(s: &str, c: char) -> (r: bool)
    ensures
        r == s@.contains(c),
{
    let chars = chars_of(s);
    let mut i: usize = 0;
    while i < chars.len()
        invariant
            chars@ == s@,
            i <= chars@.len(),
            forall|j: int| 0 <= j < i ==> chars@[j] != c,
        decreases chars@.len() - i,
    {
        if chars[i] == c {
            return true;
        }
        i += 1;
    }
    false
}

/// The rest of `s` behind the prefix `p`.
pub open spec fn without_prefix(s: Seq<char>, p: Seq<char>) -> Option<Seq<char>> {
    if p.is_prefix_of(s) {
        Some(s.skip(p.len() as int))
    } else {
        None
    }
}

/// What is left of `s` without the prefix `p`, if `s` starts with it.
pub fn strip_prefix<'a>(s: &'a str, p: &str) -> (r: Option<&'a str>)
    ensures
        r.deep_view() == without_prefix(s@, p@),
{
    let chars = chars_of(s);
    let prefix = chars_of(p);
    if occurs(&chars, &prefix, 0) {
        Some(s.substring_char(prefix.len(), chars.len()))
    } else {
        None
    }
}

/// Whether `s` starts with `p`.
pub fn starts_with(s: &str, p: &str) -> (r: bool)
    ensures
        r == p@.is_prefix_of(s@),
{
    occurs(&chars_of(s), &chars_of(p), 0)
}

/// The rest of `s` before the suffix `p`.
pub open spec fn without_suffix(s: Seq<char>, p: Seq<char>) -> Option<Seq<char>> {
    if p.is_suffix_of(s) {
        Some(s.take(s.len() - p.len()))
    } else {
        None
    }
}

/// What is left of `s` without the suffix `p`, if `s` ends with it.
pub fn strip_suffix<'a>(s: &'a str, p: &str) -> (r: Option<&'a str>)
    ensures
        r.deep_view() == without_suffix(s@, p@),
{
    let chars = chars_of(s);
    let suffix = chars_of(p);
    if suffix.len() <= chars.len() && occurs(&chars, &suffix, chars.len() - suffix.len()) {
        Some(s.substring_char(0, chars.len() - suffix.len()))
    } else {
        None
    }
}

/// The pieces of `s` between the places of `p`, taken from the left.
pub open spec fn pieces(s: Seq<char>, p: Seq<char>) -> Seq<Seq<char>>
    decreases s.len(),
    when p.len() > 0
{
    match find(s, p) {
        Some(i) => if 0 <= i && i + p.len() <= s.len() {
            seq![s.take(i)] + pieces(s.skip(i + p.len()), p)
        } else {
            seq![s]
        },
        None => seq![s],
    }
}

proof fn find_in_skip<A>(s: Seq<A>, p: Seq<A>, k: int, j: int)
    requires
        0 <= k <= s.len(),
        0 <= j,
    ensures
        find_from(s.skip(k), p, j) is Some == find_from(s, p, k + j) is Some,
        find_from(s.skip(k), p, j) matches Some(i) ==> find_from(s, p, k + j) == Some(k + i),
    decreases s.len() + 1 - k - j,
{
    let t = s.skip(k);
    if j + p.len() > t.len() {
    } else {
        assert(t.subrange(j, j + p.len()) =~= s.subrange(k + j, k + j + p.len()));
        if !occurs_at(t, p, j) {
            find_in_skip(s, p, k, j + 1);
        }
    }
}

/// The pieces of `s` between the places of the separator `p`, which is not empty.
pub fn split<'a>(s: &'a str, p: &str) -> (r: Vec<&'a str>)
    requires
        p@.len() > 0,
    ensures
        r.deep_view() == pieces(s@, p@),
{
    let chars = chars_of(s);
    let sep = chars_of(p);
    let end: usize = chars.len();
    let mut r: Vec<&'a str> = Vec::new();
    let mut start: usize = 0;
    assert(s@.skip(0) =~= s@);
    assert(r.deep_view() + pieces(s@, p@) =~= pieces(s@, p@));
    loop
        invariant
            chars@ == s@,
            sep@ == p@,
            end == s@.len(),
            p@.len() > 0,
            start <= end,
            r.deep_view() + pieces(s@.skip(start as int), p@) == pieces(s@, p@),
        decreases end - start,
    {
        let ghost before = r.deep_view();
        let ghost rest = s@.skip(start as int);
        proof {
            find_in_skip(s@, p@, start as int, 0);
            find_from_meaning(s@, p@, start as int);
        }
        match position_from(&chars, &sep, start) {
            Some(i) => {
                r.push(s.substring_char(start, i));
                assert(rest.take(i - start) =~= s@.subrange(start as int, i as int));
                assert(rest.skip(i - start + p@.len()) =~= s@.skip(i + p@.len()));
                start = i + sep.len();
                assert(r.deep_view() + pieces(s@.skip(start as int), p@) =~= before + pieces(rest, p@));
            },
            None => {
                r.push(s.substring_char(start, end));
                assert(rest =~= s@.subrange(start as int, end as int));
                assert(r.deep_view() =~= before + pieces(rest, p@));
                return r;
            },
        }
    }
}

/// `parts` in a row, with `p` between each two.
pub open spec fn joined(parts: Seq<Seq<char>>, p: Seq<char>) -> Seq<char>
    decreases parts.len(),
{
    if parts.len() == 0 {
        Seq::empty()
    } else if parts.len() == 1 {
        parts[0]
    } else {
        joined(parts.drop_last(), p) + p + parts.last()
    }
}

/// The texts of `parts` with `p` between each two.
pub fn join(parts: &Vec<String>, p: &str) -> (r: String)
    ensures
        r@ == joined(parts.deep_view(), p@),
{
    let mut r = String::new();
    let mut i: usize = 0;
    while i < parts.len()
        invariant
            i <= parts@.len(),
            r@ == joined(parts.deep_view().take(i as int), p@),
        decreases parts@.len() - i,
    {
        let ghost upto = parts.deep_view().take(i + 1);
        assert(upto.drop_last() =~= parts.deep_view().take(i as int));
        assert(upto.last() == parts@[i as int]@);
        if i > 0 {
            r.append(p);
        }
        r.append(parts[i].as_str());
        proof {
            if i == 0 {
                assert(r@ =~= parts@[0]@);
            }
        }
        i += 1;
    }
    assert(parts.deep_view().take(i as int) =~= parts.deep_view());
    r
}

/// `s` with each place of `p`, taken from the left, replaced by `q`.
pub open spec fn replaced(s: Seq<char>, p: Seq<char>, q: Seq<char>) -> Seq<char> {
    joined(pieces(s, p), q)
}

/// Texts joined one by one from the front.
proof fn joined_from_front(first: Seq<char>, rest: Seq<Seq<char>>, p: Seq<char>)
    requires
        rest.len() > 0,
    ensures
        joined(seq![first] + rest, p) == first + p + joined(rest, p),
    decreases rest.len(),
{
    let all = seq![first] + rest;
    assert(all.drop_last() =~= seq![first] + rest.drop_last());
    assert(all.last() == rest.last());
    if rest.len() > 1 {
        joined_from_front(first, rest.drop_last(), p);
        assert(joined(all, p) =~= first + p + joined(rest, p));
    } else {
        reveal_with_fuel(joined, 2);
        assert(all.drop_last() =~= seq![first]);
        assert(joined(all, p) =~= first + p + joined(rest, p));
    }
}

/// The text with the first place of `p` replaced, and what follows it likewise.
proof fn replaced_from_front(s: Seq<char>, p: Seq<char>, q: Seq<char>)
    requires
        p.len() > 0,
    ensures
        find(s, p) is None ==> replaced(s, p, q) == s,
        find(s, p) matches Some(i) ==> 0 <= i && i + p.len() <= s.len() && replaced(s, p, q)
            == s.take(i) + q + replaced(s.skip(i + p.len()), p, q),
{
    find_from_meaning(s, p, 0);
    if let Some(i) = find(s, p) {
        joined_from_front(s.take(i), pieces(s.skip(i + p.len()), p), q);
    }
}

/// Whether `p` is in `s` nowhere.
pub open spec fn lacks(s: Seq<char>, p: Seq<char>) -> bool {
    forall|i: int| !#[trigger] occurs_at(s, p, i)
}

/// A text that lacks `p` stays as it is where `p` is replaced.
pub proof fn nothing_replaced(s: Seq<char>, p: Seq<char>, q: Seq<char>)
    requires
        p.len() > 0,
        lacks(s, p),
    ensures
        replaced(s, p, q) == s,
{
    find_from_meaning(s, p, 0);
    replaced_from_front(s, p, q);
}

/// Where two characters are replaced by a third, they are gone from the text, and no pair of
/// others than the third comes up that was not there before.
pub proof fn replaced_pair_is_gone(
    s: Seq<char>,
    p: Seq<char>,
    q: Seq<char>,
    other: Seq<char>,
)
    requires
        p.len() == 2,
        q.len() == 1,
        other.len() == 2,
        other == p || lacks(s, other),
        q[0] != other[0],
        q[0] != other[1],
    ensures
        lacks(replaced(s, p, q), other),
    decreases s.len(),
{
    replaced_from_front(s, p, q);
    find_from_meaning(s, p, 0);
    let whole = replaced(s, p, q);
    if let Some(i) = find(s, p) {
        let rest = s.skip(i + 2);
        assert forall|j: int| other != p implies !#[trigger] occurs_at(rest, other, j) by {
            if occurs_at(rest, other, j) {
                assert(s.subrange(i + 2 + j, i + 4 + j) =~= rest.subrange(j, j + 2));
                assert(occurs_at(s, other, i + 2 + j));
            }
        }
        replaced_pair_is_gone(rest, p, q, other);
        let tail = replaced(rest, p, q);
        assert forall|j: int| !#[trigger] occurs_at(whole, other, j) by {
            if occurs_at(whole, other, j) {
                let pair = whole.subrange(j, j + 2);
                assert(pair[0] == whole[j] && pair[1] == whole[j + 1]);
                if j + 1 < i {
                    assert(s.subrange(j, j + 2) =~= pair);
                    assert(occurs_at(s, other, j));
                } else if j > i {
                    assert(tail.subrange(j - i - 1, j - i + 1) =~= pair);
                    assert(occurs_at(tail, other, j - i - 1));
                } else {
                    assert(whole[i] == q[0]);
                }
            }
        }
    }
}

/// A text is cut at the first place of `p`: what comes before it and what comes behind it make up
/// the text again, and `p` starts nowhere further in front. A text without `p` is not cut.
pub proof fn cut_is_at_first(s: Seq<char>, p: Seq<char>)
    ensures
        cut(s, p) matches Some((a, b)) ==> s == a + p + b && forall|i: int|
            i < a.len() ==> !#[trigger] occurs_at(s, p, i),
        cut(s, p) is None <==> lacks(s, p),
{
    find_from_meaning(s, p, 0);
    if let Some(i) = find(s, p) {
        assert(s.subrange(i, i + p.len()) == p);
        assert(s =~= s.take(i) + p + s.skip(i + p.len()));
        assert(occurs_at(s, p, i));
    }
}

/// Two texts with `p` between them are told apart again, where `p` starts nowhere in the first.
pub proof fn cut_reads_back(a: Seq<char>, p: Seq<char>, b: Seq<char>)
    requires
        p.len() > 0,
        lacks(a + p.drop_last(), p),
    ensures
        cut(a + p + b, p) == Some((a, b)),
{
    let s = a + p + b;
    let at = a.len() as int;
    find_from_meaning(s, p, 0);
    assert(s.subrange(at, at + p.len()) =~= p);
    assert(occurs_at(s, p, at));
    let i = find(s, p)->0;
    if i < at {
        let start = a + p.drop_last();
        assert(start.subrange(i, i + p.len()) =~= s.subrange(i, i + p.len()));
        assert(occurs_at(start, p, i));
    }
    assert(s.take(at) =~= a);
    assert(s.skip(at + p.len()) =~= b);
}

/// A character that is not in a text starts nothing in it.
pub proof fn one_char_lacks(a: Seq<char>, c: char)
    requires
        !a.contains(c),
    ensures
        lacks(a, seq![c]),
        lacks(a + seq![c].drop_last(), seq![c]),
{
    assert(a + seq![c].drop_last() =~= a);
    assert forall|i: int| !#[trigger] occurs_at(a, seq![c], i) by {
        if occurs_at(a, seq![c], i) {
            assert(a.subrange(i, i + 1)[0] == a[i]);
        }
    }
}

/// The pieces of a text have `p` between them and nowhere in them, and joined by it they make up
/// the text again.
pub proof fn pieces_make_up_text(s: Seq<char>, p: Seq<char>)
    requires
        p.len() > 0,
    ensures
        joined(pieces(s, p), p) == s,
        pieces(s, p).len() > 0,
        forall|i: int| 0 <= i < pieces(s, p).len() ==> lacks(#[trigger] pieces(s, p)[i], p),
    decreases s.len(),
{
    replaced_from_front(s, p, p);
    find_from_meaning(s, p, 0);
    match find(s, p) {
        Some(i) => {
            let rest = s.skip(i + p.len());
            pieces_make_up_text(rest, p);
            assert(s.subrange(i, i + p.len()) == p);
            assert(s =~= s.take(i) + p + rest);
            let head = s.take(i);
            assert forall|j: int| !#[trigger] occurs_at(head, p, j) by {
                if occurs_at(head, p, j) {
                    assert(s.subrange(j, j + p.len()) =~= head.subrange(j, j + p.len()));
                    assert(occurs_at(s, p, j));
                }
            }
            assert forall|k: int| 0 <= k < pieces(s, p).len() implies lacks(
                #[trigger] pieces(s, p)[k],
                p,
            ) by {
                if k > 0 {
                    assert(pieces(s, p)[k] == pieces(rest, p)[k - 1]);
                }
            }
        },
        None => {},
    }
}

/// A text in front of `p` is the first piece, and the others are those of what follows.
pub proof fn first_piece(a: Seq<char>, p: Seq<char>, b: Seq<char>)
    requires
        p.len() > 0,
        lacks(a + p.drop_last(), p),
    ensures
        pieces(a + p + b, p) == seq![a] + pieces(b, p),
{
    let s = a + p + b;
    cut_reads_back(a, p, b);
    find_from_meaning(s, p, 0);
    let i = find(s, p)->0;
    assert(s.take(i) == a && s.skip(i + p.len()) == b);
    assert(0 <= i && i + p.len() <= s.len());
}

/// A text without `p` is one piece.
pub proof fn only_piece(a: Seq<char>, p: Seq<char>)
    requires
        p.len() > 0,
        lacks(a, p),
    ensures
        pieces(a, p) == seq![a],
{
    find_from_meaning(a, p, 0);
}

/// `s` with each place of the non-empty `p` replaced by `q`.
pub fn replace(s: &str, p: &str, q: &str) -> (r: String)
    requires
        p@.len() > 0,
    ensures
        r@ == replaced(s@, p@, q@),
{
    let parts = split(s, p);
    let mut owned: Vec<String> = Vec::new();
    let mut i: usize = 0;
    while i < parts.len()
        invariant
            i <= parts@.len(),
            owned.deep_view() == parts.deep_view().take(i as int),
        decreases parts@.len() - i,
    {
        let part: &str = parts[i];
        let ghost before = owned.deep_view();
        owned.push(part.to_owned());
        assert(owned.deep_view() =~= before.push(part@));
        assert(parts.deep_view()[i as int] == part@);
        i += 1;
        assert(owned.deep_view() =~= parts.deep_view().take(i as int));
    }
    assert(parts.deep_view().take(i as int) =~= parts.deep_view());
    join(&owned, q)
}

/// The lines of `s`: each ends at a line feed, and a carriage return before that line feed is
/// not part of it.
pub open spec fn lines_of(s: Seq<char>) -> Seq<Seq<char>>
    decreases s.len(),
{
    if s.len() == 0 {
        Seq::empty()
    } else {
        match find(s, seq!['\n']) {
            Some(i) => if 0 <= i < s.len() {
                let line = s.take(i);
                let line = if line.len() > 0 && line.last() == '\r' {
                    line.drop_last()
                } else {
                    line
                };
                seq![line] + lines_of(s.skip(i + 1))
            } else {
                seq![s]
            },
            None => seq![s],
        }
    }
}

/// The lines of `s`.
pub fn lines(s: &str) -> (r: Vec<String>)
    ensures
        r.deep_view() == lines_of(s@),
{
    let chars = chars_of(s);
    let mut feed: Vec<char> = Vec::new();
    feed.push('\n');
    assert(feed@ =~= seq!['\n']);
    let end: usize = chars.len();
    let mut r: Vec<String> = Vec::new();
    let mut start: usize = 0;
    assert(s@.skip(0) =~= s@);
    assert(r.deep_view() + lines_of(s@) =~= lines_of(s@));
    while start < end
        invariant
            chars@ == s@,
            feed@ == seq!['\n'],
            end == s@.len(),
            start <= end,
            r.deep_view() + lines_of(s@.skip(start as int)) == lines_of(s@),
        decreases end - start,
    {
        let ghost before = r.deep_view();
        let ghost rest = s@.skip(start as int);
        proof {
            find_in_skip(s@, feed@, start as int, 0);
            find_from_meaning(s@, feed@, start as int);
        }
        match position_from(&chars, &feed, start) {
            Some(i) => {
                let stop: usize = if i > start && chars[i - 1] == '\r' {
                    i - 1
                } else {
                    i
                };
                r.push(text_between(&chars, start, stop));
                assert(rest.take(i - start) =~= s@.subrange(start as int, i as int));
                assert(s@.subrange(start as int, stop as int) =~= rest.take(stop - start));
                assert(i > start ==> rest.take(i - start).drop_last() =~= rest.take(i - start - 1));
                assert(rest.skip(i - start + 1) =~= s@.skip(i + 1));
                start = i + 1;
                assert(r.deep_view() + lines_of(s@.skip(start as int)) =~= before + lines_of(rest));
            },
            None => {
                r.push(text_between(&chars, start, end));
                assert(rest =~= s@.subrange(start as int, end as int));
                assert(r.deep_view() =~= before + lines_of(rest));
                return r;
            },
        }
    }
    assert(s@.skip(start as int) =~= Seq::<char>::empty());
    assert(r.deep_view() + Seq::<Seq<char>>::empty() =~= r.deep_view());
    r
}

/// A line ends at a line feed, and a carriage return in front of that is no part of it; what follows
/// is further lines. A text without a line feed is one line.
pub proof fn line_ends_at_line_feed(line: Seq<char>, rest: Seq<char>)
    requires
        !line.contains('\n'),
    ensures
        line.len() == 0 || line.last() != '\r' ==> lines_of(line + seq!['\n'] + rest) == seq![line]
            + lines_of(rest),
        line.len() == 0 || line.last() != '\r' ==> lines_of(line + seq!['\r', '\n'] + rest)
            == seq![line] + lines_of(rest),
        line.len() > 0 ==> lines_of(line) == seq![line],
        lines_of(Seq::empty()) == Seq::<Seq<char>>::empty(),
{
    let feed = seq!['\n'];
    one_char_lacks(line, '\n');
    let a = line + feed + rest;
    cut_reads_back(line, feed, rest);
    find_from_meaning(a, feed, 0);
    let i = find(a, feed)->0;
    assert(a.take(i) == line && a.skip(i + 1) == rest);
    let with_return = line.push('\r');
    assert(!with_return.contains('\n')) by {
        assert forall|k: int| 0 <= k < with_return.len() implies with_return[k] != '\n' by {
            if k < line.len() {
                assert(line.contains(line[k]));
            }
        }
    }
    one_char_lacks(with_return, '\n');
    let b = with_return + feed + rest;
    assert(line + seq!['\r', '\n'] + rest =~= b);
    cut_reads_back(with_return, feed, rest);
    find_from_meaning(b, feed, 0);
    let k = find(b, feed)->0;
    assert(b.take(k) == with_return && b.skip(k + 1) == rest);
    assert(with_return.drop_last() =~= line);
    find_from_meaning(line, feed, 0);
}

/// What stands behind a text that another starts with, and in front of one that it ends with.
pub proof fn ends_come_off(s: Seq<char>, p: Seq<char>)
    ensures
        without_prefix(p + s, p) == Some(s),
        without_suffix(s + p, p) == Some(s),
        without_prefix(s, p) matches Some(rest) ==> s == p + rest,
        without_suffix(s, p) matches Some(rest) ==> s == rest + p,
        without_prefix(s, p) is None <==> !p.is_prefix_of(s),
        without_suffix(s, p) is None <==> !p.is_suffix_of(s),
{
    let n = p.len() as int;
    let a = p + s;
    assert(a.subrange(0, n) =~= p);
    assert(a.skip(n) =~= s);
    let b = s + p;
    assert(b.subrange(b.len() - n, b.len() as int) =~= p);
    assert(b.take(b.len() - n) =~= s);
    if p.is_prefix_of(s) {
        assert(s.subrange(0, n) == p);
        assert(s =~= p + s.skip(n));
    }
    if p.is_suffix_of(s) {
        assert(s.subrange(s.len() - n, s.len() as int) == p);
        assert(s =~= s.take(s.len() - n) + p);
    }
}

/// Texts are joined with `p` between each two and nowhere else.
pub proof fn joining_puts_between(parts: Seq<Seq<char>>, last: Seq<char>, p: Seq<char>)
    ensures
        joined(Seq::empty(), p) == Seq::<char>::empty(),
        joined(seq![last], p) == last,
        parts.len() > 0 ==> joined(parts.push(last), p) == joined(parts, p) + p + last,
{
    assert(parts.push(last).drop_last() =~= parts);
}

/// What stands in front of a text and has nothing in it that `p` could start with stays as it is
/// where `p` is replaced.
pub proof fn front_is_not_replaced(a: Seq<char>, s: Seq<char>, p: Seq<char>, q: Seq<char>)
    requires
        p.len() > 0,
        !a.contains(p[0]),
    ensures
        replaced(a + s, p, q) == a + replaced(s, p, q),
{
    let whole = a + s;
    assert forall|i: int| 0 <= i < a.len() implies !#[trigger] occurs_at(whole, p, i) by {
        if occurs_at(whole, p, i) {
            assert(whole.subrange(i, i + p.len())[0] == whole[i]);
            assert(a.contains(a[i]));
        }
    }
    front_not_matched(a, s, p, q);
}

/// The first place of `p` is replaced by `q`, and what follows likewise.
pub proof fn replaced_first(a: Seq<char>, p: Seq<char>, b: Seq<char>, q: Seq<char>)
    requires
        p.len() > 0,
        lacks(a + p.drop_last(), p),
    ensures
        replaced(a + p + b, p, q) == a + q + replaced(b, p, q),
{
    let s = a + p + b;
    cut_reads_back(a, p, b);
    replaced_from_front(s, p, q);
    let i = find(s, p)->0;
    assert(s.take(i) == a && s.skip(i + p.len()) == b);
}

/// A front in which `p` starts nowhere, nor across its end, stays where `p` is replaced.
pub proof fn front_not_matched(front: Seq<char>, rest: Seq<char>, p: Seq<char>, q: Seq<char>)
    requires
        p.len() > 0,
        forall|i: int| 0 <= i < front.len() ==> !#[trigger] occurs_at(front + rest, p, i),
    ensures
        replaced(front + rest, p, q) == front + replaced(rest, p, q),
{
    let whole = front + rest;
    let n = front.len() as int;
    assert(whole.skip(n) =~= rest);
    find_in_skip(whole, p, n, 0);
    find_from_meaning(whole, p, 0);
    find_from_meaning(whole, p, n);
    replaced_from_front(whole, p, q);
    replaced_from_front(rest, p, q);
    match find(rest, p) {
        Some(i) => {
            find_from_meaning(rest, p, 0);
            assert(find(whole, p) == Some(n + i));
            assert(whole.take(n + i) =~= front + rest.take(i));
            assert(whole.skip(n + i + p.len()) =~= rest.skip(i + p.len()));
            assert(replaced(whole, p, q) =~= front + replaced(rest, p, q));
        },
        None => {
            assert(find(whole, p) is None);
        },
    }
}

} // verus!
