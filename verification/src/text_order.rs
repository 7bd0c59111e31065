//! The order of text by code points, which is the order of its UTF-8 bytes.

use vstd::prelude::*;
use vstd::std_specs::iter::IteratorSpec;

verus! {

/// Whether `a` comes before `b` in the dictionary order of their code points.
pub open spec fn text_lt(a: Seq<char>, b: Seq<char>) -> bool
    decreases a.len(),
{
    if b.len() == 0 {
        false
    } else if a.len() == 0 {
        true
    } else if a[0] != b[0] {
        a[0] < b[0]
    } else {
        text_lt(a.drop_first(), b.drop_first())
    }
}

/// The outcome of comparing two texts.
#[derive(Clone, Copy, PartialEq, Eq, Structural, Debug)]
pub enum Placement {
    Before,
    Same,
    After,
}

/// No text comes before itself.
pub proof fn text_lt_irreflexive(a: Seq<char>)
    ensures
        !text_lt(a, a),
    decreases a.len(),
{
    if a.len() > 0 {
        text_lt_irreflexive(a.drop_first());
    }
}

/// The order is transitive.
pub proof fn text_lt_transitive(a: Seq<char>, b: Seq<char>, c: Seq<char>)
    requires
        text_lt(a, b),
        text_lt(b, c),
    ensures
        text_lt(a, c),
    decreases a.len(),
{
    if a.len() > 0 && a[0] == b[0] && b[0] == c[0] {
        text_lt_transitive(a.drop_first(), b.drop_first(), c.drop_first());
    }
}

/// Of two different texts one comes first.
pub proof fn text_lt_total(a: Seq<char>, b: Seq<char>)
    ensures
        text_lt(a, b) || a == b || text_lt(b, a),
    decreases a.len(),
{
    if a.len() > 0 && b.len() > 0 && a[0] == b[0] {
        text_lt_total(a.drop_first(), b.drop_first());
        if a.drop_first() == b.drop_first() {
            assert(a =~= seq![a[0]] + a.drop_first());
            assert(b =~= seq![b[0]] + b.drop_first());
        }
    } else if a.len() == 0 && b.len() == 0 {
        assert(a =~= b);
    } else if a.len() > 0 && b.len() > 0 {
        assert(a[0] < b[0] || b[0] < a[0]);
    }
}

/// Where `a` stands relative to `b`.
pub fn place(a: &str, b: &str) -> (r: Placement)
    ensures
        (r is Before) == text_lt(a@, b@),
        (r is Same) == (a@ == b@),
        (r is After) == text_lt(b@, a@),
{
    let mut x = a.chars();
    let mut y = b.chars();
    proof {
        text_lt_irreflexive(a@);
    }
    loop
        invariant
            x.obeys_prophetic_iter_laws(),
            y.obeys_prophetic_iter_laws(),
            x.decrease() is Some,
            y.decrease() is Some,
            text_lt(a@, b@) == text_lt(x.remaining(), y.remaining()),
            text_lt(b@, a@) == text_lt(y.remaining(), x.remaining()),
            (a@ == b@) == (x.remaining() == y.remaining()),
        decreases x.decrease()->0,
    {
        let ghost before_x = x.remaining();
        let ghost before_y = y.remaining();
        match (x.next(), y.next()) {
            (None, None) => {
                assert(before_x =~= before_y);
                return Placement::Same;
            },
            (None, Some(_)) => {
                return Placement::Before;
            },
            (Some(_), None) => {
                return Placement::After;
            },
            (Some(c), Some(d)) => {
                if c != d {
                    return if c < d {
                        Placement::Before
                    } else {
                        Placement::After
                    };
                }
                assert(before_x =~= seq![c] + x.remaining());
                assert(before_y =~= seq![d] + y.remaining());
            },
        }
    }
}

} // verus!
