//! What an operation draws from outside: the time and fresh identifiers.

use vstd::prelude::*;

verus! {

/// Whether `c` is a lower-case hexadecimal digit.
pub open spec fn is_lower_hex(c: char) -> bool {
    '0' <= c <= '9' || 'a' <= c <= 'f'
}

/// Whether `s` is the text of a random UUID: 36 characters, hexadecimal digits but for four
/// hyphens, of version 4.
pub open spec fn is_uuid(s: Seq<char>) -> bool {
    &&& s.len() == 36
    &&& forall|i: int|
        0 <= i < 36 ==> if i == 8 || i == 13 || i == 18 || i == 23 {
            #[trigger] s[i] == '-'
        } else {
            is_lower_hex(s[i])
        }
    &&& s[14] == '4'
    &&& (s[19] == '8' || s[19] == '9' || s[19] == 'a' || s[19] == 'b')
}

/// `Uuid::new_v4` and its `Display`: a random UUID in lower case with hyphens. That no two are
/// the same is a matter of chance and is not claimed.
#[verifier::external_body]
pub(crate) fn random_uuid() -> (r: String)
    ensures
        is_uuid(r@),
{
    uuid::Uuid::new_v4().to_string()
}

/// The time of an operation and the identifiers that it may give out.
#[derive(Debug)]
pub struct Draw {
    /// Milliseconds since the start of 1970.
    pub now_ms: u64,
    /// Identifiers, to be used in order.
    pub ids: Vec<String>,
}

/// What a draw holds.
#[verifier::ext_equal]
pub struct DrawView {
    pub now_ms: nat,
    pub ids: Seq<Seq<char>>,
}

impl DeepView for Draw {
    type V = DrawView;

    open spec fn deep_view(&self) -> DrawView {
        DrawView { now_ms: self.now_ms as nat, ids: self.ids.deep_view() }
    }
}

impl DrawView {
    /// Whether this is a draw at the time `now_ms` of `count` random identifiers.
    pub open spec fn is_fresh(self, now_ms: nat, count: nat) -> bool {
        &&& self.now_ms == now_ms
        &&& self.ids.len() == count
        &&& forall|i: int| 0 <= i < count ==> is_uuid(#[trigger] self.ids[i])
    }

    /// The time in whole seconds.
    pub open spec fn now_secs(self) -> nat {
        self.now_ms / 1000
    }
}

impl Draw {
    /// A draw at the time `now_ms` of `count` random identifiers.
    pub fn fresh(now_ms: u64, count: usize) -> (r: Draw)
        ensures
            r.deep_view().is_fresh(now_ms as nat, count as nat),
    {
        let mut ids: Vec<String> = Vec::new();
        let mut i: usize = 0;
        while i < count
            invariant
                i <= count,
                ids@.len() == i,
                forall|j: int| 0 <= j < i ==> is_uuid((#[trigger] ids@[j])@),
            decreases count - i,
        {
            ids.push(random_uuid());
            i += 1;
        }
        Draw { now_ms, ids }
    }

    /// Draws one more random identifier.
    pub fn draw_another(&mut self)
        ensures
            final(self).now_ms == old(self).now_ms,
            final(self).deep_view().ids.drop_last() == old(self).deep_view().ids,
            final(self).deep_view().ids.len() == old(self).deep_view().ids.len() + 1,
            is_uuid(final(self).deep_view().ids.last()),
    {
        let ghost before = self.deep_view().ids;
        self.ids.push(random_uuid());
        assert(self.deep_view().ids.drop_last() =~= before);
    }
}

} // verus!
