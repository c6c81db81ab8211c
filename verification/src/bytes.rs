//! Finding the first of an item in a sequence, and copying bytes.

use vstd::prelude::*;

verus! {

/// The index of the first `item` in `s`; `s.len()` if `s` holds none.
pub open spec fn position<T>(s: Seq<T>, item: T) -> int
    decreases s.len(),
{
    if s.len() == 0 || s.first() == item {
        0
    } else {
        1 + position(s.drop_first(), item)
    }
}

/// `position(s, item)` is the one index before which no `item` stands and
/// at which one does, or the length of `s`.
pub proof fn lemma_position<T>(s: Seq<T>, item: T)
    ensures
        0 <= position(s, item) <= s.len(),
        forall|k: int| 0 <= k < position(s, item) ==> #[trigger] s[k] != item,
        position(s, item) < s.len() ==> s[position(s, item)] == item,
    decreases s.len(),
{
    if s.len() > 0 && s.first() != item {
        let rest = s.drop_first();
        lemma_position(rest, item);
        assert forall|k: int| 0 <= k < position(s, item) implies #[trigger] s[k] != item by {
            if k > 0 {
                assert(s[k] == rest[k - 1]);
            }
        }
        if position(s, item) < s.len() {
            assert(s[position(s, item)] == rest[position(rest, item)]);
        }
    }
}

/// An index before which no `item` stands, and at which one stands unless
/// it is the length of `s`, is `position(s, item)`.
pub proof fn lemma_position_unique<T>(s: Seq<T>, item: T, i: int)
    requires
        0 <= i <= s.len(),
        forall|k: int| 0 <= k < i ==> #[trigger] s[k] != item,
        i < s.len() ==> s[i] == item,
    ensures
        position(s, item) == i,
{
    lemma_position(s, item);
    let p = position(s, item);
    if p < i {
        assert(s[p] != item);
    } else if i < p {
        assert(s[i] != item);
    }
}

/// The index of the first `byte` in `bytes`, if there is one.
pub fn find(bytes: &[u8], byte: u8) -> (r: Option<usize>)
    ensures
        match r {
            Some(i) => i < bytes@.len() && i == position(bytes@, byte),
            None => position(bytes@, byte) == bytes@.len(),
        },
{
    let mut i: usize = 0;
    while i < bytes.len()
        invariant
            i <= bytes.len(),
            forall|k: int| 0 <= k < i ==> #[trigger] bytes@[k] != byte,
        decreases bytes.len() - i,
    {
        if bytes[i] == byte {
            proof {
                lemma_position_unique(bytes@, byte, i as int);
            }
            return Some(i);
        }
        i += 1;
    }
    proof {
        lemma_position_unique(bytes@, byte, i as int);
    }
    None
}

/// The index of the first `unit` in `units`, if there is one.
pub fn find_unit(units: &[u16], unit: u16) -> (r: Option<usize>)
    ensures
        match r {
            Some(i) => i < units@.len() && i == position(units@, unit),
            None => position(units@, unit) == units@.len(),
        },
{
    let mut i: usize = 0;
    while i < units.len()
        invariant
            i <= units.len(),
            forall|k: int| 0 <= k < i ==> #[trigger] units@[k] != unit,
        decreases units.len() - i,
    {
        if units[i] == unit {
            proof {
                lemma_position_unique(units@, unit, i as int);
            }
            return Some(i);
        }
        i += 1;
    }
    proof {
        lemma_position_unique(units@, unit, i as int);
    }
    None
}

/// A copy of the first `len` bytes of `bytes`.
pub(crate) fn prefix(bytes: &[u8], len: usize) -> (r: Vec<u8>)
    requires
        len <= bytes@.len(),
    ensures
        r@ == bytes@.subrange(0, len as int),
{
    let mut r: Vec<u8> = Vec::new();
    let mut i: usize = 0;
    while i < len
        invariant
            i <= len <= bytes@.len(),
            r@ == bytes@.subrange(0, i as int),
        decreases len - i,
    {
        r.push(bytes[i]);
        i += 1;
        assert(r@ =~= bytes@.subrange(0, i as int));
    }
    r
}

/// Appends the bytes of `tail` to `out`.
pub fn append(out: &mut Vec<u8>, tail: &[u8])
    ensures
        final(out)@ == old(out)@ + tail@,
{
    let mut i: usize = 0;
    while i < tail.len()
        invariant
            i <= tail.len(),
            out@ == old(out)@ + tail@.subrange(0, i as int),
        decreases tail.len() - i,
    {
        out.push(tail[i]);
        i += 1;
        assert(out@ =~= old(out)@ + tail@.subrange(0, i as int));
    }
    assert(tail@.subrange(0, tail.len() as int) =~= tail@);
}

} // verus!
