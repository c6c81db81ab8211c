//! The syntax of names over UTF-16 code units, for systems that take their
//! names in that form. The rules are those for bytes: a code unit beyond one
//! byte is neither white space nor part of any name.

use vstd::prelude::*;

use crate::ascii::{
    is_alphanumeric, is_ascii_alphanumeric, is_ascii_whitespace, is_whitespace, DASH, DOT,
};
use crate::syntax::{
    content_end, content_start, is_forbidden_pair, is_name_byte, lemma_content_end,
    lemma_content_end_unique, lemma_content_start, lemma_content_start_unique, trimmed,
    valid_name,
};

verus! {

/// Whether `unit` stands for an ASCII white space character.
pub open spec fn unit_is_whitespace(unit: u16) -> bool {
    unit <= 0xff && is_whitespace(unit as u8)
}

/// Whether `unit` stands for an ASCII letter or digit.
pub open spec fn unit_is_alphanumeric(unit: u16) -> bool {
    unit <= 0xff && is_alphanumeric(unit as u8)
}

/// The code units a name may hold: letters, digits, `-` and `.`.
pub open spec fn is_name_unit(unit: u16) -> bool {
    unit_is_alphanumeric(unit) || unit == DASH as u16 || unit == DOT as u16
}

/// The pairs of neighbours that no name may hold: `..`, `.-` and `-.`.
pub open spec fn is_forbidden_unit_pair(left: u16, right: u16) -> bool {
    (left == DOT as u16 && right == DOT as u16) || (left == DOT as u16 && right == DASH as u16)
        || (left == DASH as u16 && right == DOT as u16)
}

/// The index of the first code unit of `s` that is not white space,
/// `s.len()` if there is none.
pub open spec fn wide_content_start(s: Seq<u16>) -> int
    decreases s.len(),
{
    if s.len() > 0 && unit_is_whitespace(s.first()) {
        1 + wide_content_start(s.drop_first())
    } else {
        0
    }
}

/// One past the index of the last code unit of `s` that is not white space,
/// 0 if there is none.
pub open spec fn wide_content_end(s: Seq<u16>) -> int
    decreases s.len(),
{
    if s.len() > 0 && unit_is_whitespace(s.last()) {
        wide_content_end(s.drop_last())
    } else {
        s.len() as int
    }
}

/// What is left of `s` without the white space at its two ends.
pub open spec fn wide_trimmed(s: Seq<u16>) -> Seq<u16> {
    if wide_content_start(s) < wide_content_end(s) {
        s.subrange(wide_content_start(s), wide_content_end(s))
    } else {
        Seq::empty()
    }
}

/// The names that may be handed to the operating system: not empty, a letter
/// or digit at each end, only name units, no forbidden pair.
pub open spec fn valid_wide_name(s: Seq<u16>) -> bool {
    &&& s.len() > 0
    &&& unit_is_alphanumeric(s.first())
    &&& unit_is_alphanumeric(s.last())
    &&& forall|i: int| 0 <= i < s.len() ==> is_name_unit(#[trigger] s[i])
    &&& forall|i: int|
        0 <= i < s.len() - 1 ==> !is_forbidden_unit_pair(#[trigger] s[i], s[i + 1])
}

/// The form in which a name reaches the operating system: its code units,
/// then one zero.
pub open spec fn wide_terminated(s: Seq<u16>) -> Seq<u16> {
    s.push(0u16)
}

/// The byte that the name rules treat as they treat `unit`: the unit itself
/// where it fits in a byte, else a byte that is neither white space nor part
/// of any name.
pub open spec fn narrowed_unit(unit: u16) -> u8 {
    if unit <= 0xff {
        unit as u8
    } else {
        0xffu8
    }
}

/// `s` with each code unit narrowed.
pub open spec fn narrowed(s: Seq<u16>) -> Seq<u8> {
    s.map_values(|unit: u16| narrowed_unit(unit))
}

/// `s` with each byte as a code unit of its own.
pub open spec fn widened(s: Seq<u8>) -> Seq<u16> {
    s.map_values(|byte: u8| byte as u16)
}

/// Narrowing keeps the class of every code unit.
pub proof fn lemma_narrowed_unit(unit: u16)
    ensures
        is_whitespace(narrowed_unit(unit)) == unit_is_whitespace(unit),
        is_alphanumeric(narrowed_unit(unit)) == unit_is_alphanumeric(unit),
        is_name_byte(narrowed_unit(unit)) == is_name_unit(unit),
        (narrowed_unit(unit) == DOT) == (unit == DOT as u16),
        (narrowed_unit(unit) == DASH) == (unit == DASH as u16),
{
}

/// White space ends in a UTF-16 name where it ends in the narrowed name.
pub proof fn lemma_wide_content_bounds(s: Seq<u16>)
    ensures
        wide_content_start(s) == content_start(narrowed(s)),
        wide_content_end(s) == content_end(narrowed(s)),
    decreases s.len(),
{
    if s.len() > 0 {
        assert(narrowed(s).first() == narrowed_unit(s.first()));
        assert(narrowed(s).last() == narrowed_unit(s.last()));
        assert(narrowed(s.drop_first()) =~= narrowed(s).drop_first());
        assert(narrowed(s.drop_last()) =~= narrowed(s).drop_last());
        lemma_wide_content_bounds(s.drop_first());
        lemma_wide_content_bounds(s.drop_last());
    }
}

/// The rules judge a UTF-16 name and its narrowed form alike, and trimming
/// cuts both at the same places.
pub proof fn lemma_wide_matches_narrowed(s: Seq<u16>)
    ensures
        valid_wide_name(s) == valid_name(narrowed(s)),
        narrowed(wide_trimmed(s)) == trimmed(narrowed(s)),
{
    let n = narrowed(s);
    lemma_wide_content_bounds(s);
    lemma_content_start(n);
    lemma_content_end(n);
    assert(narrowed(wide_trimmed(s)) =~= trimmed(n));
    assert forall|i: int| 0 <= i < s.len() implies is_name_byte(#[trigger] n[i]) == is_name_unit(
        s[i],
    ) by {
        lemma_narrowed_unit(s[i]);
    }
    assert forall|i: int| 0 <= i < s.len() - 1 implies is_forbidden_pair(
        #[trigger] n[i],
        n[i + 1],
    ) == is_forbidden_unit_pair(s[i], s[i + 1]) by {
        lemma_narrowed_unit(s[i]);
        lemma_narrowed_unit(s[i + 1]);
    }
    if s.len() > 0 {
        lemma_narrowed_unit(s.first());
        lemma_narrowed_unit(s.last());
        assert(n.first() == narrowed_unit(s.first()));
        assert(n.last() == narrowed_unit(s.last()));
    }
    if valid_wide_name(s) {
        assert forall|i: int| 0 <= i < n.len() implies is_name_byte(#[trigger] n[i]) by {
            assert(is_name_unit(s[i]));
        }
        assert forall|i: int| 0 <= i < n.len() - 1 implies !is_forbidden_pair(
            #[trigger] n[i],
            n[i + 1],
        ) by {
            assert(!is_forbidden_unit_pair(s[i], s[i + 1]));
        }
    }
    if valid_name(n) {
        assert forall|i: int| 0 <= i < s.len() implies is_name_unit(#[trigger] s[i]) by {
            assert(is_name_byte(n[i]));
        }
        assert forall|i: int| 0 <= i < s.len() - 1 implies !is_forbidden_unit_pair(
            #[trigger] s[i],
            s[i + 1],
        ) by {
            assert(!is_forbidden_pair(n[i], n[i + 1]));
        }
    }
}

/// A name of bytes and the same name in UTF-16 fare alike: one is valid
/// exactly when the other is, and trimming one gives the other trimmed.
pub proof fn lemma_bytes_and_wide_agree(s: Seq<u8>)
    ensures
        valid_wide_name(widened(s)) == valid_name(s),
        wide_trimmed(widened(s)) == widened(trimmed(s)),
{
    let w = widened(s);
    assert(narrowed(w) =~= s);
    lemma_wide_matches_narrowed(w);
    lemma_wide_content_bounds(w);
    lemma_content_start(s);
    lemma_content_end(s);
    assert(wide_trimmed(w) =~= widened(trimmed(s)));
}

/// Trimming a UTF-16 name twice is trimming it once.
pub proof fn lemma_wide_trimmed_idempotent(s: Seq<u16>)
    ensures
        wide_trimmed(wide_trimmed(s)) == wide_trimmed(s),
{
    let t = wide_trimmed(s);
    if t.len() > 0 {
        let n = narrowed(s);
        lemma_wide_content_bounds(s);
        lemma_content_start(n);
        lemma_content_end(n);
        let from = wide_content_start(s);
        let to = wide_content_end(s);
        assert(t.first() == s[from]);
        assert(t.last() == s[to - 1]);
        assert(n[from] == narrowed_unit(s[from]));
        assert(n[to - 1] == narrowed_unit(s[to - 1]));
        lemma_narrowed_unit(s[from]);
        lemma_narrowed_unit(s[to - 1]);
        assert(wide_content_start(t) == 0);
        assert(wide_content_end(t) == t.len());
        assert(t.subrange(0, t.len() as int) =~= t);
    } else {
        assert(wide_content_start(t) == 0);
        assert(wide_content_end(t) == 0);
    }
}

/// Whether `ch` stands for an ASCII white space character.
pub fn u16_is_ascii_whitespace(ch: &u16) -> (r: bool)
    ensures
        r == unit_is_whitespace(*ch),
{
    *ch <= 0xff && is_ascii_whitespace(*ch as u8)
}

/// Whether `ch` stands for an ASCII letter or digit.
pub fn u16_is_ascii_alphanumeric(ch: &u16) -> (r: bool)
    ensures
        r == unit_is_alphanumeric(*ch),
{
    *ch <= 0xff && is_ascii_alphanumeric(*ch as u8)
}

/// `bytes` with each byte as a code unit of its own: what ASCII text is in
/// UTF-16.
pub fn widen(bytes: &[u8]) -> (wide: Vec<u16>)
    ensures
        wide@ == widened(bytes@),
{
    let mut wide: Vec<u16> = Vec::new();
    let mut i: usize = 0;
    while i < bytes.len()
        invariant
            i <= bytes.len(),
            wide@ == widened(bytes@.subrange(0, i as int)),
        decreases bytes.len() - i,
    {
        wide.push(bytes[i] as u16);
        i += 1;
        assert(wide@ =~= widened(bytes@.subrange(0, i as int)));
    }
    assert(bytes@.subrange(0, bytes.len() as int) =~= bytes@);
    wide
}

/// The bytes of `units`, for each code unit its lower byte and then its
/// upper byte.
pub open spec fn le_bytes_of(units: Seq<u16>) -> Seq<u8> {
    Seq::new(
        2 * units.len(),
        |i: int|
            if i % 2 == 0 {
                (units[i / 2] % 256) as u8
            } else {
                (units[i / 2] / 256) as u8
            },
    )
}

/// The bytes of a name in UTF-16, in little-endian order.
pub fn le_bytes(units: &[u16]) -> (bytes: Vec<u8>)
    ensures
        bytes@ == le_bytes_of(units@),
{
    let mut bytes: Vec<u8> = Vec::new();
    let mut i: usize = 0;
    while i < units.len()
        invariant
            i <= units.len(),
            bytes@ == le_bytes_of(units@.subrange(0, i as int)),
        decreases units.len() - i,
    {
        let unit = units[i];
        let low: u8 = (unit & 0xff) as u8;
        let high: u8 = (unit >> 8) as u8;
        assert((unit & 0xff) == unit % 256) by (bit_vector);
        assert((unit >> 8) == unit / 256) by (bit_vector);
        bytes.push(low);
        bytes.push(high);
        i += 1;
        assert(bytes@ =~= le_bytes_of(units@.subrange(0, i as int)));
    }
    assert(units@.subrange(0, units.len() as int) =~= units@);
    bytes
}

/// Strips the ASCII white space from both ends of `name`.
pub fn trim_wide(name: &[u16]) -> (r: Vec<u16>)
    ensures
        r@ == wide_trimmed(name@),
{
    let len = name.len();
    let mut start: usize = 0;
    while start < len && u16_is_ascii_whitespace(&name[start])
        invariant
            len == name@.len(),
            start <= len,
            forall|k: int| 0 <= k < start ==> unit_is_whitespace(#[trigger] name@[k]),
        decreases len - start,
    {
        start += 1;
    }
    let mut end: usize = len;
    while end > start && u16_is_ascii_whitespace(&name[end - 1])
        invariant
            len == name@.len(),
            start <= end <= len,
            forall|k: int| end <= k < len ==> unit_is_whitespace(#[trigger] name@[k]),
        decreases end,
    {
        end -= 1;
    }
    proof {
        let n = narrowed(name@);
        lemma_wide_content_bounds(name@);
        assert forall|k: int| 0 <= k < start implies is_whitespace(#[trigger] n[k]) by {
            assert(unit_is_whitespace(name@[k]));
        }
        lemma_content_start_unique(n, start as int);
        if start < end {
            assert forall|k: int| end <= k < len implies is_whitespace(#[trigger] n[k]) by {
                assert(unit_is_whitespace(name@[k]));
            }
            lemma_content_end_unique(n, end as int);
        } else {
            lemma_content_end(n);
            if content_end(n) > 0 {
                assert(unit_is_whitespace(name@[content_end(n) - 1]));
            }
        }
    }
    let mut r: Vec<u16> = Vec::new();
    let mut i: usize = start;
    while i < end
        invariant
            start <= i <= end <= len,
            len == name@.len(),
            r@ == name@.subrange(start as int, i as int),
        decreases end - i,
    {
        r.push(name[i]);
        i += 1;
        assert(r@ =~= name@.subrange(start as int, i as int));
    }
    assert(r@ =~= wide_trimmed(name@));
    r
}

/// Whether `name` obeys the rules for a name.
pub fn is_valid_wide_name(name: &[u16]) -> (ok: bool)
    ensures
        ok == valid_wide_name(name@),
{
    let len = name.len();
    if len == 0 {
        return false;
    }
    if !u16_is_ascii_alphanumeric(&name[0]) || !u16_is_ascii_alphanumeric(&name[len - 1]) {
        return false;
    }
    let dot: u16 = DOT as u16;
    let dash: u16 = DASH as u16;
    let mut i: usize = 0;
    while i < len
        invariant
            len == name@.len(),
            i <= len,
            dot == DOT as u16,
            dash == DASH as u16,
            forall|k: int| 0 <= k < i ==> is_name_unit(#[trigger] name@[k]),
            forall|k: int|
                0 <= k < i && k < len - 1 ==> !is_forbidden_unit_pair(
                    #[trigger] name@[k],
                    name@[k + 1],
                ),
        decreases len - i,
    {
        let unit = name[i];
        if !(u16_is_ascii_alphanumeric(&unit) || unit == dash || unit == dot) {
            assert(!is_name_unit(name@[i as int]));
            return false;
        }
        if i + 1 < len {
            let next = name[i + 1];
            if (unit == dot && (next == dot || next == dash)) || (unit == dash && next == dot) {
                assert(is_forbidden_unit_pair(name@[i as int], name@[i + 1]));
                return false;
            }
        }
        i += 1;
    }
    true
}

} // verus!
