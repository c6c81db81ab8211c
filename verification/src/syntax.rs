//! The syntax of host and domain names over bytes: what trimming leaves of a
//! raw name, and which names may be handed to the operating system.
//!
//! The rules are those of RFC 1035, section 2.3.1 ("Preferred name syntax"),
//! applied byte by byte.

use vstd::prelude::*;

use crate::ascii::{
    is_alphanumeric, is_ascii_alphanumeric, is_ascii_whitespace, is_whitespace, DASH, DOT, NUL,
};

verus! {

/// The index of the first byte of `s` that is not white space, `s.len()` if
/// there is none.
pub open spec fn content_start(s: Seq<u8>) -> int
    decreases s.len(),
{
    if s.len() > 0 && is_whitespace(s.first()) {
        1 + content_start(s.drop_first())
    } else {
        0
    }
}

/// One past the index of the last byte of `s` that is not white space, 0 if
/// there is none.
pub open spec fn content_end(s: Seq<u8>) -> int
    decreases s.len(),
{
    if s.len() > 0 && is_whitespace(s.last()) {
        content_end(s.drop_last())
    } else {
        s.len() as int
    }
}

/// What is left of `s` without the white space at its two ends. White space
/// inside stays.
pub open spec fn trimmed(s: Seq<u8>) -> Seq<u8> {
    if content_start(s) < content_end(s) {
        s.subrange(content_start(s), content_end(s))
    } else {
        Seq::empty()
    }
}

/// The bytes a name may hold: letters, digits, `-` and `.`.
pub open spec fn is_name_byte(byte: u8) -> bool {
    is_alphanumeric(byte) || byte == DASH || byte == DOT
}

/// The pairs of neighbours that no name may hold: `..`, `.-` and `-.`.
pub open spec fn is_forbidden_pair(left: u8, right: u8) -> bool {
    (left == DOT && right == DOT) || (left == DOT && right == DASH) || (left == DASH && right
        == DOT)
}

/// The names that may be handed to the operating system: not empty, a letter
/// or digit at each end, only name bytes, no forbidden pair.
pub open spec fn valid_name(s: Seq<u8>) -> bool {
    &&& s.len() > 0
    &&& is_alphanumeric(s.first())
    &&& is_alphanumeric(s.last())
    &&& forall|i: int| 0 <= i < s.len() ==> is_name_byte(#[trigger] s[i])
    &&& forall|i: int| 0 <= i < s.len() - 1 ==> !is_forbidden_pair(#[trigger] s[i], s[i + 1])
}

/// The form in which a name reaches the operating system: its bytes, then
/// one zero byte.
pub open spec fn terminated(s: Seq<u8>) -> Seq<u8> {
    s.push(NUL)
}

/// `content_start(s)` is the one index before which all is white space and
/// at which white space ends.
pub proof fn lemma_content_start(s: Seq<u8>)
    ensures
        0 <= content_start(s) <= s.len(),
        forall|k: int| 0 <= k < content_start(s) ==> is_whitespace(#[trigger] s[k]),
        content_start(s) < s.len() ==> !is_whitespace(s[content_start(s)]),
    decreases s.len(),
{
    if s.len() > 0 && is_whitespace(s.first()) {
        let rest = s.drop_first();
        lemma_content_start(rest);
        assert forall|k: int| 0 <= k < content_start(s) implies is_whitespace(#[trigger] s[k]) by {
            if k > 0 {
                assert(s[k] == rest[k - 1]);
            }
        }
        if content_start(s) < s.len() {
            assert(s[content_start(s)] == rest[content_start(rest)]);
        }
    }
}

/// `content_end(s)` is the one index from which on all is white space and
/// before which a byte that is none stands.
pub proof fn lemma_content_end(s: Seq<u8>)
    ensures
        0 <= content_end(s) <= s.len(),
        forall|k: int| content_end(s) <= k < s.len() ==> is_whitespace(#[trigger] s[k]),
        content_end(s) > 0 ==> !is_whitespace(s[content_end(s) - 1]),
    decreases s.len(),
{
    if s.len() > 0 && is_whitespace(s.last()) {
        let rest = s.drop_last();
        lemma_content_end(rest);
        assert forall|k: int| content_end(s) <= k < s.len() implies is_whitespace(
            #[trigger] s[k],
        ) by {
            if k < s.len() - 1 {
                assert(s[k] == rest[k]);
            }
        }
        if content_end(s) > 0 {
            assert(s[content_end(s) - 1] == rest[content_end(rest) - 1]);
        }
    }
}

/// An index before which all is white space, and at which a byte stands
/// that is none unless it is the length of `s`, is `content_start(s)`.
pub proof fn lemma_content_start_unique(s: Seq<u8>, i: int)
    requires
        0 <= i <= s.len(),
        forall|k: int| 0 <= k < i ==> is_whitespace(#[trigger] s[k]),
        i < s.len() ==> !is_whitespace(s[i]),
    ensures
        content_start(s) == i,
{
    lemma_content_start(s);
    let j = content_start(s);
    if j < i {
        assert(is_whitespace(s[j]));
    } else if i < j {
        assert(is_whitespace(s[i]));
    }
}

/// An index from which on all is white space, and before which a byte
/// stands that is none unless it is 0, is `content_end(s)`.
pub proof fn lemma_content_end_unique(s: Seq<u8>, j: int)
    requires
        0 <= j <= s.len(),
        forall|k: int| j <= k < s.len() ==> is_whitespace(#[trigger] s[k]),
        j > 0 ==> !is_whitespace(s[j - 1]),
    ensures
        content_end(s) == j,
{
    lemma_content_end(s);
    let e = content_end(s);
    if e < j {
        assert(is_whitespace(s[j - 1]));
    } else if j < e {
        assert(is_whitespace(s[e - 1]));
    }
}

/// Trimming cuts a name out of the raw bytes and nothing else: what it
/// leaves is a stretch of `s` with only white space before and after it, and
/// with no white space at either of its own ends.
pub proof fn lemma_trimmed_is_the_content(s: Seq<u8>)
    ensures
        0 <= content_start(s) <= s.len(),
        0 <= content_end(s) <= s.len(),
        trimmed(s).len() > 0 ==> trimmed(s) == s.subrange(content_start(s), content_end(s)),
        trimmed(s).len() > 0 ==> !is_whitespace(trimmed(s).first()) && !is_whitespace(
            trimmed(s).last(),
        ),
        trimmed(s).len() == 0 ==> forall|k: int| 0 <= k < s.len() ==> is_whitespace(#[trigger] s[k]),
        forall|k: int| 0 <= k < content_start(s) ==> is_whitespace(#[trigger] s[k]),
        forall|k: int| content_end(s) <= k < s.len() ==> is_whitespace(#[trigger] s[k]),
{
    lemma_content_start(s);
    lemma_content_end(s);
    if content_start(s) < content_end(s) {
        assert(trimmed(s).first() == s[content_start(s)]);
        assert(trimmed(s).last() == s[content_end(s) - 1]);
    } else {
        assert forall|k: int| 0 <= k < s.len() implies is_whitespace(#[trigger] s[k]) by {
            if content_start(s) < s.len() {
                assert(content_start(s) >= content_end(s));
                assert(is_whitespace(s[content_start(s)]));
            }
        }
    }
}

/// Trimming twice is trimming once.
pub proof fn lemma_trimmed_idempotent(s: Seq<u8>)
    ensures
        trimmed(trimmed(s)) == trimmed(s),
{
    let t = trimmed(s);
    lemma_trimmed_is_the_content(s);
    if t.len() > 0 {
        lemma_content_start_unique(t, 0);
        lemma_content_end_unique(t, t.len() as int);
        assert(t.subrange(0, t.len() as int) =~= t);
    } else {
        assert(content_start(t) == 0);
        assert(content_end(t) == 0);
    }
}

/// A raw name is accepted exactly when its trimmed form is not empty,
/// starts and ends with a letter or digit, holds only letters, digits, `-`
/// and `.`, and holds none of `..`, `.-` and `-.`.
pub proof fn lemma_accepted_after_trimming(raw: Seq<u8>)
    ensures
        valid_name(trimmed(raw)) <==> {
            let name = trimmed(raw);
            &&& name.len() > 0
            &&& is_alphanumeric(name[0])
            &&& is_alphanumeric(name[name.len() - 1])
            &&& forall|i: int|
                0 <= i < name.len() ==> is_alphanumeric(#[trigger] name[i]) || name[i] == DASH
                    || name[i] == DOT
            &&& forall|i: int|
                0 <= i < name.len() - 1 ==> !(#[trigger] name[i] == DOT && name[i + 1] == DOT)
                    && !(name[i] == DOT && name[i + 1] == DASH) && !(name[i] == DASH && name[i
                    + 1] == DOT)
        },
{
}

/// A valid name holds no white space, so trimming leaves it as it is.
pub proof fn lemma_valid_name_is_trimmed(s: Seq<u8>)
    requires
        valid_name(s),
    ensures
        trimmed(s) == s,
{
    lemma_content_start_unique(s, 0);
    lemma_content_end_unique(s, s.len() as int);
    assert(s.subrange(0, s.len() as int) =~= s);
}

/// A valid name holds no zero byte: in its terminated form the only zero
/// byte is the last one.
pub proof fn lemma_terminated_name(s: Seq<u8>)
    requires
        valid_name(s),
    ensures
        terminated(s).len() == s.len() + 1,
        terminated(s).last() == NUL,
        terminated(s).drop_last() == s,
        forall|i: int| 0 <= i < s.len() ==> #[trigger] terminated(s)[i] != NUL,
{
    assert(terminated(s).drop_last() =~= s);
    assert forall|i: int| 0 <= i < s.len() implies #[trigger] terminated(s)[i] != NUL by {
        assert(is_name_byte(s[i]));
    }
}

/// Every `.` of a valid name stands between two letters or digits, so every
/// label of the name is non-empty and starts and ends with a letter or digit.
pub proof fn lemma_dots_separate_labels(s: Seq<u8>, i: int)
    requires
        valid_name(s),
        0 <= i < s.len(),
        s[i] == DOT,
    ensures
        0 < i < s.len() - 1,
        is_alphanumeric(s[i - 1]),
        is_alphanumeric(s[i + 1]),
{
    assert(is_name_byte(s[i - 1]));
    assert(is_name_byte(s[i + 1]));
    assert(!is_forbidden_pair(s[i - 1], s[i]));
    assert(!is_forbidden_pair(s[i], s[i + 1]));
}

/// A label of a name: letters, digits and `-`, with a letter or digit at
/// each end.
pub open spec fn valid_label(label: Seq<u8>) -> bool {
    &&& label.len() > 0
    &&& is_alphanumeric(label.first())
    &&& is_alphanumeric(label.last())
    &&& forall|i: int|
        0 <= i < label.len() ==> is_alphanumeric(#[trigger] label[i]) || label[i] == DASH
}

/// `labels` with a `.` between each two neighbours.
pub open spec fn dotted(labels: Seq<Seq<u8>>) -> Seq<u8>
    decreases labels.len(),
{
    if labels.len() == 0 {
        Seq::empty()
    } else if labels.len() == 1 {
        labels[0]
    } else {
        dotted(labels.drop_last()) + seq![DOT] + labels.last()
    }
}

/// Whether `name` is made of the labels `labels`: there is a label, every
/// label is valid, and `name` is the labels with dots between them.
pub open spec fn made_of_labels(name: Seq<u8>, labels: Seq<Seq<u8>>) -> bool {
    &&& labels.len() > 0
    &&& forall|i: int| 0 <= i < labels.len() ==> valid_label(#[trigger] labels[i])
    &&& dotted(labels) == name
}

/// A valid label is a valid name.
pub proof fn lemma_label_is_name(label: Seq<u8>)
    requires
        valid_label(label),
    ensures
        valid_name(label),
{
    assert forall|i: int| 0 <= i < label.len() implies is_name_byte(#[trigger] label[i]) by {}
    assert forall|i: int| 0 <= i < label.len() - 1 implies !is_forbidden_pair(
        #[trigger] label[i],
        label[i + 1],
    ) by {
        assert(is_alphanumeric(label[i]) || label[i] == DASH);
        assert(is_alphanumeric(label[i + 1]) || label[i + 1] == DASH);
    }
}

/// A valid name, a `.` and a valid label make a valid name.
pub proof fn lemma_name_dot_label(name: Seq<u8>, label: Seq<u8>)
    requires
        valid_name(name),
        valid_label(label),
    ensures
        valid_name(name + seq![DOT] + label),
{
    let longer = name + seq![DOT] + label;
    let dot = name.len() as int;
    lemma_label_is_name(label);
    assert(longer.first() == name.first());
    assert(longer.last() == label.last());
    assert forall|i: int| 0 <= i < longer.len() implies is_name_byte(#[trigger] longer[i]) by {
        if i < dot {
            assert(longer[i] == name[i]);
        } else if i > dot {
            assert(longer[i] == label[i - dot - 1]);
        }
    }
    assert forall|i: int| 0 <= i < longer.len() - 1 implies !is_forbidden_pair(
        #[trigger] longer[i],
        longer[i + 1],
    ) by {
        if i + 1 < dot {
            assert(longer[i] == name[i]);
            assert(longer[i + 1] == name[i + 1]);
        } else if i + 1 == dot {
            assert(longer[i] == name.last());
        } else if i == dot {
            assert(longer[i + 1] == label.first());
        } else {
            assert(longer[i] == label[i - dot - 1]);
            assert(longer[i + 1] == label[i - dot]);
        }
    }
}

/// Valid labels with dots between them are a valid name.
pub proof fn lemma_labels_make_a_name(labels: Seq<Seq<u8>>)
    requires
        labels.len() > 0,
        forall|i: int| 0 <= i < labels.len() ==> valid_label(#[trigger] labels[i]),
    ensures
        valid_name(dotted(labels)),
    decreases labels.len(),
{
    if labels.len() == 1 {
        lemma_label_is_name(labels[0]);
    } else {
        let front = labels.drop_last();
        assert forall|i: int| 0 <= i < front.len() implies valid_label(#[trigger] front[i]) by {
            assert(front[i] == labels[i]);
        }
        lemma_labels_make_a_name(front);
        assert(valid_label(labels[labels.len() - 1]));
        lemma_name_dot_label(dotted(front), labels.last());
    }
}

/// A valid name without a `.` from index `k + 1` on is made of labels.
proof fn lemma_name_has_labels_from(s: Seq<u8>, k: int)
    requires
        valid_name(s),
        0 <= k < s.len(),
        forall|j: int| k < j < s.len() ==> #[trigger] s[j] != DOT,
    ensures
        exists|labels: Seq<Seq<u8>>| made_of_labels(s, labels),
    decreases s.len(), k,
{
    if s[k] == DOT {
        lemma_dots_separate_labels(s, k);
        let name = s.subrange(0, k);
        let label = s.subrange(k + 1, s.len() as int);
        assert(name.last() == s[k - 1]);
        assert(label.first() == s[k + 1]);
        assert(label.last() == s.last());
        assert forall|i: int| 0 <= i < label.len() implies is_alphanumeric(#[trigger] label[i])
            || label[i] == DASH by {
            assert(label[i] == s[k + 1 + i]);
            assert(is_name_byte(s[k + 1 + i]));
        }
        assert forall|i: int| 0 <= i < name.len() implies is_name_byte(#[trigger] name[i]) by {
            assert(name[i] == s[i]);
        }
        assert forall|i: int| 0 <= i < name.len() - 1 implies !is_forbidden_pair(
            #[trigger] name[i],
            name[i + 1],
        ) by {
            assert(name[i] == s[i]);
            assert(name[i + 1] == s[i + 1]);
        }
        lemma_name_has_labels(name);
        let front = choose|labels: Seq<Seq<u8>>| made_of_labels(name, labels);
        let labels = front.push(label);
        assert(labels.drop_last() =~= front);
        assert forall|i: int| 0 <= i < labels.len() implies valid_label(#[trigger] labels[i]) by {
            if i < front.len() {
                assert(labels[i] == front[i]);
            }
        }
        assert(dotted(labels) =~= s);
        assert(made_of_labels(s, labels));
    } else if k == 0 {
        assert forall|i: int| 0 <= i < s.len() implies is_alphanumeric(#[trigger] s[i]) || s[i]
            == DASH by {
            assert(is_name_byte(s[i]));
        }
        let labels = seq![s];
        assert(made_of_labels(s, labels));
    } else {
        lemma_name_has_labels_from(s, k - 1);
    }
}

/// A valid name is made of labels.
pub proof fn lemma_name_has_labels(s: Seq<u8>)
    requires
        valid_name(s),
    ensures
        exists|labels: Seq<Seq<u8>>| made_of_labels(s, labels),
    decreases s.len(), s.len(),
{
    lemma_name_has_labels_from(s, s.len() - 1);
}

/// The valid names are the names that are made of labels: one or more
/// labels of letters, digits and `-`, each with a letter or digit at both
/// its ends, with a `.` between each two.
pub proof fn lemma_valid_names_are_dotted_labels(s: Seq<u8>)
    ensures
        valid_name(s) <==> exists|labels: Seq<Seq<u8>>| made_of_labels(s, labels),
{
    if valid_name(s) {
        lemma_name_has_labels(s);
    }
    if exists|labels: Seq<Seq<u8>>| made_of_labels(s, labels) {
        let labels = choose|labels: Seq<Seq<u8>>| made_of_labels(s, labels);
        lemma_labels_make_a_name(labels);
    }
}

/// Strips the ASCII white space from both ends of `name`.
pub fn trim_ascii(name: &[u8]) -> (r: Vec<u8>)
    ensures
        r@ == trimmed(name@),
{
    let len = name.len();
    let mut start: usize = 0;
    while start < len && is_ascii_whitespace(name[start])
        invariant
            len == name@.len(),
            start <= len,
            forall|k: int| 0 <= k < start ==> is_whitespace(#[trigger] name@[k]),
        decreases len - start,
    {
        start += 1;
    }
    proof {
        lemma_content_start_unique(name@, start as int);
    }
    let mut r: Vec<u8> = Vec::new();
    if start == len {
        proof {
            lemma_content_end(name@);
            if content_end(name@) > 0 {
                assert(is_whitespace(name@[content_end(name@) - 1]));
            }
        }
        return r;
    }
    let mut end: usize = len;
    while end > start && is_ascii_whitespace(name[end - 1])
        invariant
            len == name@.len(),
            start < len,
            start <= end <= len,
            !is_whitespace(name@[start as int]),
            forall|k: int| end <= k < len ==> is_whitespace(#[trigger] name@[k]),
        decreases end,
    {
        end -= 1;
    }
    proof {
        lemma_content_end_unique(name@, end as int);
    }
    let mut i: usize = start;
    while i < end
        invariant
            start <= i <= end <= len,
            len == name@.len(),
            r@ == name@.subrange(start as int, i as int),
        decreases end - i,
    {
        r.push(name[i]);
        i += 1;
        assert(r@ =~= name@.subrange(start as int, i as int));
    }
    r
}

/// Whether `name` obeys the rules for a name.
pub fn is_valid_name(name: &[u8]) -> (ok: bool)
    ensures
        ok == valid_name(name@),
{
    let len = name.len();
    if len == 0 {
        return false;
    }
    if !is_ascii_alphanumeric(name[0]) || !is_ascii_alphanumeric(name[len - 1]) {
        return false;
    }
    let mut i: usize = 0;
    while i < len
        invariant
            len == name@.len(),
            i <= len,
            forall|k: int| 0 <= k < i ==> is_name_byte(#[trigger] name@[k]),
            forall|k: int|
                0 <= k < i && k < len - 1 ==> !is_forbidden_pair(#[trigger] name@[k], name@[k + 1]),
        decreases len - i,
    {
        let byte = name[i];
        if !(is_ascii_alphanumeric(byte) || byte == DASH || byte == DOT) {
            assert(!is_name_byte(name@[i as int]));
            return false;
        }
        if i + 1 < len {
            let next = name[i + 1];
            if (byte == DOT && (next == DOT || next == DASH)) || (byte == DASH && next == DOT) {
                assert(is_forbidden_pair(name@[i as int], name@[i + 1]));
                return false;
            }
        }
        i += 1;
    }
    true
}

} // verus!
