//! Reading a name out of the text of a name file: the first line that is
//! neither blank nor a comment, without the end of the line.

use vstd::prelude::*;

use crate::ascii::{CARRIAGE_RETURN, HASH, LINE_FEED};

verus! {

/// Whether `byte` is one of the two bytes that end a line.
pub open spec fn is_line_end(byte: u8) -> bool {
    byte == CARRIAGE_RETURN || byte == LINE_FEED
}

/// Where the name starts, for a reader that stands at index `i` of `s`,
/// inside a comment or not: the index of the first byte from `i` on that is
/// outside every comment and is neither a line end nor `#`; `s.len()` if
/// there is no such byte. A comment runs from `#` to the next line feed.
pub open spec fn name_start(s: Seq<u8>, i: int, in_comment: bool) -> int
    decreases s.len() - i,
{
    if i < 0 || i >= s.len() {
        s.len() as int
    } else if in_comment {
        name_start(s, i + 1, s[i] != LINE_FEED)
    } else if is_line_end(s[i]) {
        name_start(s, i + 1, false)
    } else if s[i] == HASH {
        name_start(s, i + 1, true)
    } else {
        i
    }
}

/// One past the first line feed of `s` at or after index `i`; `s.len()` if
/// there is none.
pub open spec fn line_end(s: Seq<u8>, i: int) -> int
    decreases s.len() - i,
{
    if i < 0 || i >= s.len() {
        s.len() as int
    } else if s[i] == LINE_FEED {
        i + 1
    } else {
        line_end(s, i + 1)
    }
}

/// `line` without the carriage returns and line feeds at its end.
pub open spec fn without_line_end(line: Seq<u8>) -> Seq<u8>
    decreases line.len(),
{
    if line.len() > 0 && is_line_end(line.last()) {
        without_line_end(line.drop_last())
    } else {
        line
    }
}

/// The name that a file with the contents `s` gives: its first line that is
/// neither blank nor a comment, from the first byte of that line that is no
/// line end, without the line's end. Empty where the file has no such line.
/// Spaces and tabs are content: they are not removed here.
pub open spec fn name_in_file(s: Seq<u8>) -> Seq<u8> {
    let start = name_start(s, 0, false);
    if start < s.len() {
        without_line_end(s.subrange(start, line_end(s, start)))
    } else {
        Seq::empty()
    }
}

/// `name_start` stays within the text, and the byte it finds is content.
pub proof fn lemma_name_start(s: Seq<u8>, i: int, in_comment: bool)
    requires
        0 <= i <= s.len(),
    ensures
        i <= name_start(s, i, in_comment) <= s.len(),
        name_start(s, i, in_comment) < s.len() ==> !is_line_end(
            s[name_start(s, i, in_comment)],
        ) && s[name_start(s, i, in_comment)] != HASH,
    decreases s.len() - i,
{
    if i < s.len() {
        if in_comment {
            lemma_name_start(s, i + 1, s[i] != LINE_FEED);
        } else if is_line_end(s[i]) {
            lemma_name_start(s, i + 1, false);
        } else if s[i] == HASH {
            lemma_name_start(s, i + 1, true);
        }
    }
}

/// `line_end` stays within the text, no line feed stands before the one it
/// stops behind, and where it stops short of the end it stops behind one.
pub proof fn lemma_line_end(s: Seq<u8>, i: int)
    requires
        0 <= i <= s.len(),
    ensures
        i <= line_end(s, i) <= s.len(),
        i < s.len() ==> i < line_end(s, i),
        forall|k: int| i <= k < line_end(s, i) - 1 ==> #[trigger] s[k] != LINE_FEED,
        line_end(s, i) < s.len() ==> s[line_end(s, i) - 1] == LINE_FEED,
    decreases s.len() - i,
{
    if i < s.len() && s[i] != LINE_FEED {
        lemma_line_end(s, i + 1);
    }
}

/// What `without_line_end` leaves is the front of the line, up to its last
/// byte that is no line end.
pub proof fn lemma_without_line_end(line: Seq<u8>)
    ensures
        without_line_end(line).len() <= line.len(),
        without_line_end(line) == line.subrange(0, without_line_end(line).len() as int),
        without_line_end(line).len() > 0 ==> !is_line_end(without_line_end(line).last()),
        forall|k: int|
            without_line_end(line).len() <= k < line.len() ==> is_line_end(#[trigger] line[k]),
    decreases line.len(),
{
    if line.len() > 0 && is_line_end(line.last()) {
        let rest = line.drop_last();
        lemma_without_line_end(rest);
        let kept = without_line_end(rest).len() as int;
        assert(rest.subrange(0, kept) =~= line.subrange(0, kept));
        assert forall|k: int| kept <= k < line.len() implies is_line_end(#[trigger] line[k]) by {
            if k < line.len() - 1 {
                assert(line[k] == rest[k]);
            }
        }
    } else {
        assert(line.subrange(0, line.len() as int) =~= line);
    }
}

/// A line that does not start with a line end keeps its start when its end
/// is taken off.
pub proof fn lemma_content_outlasts_line_end(line: Seq<u8>)
    requires
        line.len() > 0,
        !is_line_end(line.first()),
    ensures
        without_line_end(line).len() > 0,
        without_line_end(line).first() == line.first(),
{
    lemma_without_line_end(line);
    if without_line_end(line).len() == 0 {
        assert(is_line_end(line[0]));
    }
}

/// What a name read from a file looks like: it starts with a byte that is
/// neither a line end nor `#`, it does not end with a line end, and it holds
/// no line feed.
pub proof fn lemma_name_in_file(s: Seq<u8>)
    ensures
        name_in_file(s).len() > 0 ==> {
            &&& !is_line_end(name_in_file(s).first())
            &&& name_in_file(s).first() != HASH
            &&& !is_line_end(name_in_file(s).last())
        },
        forall|k: int| 0 <= k < name_in_file(s).len() ==> #[trigger] name_in_file(s)[k] != LINE_FEED,
{
    let start = name_start(s, 0, false);
    lemma_name_start(s, 0, false);
    if start < s.len() {
        let line = s.subrange(start, line_end(s, start));
        lemma_line_end(s, start);
        lemma_without_line_end(line);
        lemma_content_outlasts_line_end(line);
        let name = without_line_end(line);
        assert forall|k: int| 0 <= k < name.len() implies #[trigger] name[k] != LINE_FEED by {
            assert(name[k] == line[k]);
            if k == line.len() - 1 {
                assert(name.last() == name[k]);
            } else {
                assert(line[k] == s[start + k]);
            }
        }
    }
}

/// Whether a line of `s` starts at index `i`.
pub open spec fn is_line_start(s: Seq<u8>, i: int) -> bool {
    0 <= i < s.len() && (i == 0 || s[i - 1] == LINE_FEED)
}

/// The index of the first byte of `s` at or after `i` that is no carriage
/// return; `s.len()` if there is none.
pub open spec fn after_carriage_returns(s: Seq<u8>, i: int) -> int
    decreases s.len() - i,
{
    if i < 0 || i >= s.len() {
        s.len() as int
    } else if s[i] == CARRIAGE_RETURN {
        after_carriage_returns(s, i + 1)
    } else {
        i
    }
}

/// Whether the line of `s` that starts at `i` is blank or a comment: after
/// its carriage returns, if any, it ends or `#` follows.
pub open spec fn is_blank_or_comment(s: Seq<u8>, i: int) -> bool {
    let j = after_carriage_returns(s, i);
    j >= s.len() || s[j] == LINE_FEED || s[j] == HASH
}

/// Whether `s` is made of blank lines and comment lines only.
pub open spec fn only_blank_and_comment_lines(s: Seq<u8>) -> bool {
    forall|i: int| #[trigger] is_line_start(s, i) ==> is_blank_or_comment(s, i)
}

/// `after_carriage_returns` passes over carriage returns and nothing else.
pub proof fn lemma_after_carriage_returns(s: Seq<u8>, i: int)
    requires
        0 <= i <= s.len(),
    ensures
        i <= after_carriage_returns(s, i) <= s.len(),
        forall|k: int| i <= k < after_carriage_returns(s, i) ==> #[trigger] s[k] == CARRIAGE_RETURN,
        after_carriage_returns(s, i) < s.len() ==> s[after_carriage_returns(s, i)]
            != CARRIAGE_RETURN,
    decreases s.len() - i,
{
    if i < s.len() && s[i] == CARRIAGE_RETURN {
        lemma_after_carriage_returns(s, i + 1);
    }
}

/// In a text of blank lines and comment lines only, no reader finds a
/// name: neither one inside a comment, nor one that stands among the
/// carriage returns at the start of the line that starts at `line`.
proof fn lemma_scan_passes_blank_and_comment_lines(s: Seq<u8>, i: int, in_comment: bool, line: int)
    requires
        only_blank_and_comment_lines(s),
        0 <= i <= s.len(),
        in_comment || i == s.len() || (is_line_start(s, line) && line <= i && forall|k: int|
            line <= k < i ==> #[trigger] s[k] == CARRIAGE_RETURN),
    ensures
        name_start(s, i, in_comment) == s.len(),
    decreases s.len() - i,
{
    if i < s.len() {
        if in_comment {
            lemma_scan_passes_blank_and_comment_lines(s, i + 1, s[i] != LINE_FEED, i + 1);
        } else if s[i] == CARRIAGE_RETURN {
            lemma_scan_passes_blank_and_comment_lines(s, i + 1, false, line);
        } else if s[i] == LINE_FEED {
            lemma_scan_passes_blank_and_comment_lines(s, i + 1, false, i + 1);
        } else if s[i] == HASH {
            lemma_scan_passes_blank_and_comment_lines(s, i + 1, true, line);
        } else {
            lemma_after_carriage_returns(s, line);
            let j = after_carriage_returns(s, line);
            if j < i {
                assert(s[j] == CARRIAGE_RETURN);
            } else if i < j {
                assert(s[i] == CARRIAGE_RETURN);
            }
            assert(is_blank_or_comment(s, line));
        }
    }
}

/// A reader that stands before a line which is neither blank nor a comment,
/// or among the carriage returns at its start, finds a name no later than in
/// that line.
proof fn lemma_scan_finds_content(s: Seq<u8>, i: int, in_comment: bool, line: int)
    requires
        is_line_start(s, line),
        !is_blank_or_comment(s, line),
        0 <= i <= after_carriage_returns(s, line),
        i < line || !in_comment,
    ensures
        name_start(s, i, in_comment) <= after_carriage_returns(s, line) < s.len(),
    decreases s.len() - i,
{
    lemma_after_carriage_returns(s, line);
    let j = after_carriage_returns(s, line);
    if i < line {
        if in_comment {
            lemma_scan_finds_content(s, i + 1, s[i] != LINE_FEED, line);
        } else if is_line_end(s[i]) {
            lemma_scan_finds_content(s, i + 1, false, line);
        } else if s[i] == HASH {
            if i + 1 == line {
                assert(s[line - 1] == LINE_FEED);
            }
            lemma_scan_finds_content(s, i + 1, true, line);
        }
    } else if i < j {
        assert(s[i] == CARRIAGE_RETURN);
        lemma_scan_finds_content(s, i + 1, false, line);
    }
}

/// A file gives the empty name exactly when it is made of blank lines and
/// comment lines only.
pub proof fn lemma_empty_name(s: Seq<u8>)
    ensures
        name_in_file(s).len() == 0 <==> only_blank_and_comment_lines(s),
{
    lemma_name_start(s, 0, false);
    if only_blank_and_comment_lines(s) {
        lemma_scan_passes_blank_and_comment_lines(s, 0, false, 0);
    } else {
        let line = choose|i: int| #[trigger] is_line_start(s, i) && !is_blank_or_comment(s, i);
        lemma_after_carriage_returns(s, line);
        lemma_scan_finds_content(s, 0, false, line);
        let start = name_start(s, 0, false);
        lemma_line_end(s, start);
        lemma_content_outlasts_line_end(s.subrange(start, line_end(s, start)));
    }
}

/// A name that starts within `s` starts at the same place when text
/// follows `s`.
proof fn lemma_name_start_of_longer_text(s: Seq<u8>, rest: Seq<u8>, i: int, in_comment: bool)
    requires
        0 <= i <= s.len(),
        name_start(s, i, in_comment) < s.len(),
    ensures
        name_start(s + rest, i, in_comment) == name_start(s, i, in_comment),
    decreases s.len() - i,
{
    let longer = s + rest;
    if i < s.len() {
        assert(longer[i] == s[i]);
        if in_comment {
            lemma_name_start_of_longer_text(s, rest, i + 1, s[i] != LINE_FEED);
        } else if is_line_end(s[i]) {
            lemma_name_start_of_longer_text(s, rest, i + 1, false);
        } else if s[i] == HASH {
            lemma_name_start_of_longer_text(s, rest, i + 1, true);
        }
    }
}

/// A line that ends with the last byte of `s` ends there when text follows
/// `s`.
proof fn lemma_line_end_of_longer_text(s: Seq<u8>, rest: Seq<u8>, i: int)
    requires
        0 <= i < s.len(),
        s.last() == LINE_FEED,
    ensures
        line_end(s + rest, i) == line_end(s, i),
    decreases s.len() - i,
{
    let longer = s + rest;
    assert(longer[i] == s[i]);
    if s[i] != LINE_FEED {
        lemma_line_end_of_longer_text(s, rest, i + 1);
    }
}

/// Where no line feed stands in `s` from `i` on, the line that `i` is in
/// ends where the first line of what follows `s` ends.
proof fn lemma_line_end_of_unended_text(s: Seq<u8>, rest: Seq<u8>, i: int)
    requires
        0 <= i <= s.len(),
        line_end(s, i) == s.len(),
        s.len() > 0 ==> s.last() != LINE_FEED || i == s.len(),
    ensures
        line_end(s + rest, i) == line_end(s + rest, s.len() as int),
    decreases s.len() - i,
{
    let longer = s + rest;
    if i < s.len() {
        assert(longer[i] == s[i]);
        if s[i] == LINE_FEED {
            assert(i + 1 == s.len());
        } else {
            lemma_line_end(s, i + 1);
            lemma_line_end_of_unended_text(s, rest, i + 1);
        }
    }
}

/// A name that starts before index `n` of `s` starts at the same place in
/// the first `n` bytes of `s` alone.
proof fn lemma_name_start_of_shorter_text(s: Seq<u8>, n: int, i: int, in_comment: bool)
    requires
        0 <= i <= n <= s.len(),
        name_start(s, i, in_comment) < n,
    ensures
        name_start(s.subrange(0, n), i, in_comment) == name_start(s, i, in_comment),
    decreases n - i,
{
    let shorter = s.subrange(0, n);
    lemma_name_start(s, i, in_comment);
    if i < n {
        assert(shorter[i] == s[i]);
        if in_comment {
            lemma_name_start_of_shorter_text(s, n, i + 1, s[i] != LINE_FEED);
        } else if is_line_end(s[i]) {
            lemma_name_start_of_shorter_text(s, n, i + 1, false);
        } else if s[i] == HASH {
            lemma_name_start_of_shorter_text(s, n, i + 1, true);
        }
    }
}

/// A line ends at the same place when the text is cut off behind it.
proof fn lemma_line_end_of_shorter_text(s: Seq<u8>, i: int)
    requires
        0 <= i < s.len(),
    ensures
        line_end(s.subrange(0, line_end(s, i)), i) == line_end(s, i),
    decreases s.len() - i,
{
    lemma_line_end(s, i);
    let shorter = s.subrange(0, line_end(s, i));
    assert(shorter[i] == s[i]);
    if s[i] != LINE_FEED {
        if i + 1 < s.len() {
            lemma_line_end_of_shorter_text(s, i + 1);
        }
    }
}

/// Where the line of the name is the last line of `s` and has its line
/// feed, text that follows `s` changes nothing.
proof fn lemma_complete_line(s: Seq<u8>, rest: Seq<u8>)
    requires
        name_start(s, 0, false) < s.len(),
        line_end(s, name_start(s, 0, false)) == s.len(),
        s.last() == LINE_FEED,
    ensures
        name_in_file(s + rest) == name_in_file(s),
{
    let start = name_start(s, 0, false);
    lemma_name_start(s, 0, false);
    lemma_name_start_of_longer_text(s, rest, 0, false);
    lemma_line_end_of_longer_text(s, rest, start);
    assert((s + rest).subrange(start, s.len() as int) =~= s.subrange(start, s.len() as int));
}

/// Whether `s` holds the line of the name in full: a line that is neither
/// blank nor a comment, with its line feed.
pub open spec fn seen_enough(s: Seq<u8>) -> bool {
    let start = name_start(s, 0, false);
    start < s.len() && s[line_end(s, start) - 1] == LINE_FEED
}

/// Only the first line that is neither blank nor a comment counts: once a
/// file holds such a line in full, whatever follows changes nothing.
pub proof fn lemma_later_lines_ignored(s: Seq<u8>, rest: Seq<u8>)
    requires
        seen_enough(s),
    ensures
        name_in_file(s + rest) == name_in_file(s),
{
    let start = name_start(s, 0, false);
    lemma_name_start(s, 0, false);
    lemma_line_end(s, start);
    let end = line_end(s, start);
    let front = s.subrange(0, end);
    let back = s.subrange(end, s.len() as int);
    lemma_name_start_of_shorter_text(s, end, 0, false);
    lemma_line_end_of_shorter_text(s, start);
    assert(front.last() == s[end - 1]);
    assert(front + back =~= s);
    assert(front + (back + rest) =~= s + rest);
    lemma_complete_line(front, back);
    lemma_complete_line(front, back + rest);
}

/// Reads the name out of the contents of a name file.
///
/// Blank lines and lines that start with `#` are passed over. Of the first
/// other line the bytes up to its end are the name; carriage returns and
/// line feeds at its end are dropped. No later line is looked at. A file
/// without such a line gives the empty name.
pub fn parse_domain_name_file(contents: &[u8]) -> (name: Vec<u8>)
    ensures
        name@ == name_in_file(contents@),
{
    let len = contents.len();
    let mut i: usize = 0;
    let mut in_comment = false;
    let mut found = false;
    while i < len && !found
        invariant
            len == contents@.len(),
            i <= len,
            name_start(contents@, 0, false) == name_start(contents@, i as int, in_comment),
            found ==> i < len && !in_comment && !is_line_end(contents@[i as int]) && contents@[i as int]
                != HASH,
        decreases len - i + (if found { 0int } else { 1int }),
    {
        let byte = contents[i];
        if in_comment {
            in_comment = byte != LINE_FEED;
            i += 1;
        } else if byte == CARRIAGE_RETURN || byte == LINE_FEED {
            i += 1;
        } else if byte == HASH {
            in_comment = true;
            i += 1;
        } else {
            found = true;
        }
    }
    let mut name: Vec<u8> = Vec::new();
    if !found {
        return name;
    }
    let start = i;
    let mut end: usize = start;
    let mut at_line_feed = false;
    while end < len && !at_line_feed
        invariant
            len == contents@.len(),
            start <= end <= len,
            line_end(contents@, start as int) == (if at_line_feed {
                end as int
            } else {
                line_end(contents@, end as int)
            }),
        decreases len - end + (if at_line_feed { 0int } else { 1int }),
    {
        at_line_feed = contents[end] == LINE_FEED;
        end += 1;
    }
    let ghost line = contents@.subrange(start as int, end as int);
    while end > start && (contents[end - 1] == CARRIAGE_RETURN || contents[end - 1] == LINE_FEED)
        invariant
            len == contents@.len(),
            start <= end <= len,
            without_line_end(line) == without_line_end(
                contents@.subrange(start as int, end as int),
            ),
        decreases end,
    {
        assert(contents@.subrange(start as int, end as int).drop_last() =~= contents@.subrange(
            start as int,
            end - 1,
        ));
        end -= 1;
    }
    proof {
        let kept = contents@.subrange(start as int, end as int);
        if kept.len() > 0 {
            assert(kept.last() == contents@[end - 1]);
        }
        assert(without_line_end(kept) == kept);
    }
    let mut k: usize = start;
    while k < end
        invariant
            start <= k <= end <= len,
            len == contents@.len(),
            name@ == contents@.subrange(start as int, k as int),
        decreases end - k,
    {
        name.push(contents[k]);
        k += 1;
        assert(name@ =~= contents@.subrange(start as int, k as int));
    }
    name
}

/// A reader of a name file that takes the file byte by byte and says when it
/// has seen enough, so that a caller need not read on.
pub struct NameReader {
    in_comment: bool,
    found: bool,
    done: bool,
    line: Vec<u8>,
    seen: Ghost<Seq<u8>>,
}

impl NameReader {
    /// The bytes that the reader has taken so far.
    pub closed spec fn seen(&self) -> Seq<u8> {
        self.seen@
    }

    /// Whether the reader takes no more bytes.
    pub closed spec fn is_done(&self) -> bool {
        self.done
    }

    /// What the reader knows of the bytes that it has taken: whether the
    /// name has started, and if so where, and that no line feed has followed
    /// it before the last byte.
    #[verifier::type_invariant]
    spec fn well_formed(&self) -> bool {
        let s = self.seen@;
        let start = name_start(s, 0, false);
        if self.found {
            &&& start < s.len()
            &&& line_end(s, start) == s.len()
            &&& self.line@ == s.subrange(start, s.len() as int)
            &&& self.done == (s.last() == LINE_FEED)
            &&& self.done == seen_enough(s)
        } else {
            &&& !self.done
            &&& !seen_enough(s)
            &&& self.line@.len() == 0
            &&& forall|rest: Seq<u8>| #[trigger]
                name_start(s + rest, 0, false) == name_start(
                    s + rest,
                    s.len() as int,
                    self.in_comment,
                )
        }
    }

    /// A reader at the start of a file.
    pub fn new() -> (reader: NameReader)
        ensures
            reader.seen() == Seq::<u8>::empty(),
            !reader.is_done(),
    {
        assert forall|rest: Seq<u8>| #[trigger]
            name_start(Seq::<u8>::empty() + rest, 0, false) == name_start(
                Seq::<u8>::empty() + rest,
                0,
                false,
            ) by {}
        NameReader {
            in_comment: false,
            found: false,
            done: false,
            line: Vec::new(),
            seen: Ghost(Seq::empty()),
        }
    }

    /// Whether the reader has seen enough and takes no more bytes.
    pub fn done(&self) -> (done: bool)
        ensures
            done == self.is_done(),
    {
        self.done
    }

    /// Takes the next byte of the file, unless the reader has seen enough:
    /// it is done as soon as it has taken the line of the name in full.
    pub fn push(self, byte: u8) -> (next: NameReader)
        ensures
            next.seen() == if self.is_done() {
                self.seen()
            } else {
                self.seen().push(byte)
            },
            next.is_done() == seen_enough(next.seen()),
    {
        proof {
            use_type_invariant(&self);
        }
        let ghost before = self.seen@;
        if self.done {
            return self;
        }
        let ghost after = before.push(byte);
        proof {
            assert(before + seq![byte] =~= after);
        }
        let NameReader { in_comment, found, done: _, line, seen: _ } = self;
        let mut line = line;
        if found {
            let done = byte == LINE_FEED;
            proof {
                let start = name_start(before, 0, false);
                lemma_name_start(before, 0, false);
                lemma_name_start_of_longer_text(before, seq![byte], 0, false);
                assert(name_start(after, 0, false) == start);
                lemma_line_end_of_unended_text(before, seq![byte], start);
                assert(after[before.len() as int] == byte);
                assert(line_end(after, before.len() as int) == after.len()) by {
                    reveal_with_fuel(line_end, 2);
                }
                assert(line@.push(byte) =~= after.subrange(start, after.len() as int));
                assert(after.last() == byte);
            }
            line.push(byte);
            NameReader { in_comment, found, done, line, seen: Ghost(after) }
        } else {
            let content = !in_comment && byte != CARRIAGE_RETURN && byte != LINE_FEED && byte
                != HASH;
            proof {
                assert(name_start(after, 0, false) == name_start(
                    after,
                    before.len() as int,
                    in_comment,
                ));
            }
            if content {
                proof {
                    let start = before.len() as int;
                    assert(name_start(after, 0, false) == start);
                    assert(line_end(after, start) == after.len()) by {
                        reveal_with_fuel(line_end, 2);
                    }
                    assert(line@.push(byte) =~= after.subrange(start, after.len() as int));
                }
                line.push(byte);
                NameReader { in_comment, found: true, done: false, line, seen: Ghost(after) }
            } else {
                let next_in_comment = if in_comment {
                    byte != LINE_FEED
                } else {
                    byte == HASH
                };
                assert(name_start(after, 0, false) == after.len()) by {
                    assert(after[before.len() as int] == byte);
                    reveal_with_fuel(name_start, 2);
                }
                assert forall|rest: Seq<u8>| #[trigger]
                    name_start(after + rest, 0, false) == name_start(
                        after + rest,
                        after.len() as int,
                        next_in_comment,
                    ) by {
                    let longer = seq![byte] + rest;
                    assert(before + longer =~= after + rest);
                    assert(name_start(before + longer, 0, false) == name_start(
                        before + longer,
                        before.len() as int,
                        in_comment,
                    ));
                    assert((after + rest)[before.len() as int] == byte);
                }
                NameReader {
                    in_comment: next_in_comment,
                    found: false,
                    done: false,
                    line,
                    seen: Ghost(after),
                }
            }
        }
    }

    /// The name that the bytes taken so far give.
    pub fn finish(self) -> (name: Vec<u8>)
        ensures
            name@ == name_in_file(self.seen()),
    {
        proof {
            use_type_invariant(&self);
        }
        let ghost s = self.seen@;
        let ghost whole = self.line@;
        proof {
            if !self.found {
                assert(s + Seq::<u8>::empty() =~= s);
                assert(name_start(s, 0, false) == name_start(s, s.len() as int, self.in_comment));
            }
        }
        let mut name = self.line;
        while name.len() > 0 && (name[name.len() - 1] == CARRIAGE_RETURN || name[name.len() - 1]
            == LINE_FEED)
            invariant
                without_line_end(name@) == without_line_end(whole),
            decreases name.len(),
        {
            name.pop();
        }
        name
    }
}

/// Reads the name out of the contents of a host name file, which is laid
/// out as a domain name file is.
pub fn parse_host_name_file(contents: &[u8]) -> (name: Vec<u8>)
    ensures
        name@ == name_in_file(contents@),
{
    parse_domain_name_file(contents)
}

} // verus!
