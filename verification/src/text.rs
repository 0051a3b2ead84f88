//! Character sequences: searching, splitting, and moving between `String`
//! and `Vec<char>`.
//!
//! Contracts in the rest of the crate speak of text as `Seq<char>`; the
//! functions here are the executable counterparts of the few operations on
//! such sequences that the parsers need.

use vstd::prelude::*;
use vstd::utf8::{decode_utf8, is_ascii_chars, valid_utf8};

verus! {

/// `pattern` stands in `text` at position `at`.
pub open spec fn occurs_at(text: Seq<char>, pattern: Seq<char>, at: int) -> bool {
    &&& 0 <= at
    &&& at + pattern.len() <= text.len()
    &&& text.subrange(at, at + pattern.len()) == pattern
}

/// Whether `pattern` stands anywhere in `text`.
pub open spec fn contains(text: Seq<char>, pattern: Seq<char>) -> bool {
    exists|at: int| occurs_at(text, pattern, at)
}

/// The least position at or after `from` where `pattern` stands in `text`.
pub open spec fn find_from(text: Seq<char>, pattern: Seq<char>, from: int) -> Option<int>
    decreases text.len() - from + 1,
{
    if from < 0 || from + pattern.len() > text.len() {
        None
    } else if occurs_at(text, pattern, from) {
        Some(from)
    } else {
        find_from(text, pattern, from + 1)
    }
}

/// The least position where `pattern` stands in `text`.
pub open spec fn find(text: Seq<char>, pattern: Seq<char>) -> Option<int> {
    find_from(text, pattern, 0)
}

/// `find_from` returns the least occurrence at or after `from`, and `None`
/// exactly when there is none.
pub proof fn lemma_find_from(text: Seq<char>, pattern: Seq<char>, from: int)
    requires
        0 <= from,
    ensures
        match find_from(text, pattern, from) {
            Some(i) => {
                &&& from <= i
                &&& occurs_at(text, pattern, i)
                &&& forall|j: int| from <= j < i ==> !occurs_at(text, pattern, j)
            },
            None => forall|j: int| from <= j ==> !occurs_at(text, pattern, j),
        },
    decreases text.len() - from + 1,
{
    if from + pattern.len() > text.len() {
    } else if occurs_at(text, pattern, from) {
    } else {
        lemma_find_from(text, pattern, from + 1);
    }
}

/// A position that carries an occurrence, with none before it, is what
/// `find` returns.
pub proof fn lemma_find_is(text: Seq<char>, pattern: Seq<char>, at: int)
    requires
        occurs_at(text, pattern, at),
        forall|j: int| 0 <= j < at ==> !occurs_at(text, pattern, j),
    ensures
        find(text, pattern) == Some(at),
{
    lemma_find_from(text, pattern, 0);
}

/// Without an occurrence `find` returns `None`.
pub proof fn lemma_find_none(text: Seq<char>, pattern: Seq<char>)
    requires
        forall|j: int| 0 <= j ==> !occurs_at(text, pattern, j),
    ensures
        find(text, pattern) is None,
{
    lemma_find_from(text, pattern, 0);
}

/// The pieces of `text` between the occurrences of `pattern`, taken from the
/// left without overlap. A text without an occurrence is its own single
/// piece, as is any text when the pattern is empty.
pub open spec fn split(text: Seq<char>, pattern: Seq<char>) -> Seq<Seq<char>>
    decreases text.len(),
{
    if pattern.len() == 0 {
        seq![text]
    } else {
        match find(text, pattern) {
            None => seq![text],
            Some(at) => {
                proof {
                    lemma_find_from(text, pattern, 0);
                }
                seq![text.take(at)] + split(text.skip(at + pattern.len()), pattern)
            },
        }
    }
}

/// An occurrence in a suffix is an occurrence in the whole text, shifted.
pub proof fn lemma_occurs_in_suffix(text: Seq<char>, pattern: Seq<char>, start: int, at: int)
    requires
        0 <= start <= text.len(),
        0 <= at,
    ensures
        occurs_at(text.skip(start), pattern, at) == occurs_at(text, pattern, start + at),
{
    if at + pattern.len() <= text.len() - start {
        assert(text.skip(start).subrange(at, at + pattern.len()) =~= text.subrange(
            start + at,
            start + at + pattern.len(),
        ));
    }
}

/// Splitting a text that begins with a piece free of the pattern, followed
/// by the pattern: the piece comes first, then the pieces of the rest.
pub proof fn lemma_split_first(head: Seq<char>, pattern: Seq<char>, rest: Seq<char>)
    requires
        pattern.len() > 0,
        forall|j: int| 0 <= j < head.len() ==> !occurs_at(head + pattern + rest, pattern, j),
    ensures
        split(head + pattern + rest, pattern) == seq![head] + split(rest, pattern),
{
    let text = head + pattern + rest;
    let at = head.len() as int;
    let end = at + pattern.len();
    assert(text.subrange(at, end) =~= pattern);
    lemma_find_is(text, pattern, at);
    assert(text.take(at) =~= head);
    assert(text.skip(end) =~= rest);
}

/// Splitting a text free of the pattern gives the text itself.
pub proof fn lemma_split_single(text: Seq<char>, pattern: Seq<char>)
    requires
        !contains(text, pattern),
    ensures
        split(text, pattern) == seq![text],
{
    if pattern.len() > 0 {
        lemma_find_none(text, pattern);
    }
}

/// The views of a vector of character vectors.
pub open spec fn views(pieces: Seq<Vec<char>>) -> Seq<Seq<char>> {
    pieces.map_values(|piece: Vec<char>| piece@)
}

/// The characters of a string slice.
pub fn to_chars(s: &str) -> (chars: Vec<char>)
    ensures
        chars@ == s@,
{
    let mut chars: Vec<char> = Vec::new();
    for c in it: s.chars()
        invariant
            it.seq() == s@,
            chars@ == it.seq().take(it.index() as int),
    {
        chars.push(c);
    }
    chars
}

/// `String::push`: the string afterwards is the string before with `ch` at
/// its end.
pub assume_specification[ String::push ](s: &mut String, ch: char)
    ensures
        final(s)@ == old(s)@.push(ch),
;

/// The string made of the characters `chars[from..to]`.
pub fn to_string(chars: &Vec<char>, from: usize, to: usize) -> (s: String)
    requires
        from <= to <= chars.len(),
    ensures
        s@ == chars@.subrange(from as int, to as int),
{
    let mut s = String::new();
    let mut i: usize = from;
    while i < to
        invariant
            from <= i <= to <= chars.len(),
            s@ == chars@.subrange(from as int, i as int),
        decreases to - i,
    {
        s.push(chars[i]);
        i = i + 1;
        assert(chars@.subrange(from as int, i as int) =~= chars@.subrange(
            from as int,
            i - 1 as int,
        ).push(chars@[i - 1]));
    }
    s
}

/// A copy of `chars[from..to]`.
pub fn slice(chars: &Vec<char>, from: usize, to: usize) -> (piece: Vec<char>)
    requires
        from <= to <= chars.len(),
    ensures
        piece@ == chars@.subrange(from as int, to as int),
{
    let mut piece: Vec<char> = Vec::new();
    let mut i: usize = from;
    while i < to
        invariant
            from <= i <= to <= chars.len(),
            piece@ == chars@.subrange(from as int, i as int),
        decreases to - i,
    {
        piece.push(chars[i]);
        i = i + 1;
        assert(chars@.subrange(from as int, i as int) =~= chars@.subrange(
            from as int,
            i - 1 as int,
        ).push(chars@[i - 1]));
    }
    piece
}

/// Whether `pattern` stands in `text` at position `at`.
pub fn occurs(text: &Vec<char>, pattern: &Vec<char>, at: usize) -> (found: bool)
    ensures
        found == occurs_at(text@, pattern@, at as int),
{
    if at > text.len() || pattern.len() > text.len() - at {
        return false;
    }
    let mut k: usize = 0;
    while k < pattern.len()
        invariant
            k <= pattern.len(),
            at + pattern.len() <= text.len(),
            forall|j: int| 0 <= j < k ==> text@[at + j] == pattern@[j],
        decreases pattern.len() - k,
    {
        if text[at + k] != pattern[k] {
            proof {
                let found = text@.subrange(at as int, at + pattern.len());
                assert(found[k as int] != pattern@[k as int]);
            }
            return false;
        }
        k = k + 1;
    }
    assert(text@.subrange(at as int, at + pattern.len()) =~= pattern@);
    true
}

/// The pieces of `text` between the occurrences of `pattern`.
pub fn split_chars(text: &Vec<char>, pattern: &Vec<char>) -> (pieces: Vec<Vec<char>>)
    ensures
        views(pieces@) == split(text@, pattern@),
{
    let mut pieces: Vec<Vec<char>> = Vec::new();
    if pattern.len() == 0 || pattern.len() > text.len() {
        pieces.push(slice(text, 0, text.len()));
        proof {
            assert(text@.subrange(0, text@.len() as int) =~= text@);
            if pattern.len() > 0 {
                lemma_find_none(text@, pattern@);
            }
            assert(views(pieces@) =~= seq![text@]);
        }
        return pieces;
    }
    let last: usize = text.len() - pattern.len();
    let mut start: usize = 0;
    let mut at: usize = 0;
    proof {
        assert(text@.skip(0) =~= text@);
        assert(views(pieces@) =~= Seq::<Seq<char>>::empty());
    }
    while at <= last
        invariant
            pattern.len() > 0,
            last == text.len() - pattern.len(),
            start <= at <= text.len(),
            split(text@, pattern@) == views(pieces@) + split(text@.skip(start as int), pattern@),
            forall|j: int| start <= j < at ==> !occurs_at(text@, pattern@, j),
        decreases text.len() - at,
    {
        if occurs(text, pattern, at) {
            let piece = slice(text, start, at);
            proof {
                let rest = text@.skip(start as int);
                assert forall|j: int| 0 <= j < at - start implies !occurs_at(
                    rest,
                    pattern@,
                    j,
                ) by {
                    lemma_occurs_in_suffix(text@, pattern@, start as int, j);
                }
                lemma_occurs_in_suffix(text@, pattern@, start as int, at - start);
                lemma_find_is(rest, pattern@, at - start);
                assert(rest.take(at - start) =~= text@.subrange(start as int, at as int));
                assert(rest.skip(at - start + pattern.len()) =~= text@.skip(at + pattern.len()));
                assert(views(pieces@.push(piece)) =~= views(pieces@) + seq![piece@]);
            }
            pieces.push(piece);
            at = at + pattern.len();
            start = at;
        } else {
            at = at + 1;
        }
    }
    let piece = slice(text, start, text.len());
    proof {
        let rest = text@.skip(start as int);
        assert forall|j: int| 0 <= j implies !occurs_at(rest, pattern@, j) by {
            lemma_occurs_in_suffix(text@, pattern@, start as int, j);
        }
        lemma_find_none(rest, pattern@);
        assert(rest =~= text@.subrange(start as int, text@.len() as int));
        assert(views(pieces@.push(piece)) =~= views(pieces@) + seq![piece@]);
    }
    pieces.push(piece);
    pieces
}

/// Splitting never gives an empty list of pieces.
pub proof fn lemma_split_nonempty(text: Seq<char>, pattern: Seq<char>)
    ensures
        split(text, pattern).len() >= 1,
{
}

/// No character of `text` is `c`.
pub open spec fn free_of(text: Seq<char>, c: char) -> bool {
    forall|i: int| 0 <= i < text.len() ==> #[trigger] text[i] != c
}

/// No occurrence of `pattern` begins inside `line` when the pattern follows it.
pub open spec fn splits_cleanly(line: Seq<char>, pattern: Seq<char>) -> bool {
    forall|j: int| 0 <= j < line.len() ==> !occurs_at(line + pattern, pattern, j)
}

/// The lines with `separator` between each two neighbours.
pub open spec fn join(lines: Seq<Seq<char>>, separator: Seq<char>) -> Seq<char>
    decreases lines.len(),
{
    if lines.len() == 0 {
        Seq::empty()
    } else if lines.len() == 1 {
        lines[0]
    } else {
        lines[0] + separator + join(lines.skip(1), separator)
    }
}

/// A line without the first character of the pattern keeps every occurrence
/// of the pattern out.
pub proof fn lemma_free_splits_cleanly(line: Seq<char>, pattern: Seq<char>)
    requires
        pattern.len() > 0,
        free_of(line, pattern[0]),
    ensures
        splits_cleanly(line, pattern),
        !contains(line, pattern),
{
    assert forall|j: int| 0 <= j < line.len() implies !occurs_at(line + pattern, pattern, j) by {
        if occurs_at(line + pattern, pattern, j) {
            let found = (line + pattern).subrange(j, j + pattern.len());
            assert(found[0] == pattern[0]);
            assert(found[0] == line[j]);
        }
    }
    assert forall|j: int| !occurs_at(line, pattern, j) by {
        if occurs_at(line, pattern, j) {
            let found = line.subrange(j, j + pattern.len());
            assert(found[0] == pattern[0]);
            assert(found[0] == line[j]);
        }
    }
}

/// A line that does not hold a pattern of two different characters keeps
/// every occurrence of the pattern out, also where the pattern follows it.
pub proof fn lemma_absent_splits_cleanly(line: Seq<char>, pattern: Seq<char>)
    requires
        pattern.len() == 2,
        pattern[0] != pattern[1],
        !contains(line, pattern),
    ensures
        splits_cleanly(line, pattern),
{
    assert forall|j: int| 0 <= j < line.len() implies !occurs_at(line + pattern, pattern, j) by {
        if occurs_at(line + pattern, pattern, j) {
            let found = (line + pattern).subrange(j, j + 2);
            assert(found[0] == pattern[0] && found[1] == pattern[1]);
            if j + 2 <= line.len() {
                assert(line.subrange(j, j + 2) =~= found);
                assert(occurs_at(line, pattern, j));
            } else {
                assert(found[1] == (line + pattern)[j + 1]);
                assert((line + pattern)[j + 1] == pattern[0]);
            }
        }
    }
}

/// Splitting undoes joining: lines that keep the separator out come back as
/// they were.
pub proof fn lemma_split_join(lines: Seq<Seq<char>>, separator: Seq<char>)
    requires
        separator.len() > 0,
        lines.len() >= 1,
        forall|i: int| 0 <= i < lines.len() - 1 ==> splits_cleanly(#[trigger] lines[i], separator),
        !contains(lines.last(), separator),
    ensures
        split(join(lines, separator), separator) == lines,
    decreases lines.len(),
{
    if lines.len() == 1 {
        lemma_split_single(lines[0], separator);
        assert(seq![lines[0]] =~= lines);
    } else {
        let head = lines[0];
        let rest = lines.skip(1);
        assert forall|i: int| 0 <= i < rest.len() - 1 implies splits_cleanly(
            #[trigger] rest[i],
            separator,
        ) by {
            assert(rest[i] == lines[i + 1]);
        }
        assert(rest.last() == lines.last());
        lemma_split_join(rest, separator);
        let tail = join(rest, separator);
        assert(splits_cleanly(lines[0], separator));
        assert forall|j: int| 0 <= j < head.len() implies !occurs_at(
            head + separator + tail,
            separator,
            j,
        ) by {
            assert(!occurs_at(head + separator, separator, j));
            assert((head + separator + tail).subrange(j, j + separator.len()) =~= (head
                + separator).subrange(j, j + separator.len()));
        }
        lemma_split_first(head, separator, tail);
        assert(seq![head] + rest =~= lines);
    }
}

/// The ASCII capital of a small ASCII letter; any other character itself.
pub open spec fn ascii_upper(c: char) -> char {
    if 97 <= c as int <= 122 {
        (c as int - 32) as char
    } else {
        c
    }
}

/// The text with each small ASCII letter replaced by its capital.
pub open spec fn ascii_uppercase(text: Seq<char>) -> Seq<char> {
    text.map_values(|c: char| ascii_upper(c))
}

/// The uppercase form that Unicode gives a text which is not plain ASCII.
pub uninterp spec fn unicode_uppercase(text: Seq<char>) -> Seq<char>;

/// The uppercase form of a text.
pub open spec fn uppercase(text: Seq<char>) -> Seq<char> {
    if is_ascii_chars(text) {
        ascii_uppercase(text)
    } else {
        unicode_uppercase(text)
    }
}

/// What a lossy reading makes of bytes that are not valid UTF-8.
pub uninterp spec fn lossy_text(bytes: Seq<u8>) -> Seq<char>;

/// The text that bytes stand for when every invalid sequence among them is
/// read as the replacement character.
pub open spec fn decoded(bytes: Seq<u8>) -> Seq<char> {
    if valid_utf8(bytes) {
        decode_utf8(bytes)
    } else {
        lossy_text(bytes)
    }
}

/// `str::to_uppercase`: the uppercase form of `s` as Unicode defines it. For
/// a text of ASCII characters alone that is the text with `a` to `z` replaced
/// by `A` to `Z`; for any other text the contract only names the result.
#[verifier::external_body]
pub(crate) fn to_uppercase(s: &str) -> (upper: String)
    ensures
        is_ascii_chars(s@) ==> upper@ == ascii_uppercase(s@),
        !is_ascii_chars(s@) ==> upper@ == unicode_uppercase(s@),
{
    s.to_uppercase()
}

/// `String::from_utf8_lossy`: the text of `bytes`, with each invalid sequence
/// replaced by U+FFFD. Valid UTF-8 is decoded as it stands; for other bytes
/// the contract only names the result.
#[verifier::external_body]
pub(crate) fn decode_lossy(bytes: &[u8]) -> (text: String)
    ensures
        valid_utf8(bytes@) ==> text@ == decode_utf8(bytes@),
        !valid_utf8(bytes@) ==> text@ == lossy_text(bytes@),
{
    String::from_utf8_lossy(bytes).into_owned()
}

/// `std::str::from_utf8`: the text of `bytes` where they are valid UTF-8,
/// nothing where they are not.
#[verifier::external_body]
pub(crate) fn decode_strict(bytes: &[u8]) -> (text: Option<String>)
    ensures
        match text {
            Some(s) => valid_utf8(bytes@) && s@ == decode_utf8(bytes@),
            None => !valid_utf8(bytes@),
        },
{
    std::str::from_utf8(bytes).ok().map(|s| s.to_string())
}

} // verus!
