//! Pieces of text.
use vstd::prelude::*;

verus! {

/// The characters of a text.
pub fn chars_of(text: &str) -> (chars: Vec<char>)
    ensures
        chars@ == text@,
{
    let mut chars: Vec<char> = Vec::new();
    for c in iter: text.chars()
        invariant
            chars@ == iter.seq().take(iter.index() as int),
            iter.seq() == text@,
    {
        chars.push(c);
    }
    assert(text@.take(text@.len() as int) =~= text@);
    chars
}

/// The characters of Unicode's `White_Space` property.
pub open spec fn whitespace(c: char) -> bool {
    ||| '\u{9}' <= c <= '\u{d}'
    ||| c == ' '
    ||| c == '\u{85}'
    ||| c == '\u{a0}'
    ||| c == '\u{1680}'
    ||| '\u{2000}' <= c <= '\u{200a}'
    ||| c == '\u{2028}'
    ||| c == '\u{2029}'
    ||| c == '\u{202f}'
    ||| c == '\u{205f}'
    ||| c == '\u{3000}'
}

/// The characters that end a line.
pub open spec fn line_break(c: char) -> bool {
    c == '\n' || c == '\r'
}

/// The text stays on one line, and no carriage return ends it.
pub open spec fn one_line(text: Seq<char>) -> bool {
    &&& forall|i: int| 0 <= i < text.len() ==> #[trigger] text[i] != '\n'
    &&& text.len() > 0 ==> text.last() != '\r'
}

/// A text without the white space that it starts with.
pub open spec fn trim_start(text: Seq<char>) -> Seq<char>
    decreases text.len(),
{
    if text.len() > 0 && whitespace(text[0]) {
        trim_start(text.drop_first())
    } else {
        text
    }
}

/// A text without the white space that it ends with.
pub open spec fn trim_end(text: Seq<char>) -> Seq<char>
    decreases text.len(),
{
    if text.len() > 0 && whitespace(text.last()) {
        trim_end(text.drop_last())
    } else {
        text
    }
}

/// A text without white space around it.
pub open spec fn trimmed(text: Seq<char>) -> Seq<char> {
    trim_end(trim_start(text))
}

/// A line without the line breaks that it ends with.
pub open spec fn trim_breaks(line: Seq<char>) -> Seq<char>
    decreases line.len(),
{
    if line.len() > 0 && line_break(line.last()) {
        trim_breaks(line.drop_last())
    } else {
        line
    }
}

/// The characters that end the host in a URL: a path, a query or a fragment starts there.
pub open spec fn ends_host(c: char) -> bool {
    c == '/' || c == '?' || c == '#'
}

/// The host that a URL without its scheme starts with, and its port where it has one.
pub open spec fn host_of(text: Seq<char>) -> Seq<char>
    decreases text.len(),
{
    if text.len() == 0 || ends_host(text[0]) {
        Seq::empty()
    } else {
        seq![text[0]] + host_of(text.drop_first())
    }
}

/// The host starts the text and holds none of the characters that end it.
pub proof fn lemma_host_of(text: Seq<char>)
    ensures
        host_of(text).len() <= text.len(),
        host_of(text) == text.take(host_of(text).len() as int),
        forall|i: int| 0 <= i < host_of(text).len() ==> !ends_host(#[trigger] host_of(text)[i]),
    decreases text.len(),
{
    if text.len() > 0 && !ends_host(text[0]) {
        lemma_host_of(text.drop_first());
        assert(host_of(text) =~= text.take(host_of(text).len() as int));
    } else {
        assert(host_of(text) =~= text.take(0));
    }
}

/// A text without such a character is all host.
pub proof fn lemma_all_host(text: Seq<char>)
    requires
        forall|i: int| 0 <= i < text.len() ==> !ends_host(#[trigger] text[i]),
    ensures
        host_of(text) == text,
    decreases text.len(),
{
    if text.len() > 0 {
        lemma_all_host(text.drop_first());
        assert(seq![text[0]] + text.drop_first() =~= text);
    }
}

/// Tells whether a character is white space.
pub fn is_whitespace(c: char) -> (white: bool)
    ensures
        white == whitespace(c),
{
    ('\u{9}' <= c && c <= '\u{d}') || c == ' ' || c == '\u{85}' || c == '\u{a0}' || c == '\u{1680}' || (
    '\u{2000}' <= c && c <= '\u{200a}') || c == '\u{2028}' || c == '\u{2029}' || c == '\u{202f}' || c
        == '\u{205f}' || c == '\u{3000}'
}

/// Takes the white space away that stands around a text.
pub fn trim(text: &str) -> (inner: String)
    ensures
        inner@ == trimmed(text@),
{
    let chars = chars_of(text);
    let mut from: usize = 0;
    assert(text@.skip(0) =~= text@);
    while from < chars.len() && is_whitespace(chars[from])
        invariant
            from <= chars@.len(),
            chars@ == text@,
            trim_start(text@) == trim_start(text@.skip(from as int)),
        decreases chars@.len() - from,
    {
        assert(text@.skip(from as int).drop_first() =~= text@.skip(from + 1));
        from += 1;
    }
    assert(trim_start(text@) == text@.skip(from as int));
    let mut to: usize = chars.len();
    assert(text@.subrange(from as int, to as int) =~= text@.skip(from as int));
    while from < to && is_whitespace(chars[to - 1])
        invariant
            from <= to <= chars@.len(),
            chars@ == text@,
            trimmed(text@) == trim_end(text@.subrange(from as int, to as int)),
        decreases to,
    {
        assert(text@.subrange(from as int, to as int).drop_last() =~= text@.subrange(from as int, to - 1));
        to -= 1;
    }
    text.substring_char(from, to).to_owned()
}

/// Takes the line breaks away that a line ends with.
pub fn trim_line(line: &str) -> (inner: String)
    ensures
        inner@ == trim_breaks(line@),
{
    let chars = chars_of(line);
    let mut to: usize = chars.len();
    assert(line@.subrange(0, to as int) =~= line@);
    while 0 < to && (chars[to - 1] == '\n' || chars[to - 1] == '\r')
        invariant
            to <= chars@.len(),
            chars@ == line@,
            trim_breaks(line@) == trim_breaks(line@.subrange(0, to as int)),
        decreases to,
    {
        assert(line@.subrange(0, to as int).drop_last() =~= line@.subrange(0, to - 1));
        to -= 1;
    }
    line.substring_char(0, to).to_owned()
}

/// Tells whether a text starts with another one.
pub fn starts_with(text: &str, prefix: &str) -> (yes: bool)
    ensures
        yes == prefix@.is_prefix_of(text@),
{
    let n = prefix.unicode_len();
    if n > text.unicode_len() {
        return false;
    }
    let head = text.substring_char(0, n);
    same_text(head, prefix)
}

/// The rest of a text that starts with `prefix`.
pub fn strip_prefix(text: &str, prefix: &str) -> (rest: Option<String>)
    ensures
        match rest {
            Some(rest) => prefix@.is_prefix_of(text@) && rest@ == text@.skip(prefix@.len() as int),
            None => !prefix@.is_prefix_of(text@),
        },
{
    if starts_with(text, prefix) {
        let rest = text.substring_char(prefix.unicode_len(), text.unicode_len());
        assert(rest@ =~= text@.skip(prefix@.len() as int));
        Some(rest.to_owned())
    } else {
        None
    }
}

/// The host that a URL without its scheme starts with, and its port where it has one.
pub fn host_part(text: &str) -> (host: String)
    ensures
        host@ == host_of(text@),
{
    let chars = chars_of(text);
    let mut to: usize = 0;
    assert(text@.skip(0) =~= text@);
    assert(text@.take(0) =~= Seq::empty());
    assert(Seq::<char>::empty() + host_of(text@) =~= host_of(text@));
    while to < chars.len() && chars[to] != '/' && chars[to] != '?' && chars[to] != '#'
        invariant
            to <= chars@.len(),
            chars@ == text@,
            host_of(text@) == text@.take(to as int) + host_of(text@.skip(to as int)),
        decreases chars@.len() - to,
    {
        let ghost rest = text@.skip(to as int);
        assert(rest.drop_first() =~= text@.skip(to + 1));
        assert(text@.take(to as int) + (seq![rest[0]] + host_of(rest.drop_first())) =~= text@.take(to + 1)
            + host_of(text@.skip(to + 1)));
        to += 1;
    }
    let host = text.substring_char(0, to);
    assert(host@ =~= host_of(text@));
    host.to_owned()
}

/// Two texts, one after the other.
pub fn join(a: &str, b: &str) -> (text: String)
    ensures
        text@ == a@ + b@,
{
    let mut text: String = a.to_owned();
    text.append(b);
    text
}

/// Tells whether two texts are the same.
pub fn same_text(a: &str, b: &str) -> (same: bool)
    ensures
        same == (a@ == b@),
{
    a.to_owned() == b.to_owned()
}

} // verus!
