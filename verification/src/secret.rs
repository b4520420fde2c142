//! The grammar of one secret definition: `KEY=VALUE`, where the value may be
//! wrapped in double quotes and followed by a `# comment`.
use vstd::prelude::*;
use vstd::slice::*;
use vstd::string::*;
use crate::text::{
    find_char,
    is_space,
    leading_space,
    lemma_trimmed,
    lemma_trimmed_padding,
    to_chars,
    trim_bounds,
    trimmed,
    without_leading_space,
};

verus! {

/// One secret: the key it is stored under and the value to store.
#[derive(Debug)]
pub struct SecretEntry {
    pub key: String,
    pub value: String,
}

/// Whether position `i` of `s` lies inside a double-quoted span: an odd number
/// of `"` stands before it.
pub open spec fn quoted_at(s: Seq<char>, i: int) -> bool
    decreases i,
{
    if i <= 0 {
        false
    } else {
        quoted_at(s, i - 1) != (s[i - 1] == '"')
    }
}

/// Whether a comment begins at position `i` of `s`: a `#` outside quotes.
pub open spec fn starts_comment(s: Seq<char>, i: int) -> bool {
    0 <= i < s.len() && s[i] == '#' && !quoted_at(s, i)
}

/// The first position at or after `i` where a comment begins, or the length
/// of `s` if there is none.
pub open spec fn comment_from(s: Seq<char>, i: int) -> int
    decreases s.len() - i,
{
    if i < 0 || i >= s.len() {
        s.len() as int
    } else if starts_comment(s, i) {
        i
    } else {
        comment_from(s, i + 1)
    }
}

/// Where the comment of `s` begins, or the length of `s` if it has none.
pub open spec fn comment_start(s: Seq<char>) -> int {
    comment_from(s, 0)
}

/// `s` without one pair of double quotes that wraps it, if it has one.
pub open spec fn unquoted(s: Seq<char>) -> Seq<char> {
    if s.len() >= 2 && s.first() == '"' && s.last() == '"' {
        s.subrange(1, s.len() - 1)
    } else {
        s
    }
}

/// The value that the text after the first `=` stands for: the comment is cut
/// off, the remainder is trimmed, and one wrapping pair of quotes is removed.
pub open spec fn value_of(rest: Seq<char>) -> Seq<char> {
    unquoted(trimmed(rest.take(comment_start(rest))))
}

/// The key and value that `line` defines, or `None` where it defines none:
/// it holds no `=`, or nothing stands before its first `=`. The key is
/// everything before the first `=`, taken verbatim, and is never empty.
pub open spec fn secret_of(line: Seq<char>) -> Option<(Seq<char>, Seq<char>)> {
    match line.index_of_first('=') {
        Some(i) if i > 0 => Some((line.take(i), value_of(line.skip(i + 1)))),
        _ => None,
    }
}

/// Whether `line` is passed over when a source is read: it is empty, or its
/// first character that is not whitespace is `#`.
pub open spec fn is_skipped(line: Seq<char>) -> bool {
    line.len() == 0 || (without_leading_space(line).len() > 0 && without_leading_space(
        line,
    ).first() == '#')
}

/// Finds where the comment of `s` begins.
pub fn find_comment(s: &[char]) -> (r: usize)
    ensures
        r == comment_start(s@),
{
    let mut quoted = false;
    let mut i: usize = 0;
    while i < s.len()
        invariant
            i <= s@.len(),
            quoted == quoted_at(s@, i as int),
            comment_start(s@) == comment_from(s@, i as int),
        decreases s@.len() - i,
    {
        let c = s[i];
        if c == '#' && !quoted {
            return i;
        }
        if c == '"' {
            quoted = !quoted;
        }
        i += 1;
    }
    i
}

/// Parses one secret definition.
pub fn parse_secret(line: &str) -> (r: Option<SecretEntry>)
    ensures
        match r {
            Some(e) => secret_of(line@) == Some((e.key@, e.value@)),
            None => secret_of(line@) is None,
        },
{
    let chars = to_chars(line);
    let n = chars.len();
    let eq = match find_char(chars.as_slice(), '=') {
        Some(i) if i > 0 => i,
        _ => {
            return None;
        },
    };
    let rest = slice_subrange(chars.as_slice(), eq + 1, n);
    let cut = find_comment(rest);
    proof {
        lemma_comment_from(rest@, 0);
    }
    let body = slice_subrange(rest, 0, cut);
    let (a, b) = trim_bounds(body);
    let wrapped = b - a >= 2 && body[a] == '"' && body[b - 1] == '"';
    let from = if wrapped { a + 1 } else { a };
    let to = if wrapped { b - 1 } else { b };
    assert(body@.subrange(from as int, to as int) == value_of(rest@));
    let key = line.substring_char(0, eq).to_owned();
    let value = line.substring_char(eq + 1 + from, eq + 1 + to).to_owned();
    Some(SecretEntry { key, value })
}

/// Decides whether a line of a source is passed over.
pub fn is_skipped_line(line: &str) -> (b: bool)
    ensures
        b == is_skipped(line@),
{
    let chars = to_chars(line);
    let a = leading_space(chars.as_slice());
    chars.len() == 0 || (a < chars.len() && chars[a] == '#')
}

/// `comment_from(s, i)` is the least position from `i` on where a comment
/// begins, or the length of `s`.
pub proof fn lemma_comment_from(s: Seq<char>, i: int)
    requires
        0 <= i <= s.len(),
    ensures
        i <= comment_from(s, i) <= s.len(),
        comment_from(s, i) < s.len() ==> starts_comment(s, comment_from(s, i)),
        forall|j: int| i <= j < comment_from(s, i) ==> !starts_comment(s, j),
    decreases s.len() - i,
{
    if i < s.len() && !starts_comment(s, i) {
        lemma_comment_from(s, i + 1);
    }
}

/// A position that begins a comment, with none before it, is where the
/// comment begins; and where no position begins one, the whole text stays.
pub proof fn lemma_comment_start_is(s: Seq<char>, c: int)
    requires
        0 <= c <= s.len(),
        forall|j: int| 0 <= j < c ==> !starts_comment(s, j),
        c < s.len() ==> starts_comment(s, c),
    ensures
        comment_start(s) == c,
{
    lemma_comment_from(s, 0);
}

/// Whether a position lies inside quotes depends on the text before it alone.
pub proof fn lemma_quoted_by_prefix(s: Seq<char>, t: Seq<char>, i: int)
    requires
        0 <= i <= s.len(),
        i <= t.len(),
        s.take(i) == t.take(i),
    ensures
        quoted_at(s, i) == quoted_at(t, i),
    decreases i,
{
    if i > 0 {
        assert(s.take(i - 1) == s.take(i).take(i - 1));
        assert(t.take(i - 1) == t.take(i).take(i - 1));
        lemma_quoted_by_prefix(s, t, i - 1);
        assert(t[i - 1] == t.take(i)[i - 1]);
    }
}

/// Before the first `"` of a text no position lies inside quotes.
pub proof fn lemma_unquoted_prefix(s: Seq<char>, i: int)
    requires
        0 <= i <= s.len(),
        forall|j: int| 0 <= j < i ==> s[j] != '"',
    ensures
        !quoted_at(s, i),
    decreases i,
{
    if i > 0 {
        lemma_unquoted_prefix(s, i - 1);
    }
}

/// After a `"` at `open` that no `"` precedes, every position up to and
/// including the next `"` lies inside quotes.
proof fn lemma_quoted_between(s: Seq<char>, open: int, i: int)
    requires
        0 <= open < i <= s.len(),
        s[open] == '"',
        forall|j: int| 0 <= j < open ==> s[j] != '"',
        forall|j: int| open < j < i ==> s[j] != '"',
    ensures
        quoted_at(s, i),
    decreases i,
{
    if i > open + 1 {
        lemma_quoted_between(s, open, i - 1);
    } else {
        lemma_unquoted_prefix(s, open);
    }
}

/// Behind a `"` at `close` that ends a quoted span, no position lies inside
/// quotes until the next `"`.
proof fn lemma_unquoted_behind(s: Seq<char>, close: int, i: int)
    requires
        0 <= close < i <= s.len(),
        s[close] == '"',
        quoted_at(s, close),
        forall|j: int| close < j < i ==> s[j] != '"',
    ensures
        !quoted_at(s, i),
    decreases i,
{
    if i > close + 1 {
        lemma_unquoted_behind(s, close, i - 1);
    }
}

/// A line defines a secret exactly if it holds a `=` and does not begin with
/// it: a line without `=` defines nothing. What a line defines has a key that
/// is not empty.
pub proof fn lemma_defines_secret(line: Seq<char>)
    ensures
        secret_of(line) is Some <==> line.contains('=') && line.first() != '=',
        secret_of(line) matches Some((key, _)) ==> key.len() > 0,
{
    line.index_of_first_ensures('=');
}

/// A definition is split at its first `=`: a key without `=` is taken
/// verbatim, and whatever follows the `=`, further `=` included, is the text
/// of the value.
pub proof fn lemma_split_at_first_equals(key: Seq<char>, rest: Seq<char>)
    requires
        key.len() > 0,
        !key.contains('='),
    ensures
        secret_of(key + seq!['='] + rest) == Some((key, value_of(rest))),
{
    let line = key + seq!['='] + rest;
    line.index_of_first_ensures('=');
    assert(line[key.len() as int] == '=');
    let i = line.index_of_first('=').unwrap();
    assert(line.skip(i + 1) == rest);
}

/// A text without `#` holds no comment: it stands for itself, trimmed, and
/// without the pair of quotes that wraps it, if there is one.
pub proof fn lemma_uncommented_value(rest: Seq<char>)
    requires
        !rest.contains('#'),
    ensures
        comment_start(rest) == rest.len(),
        value_of(rest) == unquoted(trimmed(rest)),
{
    lemma_comment_start_is(rest, rest.len() as int);
    assert(rest.take(rest.len() as int) == rest);
}

/// A text without `#` and without `"` holds no comment and no open quote,
/// and stands for itself, trimmed.
pub proof fn lemma_plain_value(rest: Seq<char>)
    requires
        !rest.contains('#'),
        !rest.contains('"'),
    ensures
        comment_start(rest) == rest.len(),
        !quoted_at(rest, rest.len() as int),
        value_of(rest) == trimmed(rest),
{
    lemma_uncommented_value(rest);
    lemma_unquoted_prefix(rest, rest.len() as int);
    lemma_trimmed(rest);
}

/// A value wrapped in double quotes stands for what is between the quotes,
/// verbatim: a `#` between them begins no comment, and whitespace between
/// them stays. Whitespace around the quotes is dropped. Such a text holds no
/// comment and no open quote.
pub proof fn lemma_quoted_value(before: Seq<char>, inner: Seq<char>, after: Seq<char>)
    requires
        !inner.contains('"'),
        forall|j: int| 0 <= j < before.len() ==> is_space(#[trigger] before[j]),
        forall|j: int| 0 <= j < after.len() ==> is_space(#[trigger] after[j]),
    ensures
        comment_start(before + seq!['"'] + inner + seq!['"'] + after) == (before + seq!['"'] + inner
            + seq!['"'] + after).len(),
        !quoted_at(
            before + seq!['"'] + inner + seq!['"'] + after,
            (before + seq!['"'] + inner + seq!['"'] + after).len() as int,
        ),
        value_of(before + seq!['"'] + inner + seq!['"'] + after) == inner,
{
    let wrapped = seq!['"'] + inner + seq!['"'];
    let rest = before + seq!['"'] + inner + seq!['"'] + after;
    let open = before.len() as int;
    let close = open + inner.len() + 1;
    assert(rest == before + wrapped + after);
    assert forall|j: int| 0 <= j < rest.len() && j != open && j != close implies rest[j]
        != '"' by {}
    lemma_quoted_between(rest, open, close);
    lemma_unquoted_behind(rest, close, rest.len() as int);
    assert forall|j: int| 0 <= j < rest.len() implies !starts_comment(rest, j) by {
        if open < j < close {
            lemma_quoted_between(rest, open, j);
        }
    }
    lemma_comment_start_is(rest, rest.len() as int);
    assert(rest.take(rest.len() as int) == rest);
    lemma_trimmed_padding(before, wrapped, after);
}

/// A `#` outside quotes begins a comment: behind a text that holds no comment
/// and no open quote, the `#` and all that follows it changes nothing of the
/// value.
pub proof fn lemma_comment_cut(body: Seq<char>, note: Seq<char>)
    requires
        comment_start(body) == body.len(),
        !quoted_at(body, body.len() as int),
    ensures
        value_of(body + seq!['#'] + note) == value_of(body),
{
    let rest = body + seq!['#'] + note;
    let c = body.len() as int;
    lemma_comment_from(body, 0);
    assert forall|j: int| 0 <= j < c implies !starts_comment(rest, j) by {
        assert(!starts_comment(body, j));
        assert(rest.take(j) == body.take(j));
        lemma_quoted_by_prefix(rest, body, j);
    }
    assert(rest.take(c) == body.take(c));
    lemma_quoted_by_prefix(rest, body, c);
    lemma_comment_start_is(rest, c);
}

/// A definition `K=V` whose value holds no `#` yields the key `K` and the
/// value `V`, trimmed: exactly so where no pair of quotes wraps the trimmed
/// value, as where it holds no `"` at all, and without that pair otherwise.
pub proof fn lemma_plain_definition(key: Seq<char>, value: Seq<char>)
    requires
        key.len() > 0,
        !key.contains('='),
        !value.contains('#'),
    ensures
        secret_of(key + seq!['='] + value) == Some((key, unquoted(trimmed(value)))),
        !value.contains('"') ==> secret_of(key + seq!['='] + value) == Some((key, trimmed(value))),
{
    lemma_split_at_first_equals(key, value);
    lemma_uncommented_value(value);
    if !value.contains('"') {
        lemma_plain_value(value);
    }
}

/// A definition `K="V"` yields the key `K` and the value `V`, without the
/// quotes, whatever `V` holds but `"`: a `#` in it is part of the value.
pub proof fn lemma_quoted_definition(key: Seq<char>, value: Seq<char>)
    requires
        key.len() > 0,
        !key.contains('='),
        !value.contains('"'),
    ensures
        secret_of(key + seq!['='] + (seq!['"'] + value + seq!['"'])) == Some((key, value)),
{
    let none = Seq::<char>::empty();
    lemma_quoted_value(none, value, none);
    lemma_split_at_first_equals(key, seq!['"'] + value + seq!['"']);
}

/// A definition `K=V # note` yields the key `K` and the value `V`, trimmed:
/// the comment goes, and the whitespace before it.
pub proof fn lemma_commented_definition(key: Seq<char>, value: Seq<char>, note: Seq<char>)
    requires
        key.len() > 0,
        !key.contains('='),
        !value.contains('#'),
        !value.contains('"'),
    ensures
        secret_of(key + seq!['='] + (value + seq!['#'] + note)) == Some((key, trimmed(value))),
{
    lemma_plain_value(value);
    lemma_comment_cut(value, note);
    lemma_split_at_first_equals(key, value + seq!['#'] + note);
}

/// A definition `K="V" # note` yields the key `K` and the value `V`: the
/// comment goes, the quotes go, and a `#` between the quotes stays.
pub proof fn lemma_quoted_commented_definition(
    key: Seq<char>,
    value: Seq<char>,
    gap: Seq<char>,
    note: Seq<char>,
)
    requires
        key.len() > 0,
        !key.contains('='),
        !value.contains('"'),
        forall|j: int| 0 <= j < gap.len() ==> is_space(#[trigger] gap[j]),
    ensures
        secret_of(key + seq!['='] + (seq!['"'] + value + seq!['"'] + gap + seq!['#'] + note))
            == Some((key, value)),
{
    let none = Seq::<char>::empty();
    let body = seq!['"'] + value + seq!['"'] + gap;
    lemma_quoted_value(none, value, gap);
    lemma_comment_cut(body, note);
    lemma_split_at_first_equals(key, body + seq!['#'] + note);
}

} // verus!
