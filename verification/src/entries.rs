//! The form of the settings file: one `key = value` entry on a line. Empty
//! lines, lines that start with `#` and lines without `=` hold no entry.

use vstd::prelude::*;
use crate::text;

verus! {

/// One entry of the settings file; neither part has white space at its ends.
pub struct Entry {
    pub key: String,
    pub value: String,
}

impl View for Entry {
    type V = (Seq<char>, Seq<char>);

    open spec fn view(&self) -> (Seq<char>, Seq<char>) {
        (self.key@, self.value@)
    }
}

/// The pieces of a text between its line feeds.
pub open spec fn lines(s: Seq<char>) -> Seq<Seq<char>>
    decreases s.len(),
{
    let n = text::position(s, '\n');
    if 0 <= n < s.len() {
        seq![s.take(n)] + lines(s.skip(n + 1))
    } else {
        seq![s]
    }
}

/// The entry that a line holds, if it holds one: what stands before its first
/// `=`, and what stands after it.
pub open spec fn entry_of(line: Seq<char>) -> Option<(Seq<char>, Seq<char>)> {
    let t = text::trimmed(line);
    let p = text::position(t, '=');
    if t.len() == 0 || t[0] == '#' || p >= t.len() {
        None
    } else {
        Some((text::trimmed(t.take(p)), text::trimmed(t.skip(p + 1))))
    }
}

/// The entries that a row of lines holds, in order.
pub open spec fn entries_of(rows: Seq<Seq<char>>) -> Seq<(Seq<char>, Seq<char>)>
    decreases rows.len(),
{
    if rows.len() == 0 {
        Seq::empty()
    } else {
        let before = entries_of(rows.drop_last());
        match entry_of(rows.last()) {
            Some(e) => before.push(e),
            None => before,
        }
    }
}

/// The entries of a settings file, in order.
pub open spec fn entries(content: Seq<char>) -> Seq<(Seq<char>, Seq<char>)> {
    entries_of(lines(content))
}

/// How a shell reads the next character of a text.
#[derive(Clone, Copy, PartialEq, Eq, Structural, Debug)]
pub enum Quote {
    /// As it stands.
    Bare,
    /// As it stands, behind a backslash.
    Escaped,
    /// As it stands, behind a parenthesis.
    Paren,
    /// As it stands, behind a dollar sign.
    Dollar,
    /// As part of a name in braces.
    Brace,
    /// Inside single quotes.
    Single,
    /// Inside double quotes.
    Double,
    /// Inside double quotes, behind a backslash.
    DoubleEscaped,
    /// Inside double quotes, behind a dollar sign.
    DoubleDollar,
    /// Inside double quotes, as part of a name in braces.
    DoubleBrace,
    /// In a way that depends on more than the quotes before it: behind a
    /// backquote, an arithmetic expression, a parameter expansion of more than a
    /// name, a command substitution inside double quotes, or quotes that not
    /// every shell knows.
    Opaque,
}

/// How the character behind `c` is read, where `c` is not quoted.
pub open spec fn after_bare(c: char) -> Quote {
    match c {
        '\\' => Quote::Escaped,
        '(' => Quote::Paren,
        '$' => Quote::Dollar,
        '\'' => Quote::Single,
        '"' => Quote::Double,
        '`' => Quote::Opaque,
        _ => Quote::Bare,
    }
}

/// How the character behind `c` is read, where `c` is in double quotes.
pub open spec fn after_double(c: char) -> Quote {
    match c {
        '\\' => Quote::DoubleEscaped,
        '$' => Quote::DoubleDollar,
        '"' => Quote::Bare,
        '`' => Quote::Opaque,
        _ => Quote::Double,
    }
}

/// A character that names of parameters are made of.
pub open spec fn in_name(c: char) -> bool {
    'a' <= c <= 'z' || 'A' <= c <= 'Z' || '0' <= c <= '9' || c == '_'
}

/// How the character behind `c` is read, where `c` is part of a name in braces
/// and what follows them is read as `q` says.
pub open spec fn after_brace(c: char, here: Quote, q: Quote) -> Quote {
    if c == '}' {
        q
    } else if in_name(c) {
        here
    } else {
        Quote::Opaque
    }
}

/// How the character behind `c` is read, where `c` is read as `q` says.
pub open spec fn quote_after(q: Quote, c: char) -> Quote {
    match q {
        Quote::Bare => after_bare(c),
        Quote::Escaped => Quote::Bare,
        Quote::Paren => if c == '(' {
            Quote::Opaque
        } else {
            after_bare(c)
        },
        Quote::Dollar => match c {
            '{' => Quote::Brace,
            '[' => Quote::Opaque,
            '\'' => Quote::Opaque,
            _ => after_bare(c),
        },
        Quote::Brace => after_brace(c, Quote::Brace, Quote::Bare),
        Quote::Single => if c == '\'' {
            Quote::Bare
        } else {
            Quote::Single
        },
        Quote::Double => after_double(c),
        Quote::DoubleEscaped => Quote::Double,
        Quote::DoubleDollar => match c {
            '{' => Quote::DoubleBrace,
            '(' => Quote::Opaque,
            '[' => Quote::Opaque,
            _ => after_double(c),
        },
        Quote::DoubleBrace => after_brace(c, Quote::DoubleBrace, Quote::Double),
        Quote::Opaque => Quote::Opaque,
    }
}

/// A character is read as it stands, so that white space separates words.
pub open spec fn separates(q: Quote) -> bool {
    q == Quote::Bare || q == Quote::Paren || q == Quote::Dollar
}

/// White space that separates words in a shell.
pub open spec fn is_blank(c: char) -> bool {
    c == ' ' || c == '\t'
}

/// How the character at `i` is read.
pub open spec fn quote_at(s: Seq<char>, i: int) -> Quote
    decreases i,
{
    if i <= 0 {
        Quote::Bare
    } else {
        quote_after(quote_at(s, i - 1), s[i - 1])
    }
}

/// A comment starts at `i`: there is a `#`, with a space or a tab before it that
/// separates words.
pub open spec fn comment_at(s: Seq<char>, i: int) -> bool {
    &&& i > 0
    &&& s[i] == '#'
    &&& is_blank(s[i - 1])
    &&& separates(quote_at(s, i - 1))
}

/// No comment starts anywhere in a text.
pub open spec fn no_comment(s: Seq<char>) -> bool {
    forall|i: int| 0 <= i < s.len() ==> !#[trigger] comment_at(s, i)
}

/// Where the first comment from `i` on starts, or the length where none does.
pub open spec fn comment_start(s: Seq<char>, i: int) -> int
    decreases s.len() - i,
{
    if i >= s.len() {
        s.len() as int
    } else if comment_at(s, i) {
        i
    } else {
        comment_start(s, i + 1)
    }
}

/// A value without the comment that may follow it on its line.
pub open spec fn uncommented(s: Seq<char>) -> Seq<char> {
    text::trimmed(s.take(comment_start(s, 0)))
}

/// Each entry by its view.
pub open spec fn entry_views(v: Seq<Entry>) -> Seq<(Seq<char>, Seq<char>)> {
    v.map_values(|e: Entry| e@)
}

/// The entry that the line between `from` and `to` holds, if it holds one.
fn parse_line(v: &Vec<char>, from: usize, to: usize) -> (r: Option<Entry>)
    requires
        from <= to <= v@.len(),
    ensures
        match r {
            Some(e) => entry_of(v@.subrange(from as int, to as int)) == Some(e@),
            None => entry_of(v@.subrange(from as int, to as int)) is None,
        },
{
    let (lo, hi): (usize, usize) = text::trim_bounds(v, from, to);
    let ghost t = text::trimmed(v@.subrange(from as int, to as int));
    if lo == hi {
        return None;
    }
    assert(t[0] == v@[lo as int]);
    if v[lo] == '#' {
        return None;
    }
    let p: usize = text::find_char(v, lo, hi, '=');
    if p == hi {
        return None;
    }
    assert(t.take(p - lo) =~= v@.subrange(lo as int, p as int));
    assert(t.skip(p - lo + 1) =~= v@.subrange(p + 1, hi as int));
    let (a, b): (usize, usize) = text::trim_bounds(v, lo, p);
    let (c, d): (usize, usize) = text::trim_bounds(v, p + 1, hi);
    Some(Entry { key: text::string_of(v, a, b), value: text::string_of(v, c, d) })
}

/// Reads the entries of a settings file.
pub fn read_entries(content: &str) -> (r: Vec<Entry>)
    ensures
        entry_views(r@) == entries(content@),
{
    let v: Vec<char> = text::chars_of(content);
    let n: usize = v.len();
    let mut r: Vec<Entry> = Vec::new();
    let mut from: usize = 0;
    let ghost mut seen: Seq<Seq<char>> = Seq::empty();
    let mut more: bool = true;
    assert(v@.subrange(0, n as int) =~= content@);
    assert(seen + lines(content@) =~= lines(content@));
    while more
        invariant
            from <= n == v@.len(),
            v@ == content@,
            entry_views(r@) == entries_of(seen),
            more ==> seen + lines(v@.subrange(from as int, n as int)) == lines(content@),
            !more ==> seen == lines(content@),
        decreases (if more {
            1 + n - from
        } else {
            0
        }),
    {
        let to: usize = text::find_char(&v, from, n, '\n');
        let ghost rest = v@.subrange(from as int, n as int);
        let ghost line = v@.subrange(from as int, to as int);
        let ghost before = r@;
        assert(to < n ==> rest.take(to - from) =~= line);
        assert(to == n ==> rest =~= line);
        match parse_line(&v, from, to) {
            Some(e) => {
                r.push(e);
                assert(entry_views(r@) =~= entry_views(before).push(e@));
            },
            None => {},
        }
        proof {
            let done = seen.push(line);
            assert(done.drop_last() =~= seen);
            if to < n {
                let tail = v@.subrange(to + 1, n as int);
                assert(rest.skip(to - from + 1) =~= tail);
                assert(seen + (seq![line] + lines(tail)) =~= done + lines(tail));
            } else {
                assert(seen + seq![line] =~= done);
            }
            seen = done;
        }
        if to < n {
            from = to + 1;
        } else {
            more = false;
        }
    }
    r
}

/// How the character behind `c` is read, where `c` is not quoted.
fn next_bare(c: char) -> (r: Quote)
    ensures
        r == after_bare(c),
{
    match c {
        '\\' => Quote::Escaped,
        '(' => Quote::Paren,
        '$' => Quote::Dollar,
        '\'' => Quote::Single,
        '"' => Quote::Double,
        '`' => Quote::Opaque,
        _ => Quote::Bare,
    }
}

/// How the character behind `c` is read, where `c` is in double quotes.
fn next_double(c: char) -> (r: Quote)
    ensures
        r == after_double(c),
{
    match c {
        '\\' => Quote::DoubleEscaped,
        '$' => Quote::DoubleDollar,
        '"' => Quote::Bare,
        '`' => Quote::Opaque,
        _ => Quote::Double,
    }
}

/// How the character behind `c` is read, where `c` is part of a name in braces.
fn next_brace(c: char, here: Quote, q: Quote) -> (r: Quote)
    ensures
        r == after_brace(c, here, q),
{
    if c == '}' {
        q
    } else if ('a' <= c && c <= 'z') || ('A' <= c && c <= 'Z') || ('0' <= c && c <= '9') || c
        == '_' {
        here
    } else {
        Quote::Opaque
    }
}

/// How the character behind `c` is read, where `c` is read as `q` says.
fn next_quote(q: Quote, c: char) -> (r: Quote)
    ensures
        r == quote_after(q, c),
{
    match q {
        Quote::Bare => next_bare(c),
        Quote::Escaped => Quote::Bare,
        Quote::Paren => {
            if c == '(' {
                Quote::Opaque
            } else {
                next_bare(c)
            }
        },
        Quote::Dollar => match c {
            '{' => Quote::Brace,
            '[' => Quote::Opaque,
            '\'' => Quote::Opaque,
            _ => next_bare(c),
        },
        Quote::Brace => next_brace(c, Quote::Brace, Quote::Bare),
        Quote::Single => {
            if c == '\'' {
                Quote::Bare
            } else {
                Quote::Single
            }
        },
        Quote::Double => next_double(c),
        Quote::DoubleEscaped => Quote::Double,
        Quote::DoubleDollar => match c {
            '{' => Quote::DoubleBrace,
            '(' => Quote::Opaque,
            '[' => Quote::Opaque,
            _ => next_double(c),
        },
        Quote::DoubleBrace => next_brace(c, Quote::DoubleBrace, Quote::Double),
        Quote::Opaque => Quote::Opaque,
    }
}

/// A value without the comment that may follow it on its line.
pub fn strip_comment(value: &str) -> (r: String)
    ensures
        r@ == uncommented(value@),
{
    let v: Vec<char> = text::chars_of(value);
    let mut i: usize = 0;
    let mut here: Quote = Quote::Bare;
    let mut after_space: bool = false;
    while i < v.len() && !(after_space && v[i] == '#')
        invariant
            0 <= i <= v@.len(),
            comment_start(v@, 0) == comment_start(v@, i as int),
            here == quote_at(v@, i as int),
            after_space == (i > 0 && is_blank(v@[i - 1]) && separates(quote_at(v@, i - 1))),
        decreases v@.len() - i,
    {
        after_space = (v[i] == ' ' || v[i] == '\t') && (here == Quote::Bare || here == Quote::Paren
            || here == Quote::Dollar);
        here = next_quote(here, v[i]);
        i += 1;
    }
    let (lo, hi): (usize, usize) = text::trim_bounds(&v, 0, i);
    assert(v@.subrange(0, i as int) =~= v@.take(i as int));
    text::string_of(&v, lo, hi)
}

/// A text that starts with a line of its own has that line first.
pub proof fn lemma_first_line(line: Seq<char>, rest: Seq<char>)
    requires
        text::one_line(line),
    ensures
        lines(line + seq!['\n'] + rest) == seq![line] + lines(rest),
{
    let s = line + seq!['\n'] + rest;
    text::lemma_position_after(line, '\n', rest);
    assert(s.take(line.len() as int) =~= line);
    assert(s.skip(line.len() as int + 1) =~= rest);
}

/// The entries of two rows of lines are those of the first, then those of the
/// second.
pub proof fn lemma_entries_split(a: Seq<Seq<char>>, b: Seq<Seq<char>>)
    ensures
        entries_of(a + b) == entries_of(a) + entries_of(b),
    decreases b.len(),
{
    if b.len() == 0 {
        assert(a + b =~= a);
        assert(entries_of(a) + entries_of(b) =~= entries_of(a));
    } else {
        lemma_entries_split(a, b.drop_last());
        assert((a + b).drop_last() =~= a + b.drop_last());
        assert((a + b).last() == b.last());
        assert(entries_of(a + b) =~= entries_of(a) + entries_of(b));
    }
}

/// The entry of the first line comes before those of the lines after it.
pub proof fn lemma_entries_cons(line: Seq<char>, rest: Seq<char>)
    requires
        text::one_line(line),
    ensures
        entries(line + seq!['\n'] + rest) == (match entry_of(line) {
            Some(e) => seq![e] + entries(rest),
            None => entries(rest),
        }),
{
    lemma_first_line(line, rest);
    let head = seq![line];
    lemma_entries_split(head, lines(rest));
    assert(head.drop_last() =~= Seq::<Seq<char>>::empty());
    assert(entries_of(head.drop_last()) =~= Seq::empty());
    match entry_of(line) {
        Some(e) => {
            assert(entries_of(head) =~= seq![e]);
        },
        None => {
            assert(entries_of(head) + entries(rest) =~= entries(rest));
        },
    }
}

/// A written entry reads back: the key has no `=`, does not start with `#`,
/// is not empty, and neither part has white space at its ends.
pub proof fn lemma_entry_reads_back(key: Seq<char>, value: Seq<char>)
    requires
        key.len() > 0,
        key[0] != '#',
        text::is_trimmed(key),
        forall|i: int| 0 <= i < key.len() ==> #[trigger] key[i] != '=',
        text::is_trimmed(value),
    ensures
        entry_of(key + seq![' ', '=', ' '] + value) == Some((key, value)),
{
    let line = key + seq![' ', '=', ' '] + value;
    let left = key + seq![' '];
    text::lemma_trim_padded(key);
    text::lemma_trim_padded(value);
    assert(line[0] == key[0]);
    if value.len() > 0 {
        let right = seq![' '] + value;
        assert(line.last() == value.last());
        text::lemma_trim_padded(line);
        assert(line =~= left + seq!['='] + right);
        text::lemma_position_after(left, '=', right);
        assert(line.take(left.len() as int) =~= left);
        assert(line.skip(left.len() as int + 1) =~= right);
    } else {
        let t = left + seq!['='];
        assert(line =~= t + seq![' ']);
        assert(t[0] == key[0]);
        text::lemma_trim_padded(t);
        assert(t =~= left + seq!['='] + value);
        text::lemma_position_after(left, '=', value);
        assert(t.take(left.len() as int) =~= left);
        assert(t.skip(left.len() as int + 1) =~= value);
    }
}

/// Both parts of an entry lie on one line and are trimmed.
pub proof fn lemma_entry_parts(line: Seq<char>)
    requires
        text::one_line(line),
        entry_of(line) is Some,
    ensures
        text::is_trimmed(entry_of(line).unwrap().0),
        text::is_trimmed(entry_of(line).unwrap().1),
        text::one_line(entry_of(line).unwrap().0),
        text::one_line(entry_of(line).unwrap().1),
{
    let t = text::trimmed(line);
    let p = text::position(t, '=');
    text::lemma_trimmed(line);
    text::lemma_position(t, '=');
    text::lemma_trimmed(t.take(p));
    text::lemma_trimmed(t.skip(p + 1));
    lemma_trimmed_one_line(line);
    assert(text::one_line(t.take(p)));
    assert(text::one_line(t.skip(p + 1)));
    lemma_trimmed_one_line(t.take(p));
    lemma_trimmed_one_line(t.skip(p + 1));
}

proof fn lemma_trimmed_one_line(s: Seq<char>)
    requires
        text::one_line(s),
    ensures
        text::one_line(text::trimmed(s)),
{
    text::lemma_trimmed(s);
    let (a, b) = choose|a: int, b: int|
        0 <= a <= b <= s.len() && text::trimmed(s) == #[trigger] s.subrange(a, b);
    let t = text::trimmed(s);
    assert forall|i: int| 0 <= i < t.len() implies #[trigger] t[i] != '\n' by {
        assert(t[i] == s[a + i]);
    }
}

/// No line of a text has a line feed in it.
proof fn lemma_lines_one_line(s: Seq<char>)
    ensures
        forall|i: int| 0 <= i < lines(s).len() ==> text::one_line(#[trigger] lines(s)[i]),
    decreases s.len(),
{
    text::lemma_position(s, '\n');
    let n = text::position(s, '\n');
    if n < s.len() {
        let rest = s.skip(n + 1);
        lemma_lines_one_line(rest);
        assert forall|i: int| 0 <= i < lines(s).len() implies text::one_line(
            #[trigger] lines(s)[i],
        ) by {
            if i == 0 {
                assert(lines(s)[0] == s.take(n));
                assert(text::one_line(s.take(n)));
            } else {
                assert(lines(s)[i] == lines(rest)[i - 1]);
            }
        }
    }
}

/// Both parts of every entry that a settings file can hold lie on one line and
/// have no white space at their ends.
pub proof fn law_entries_are_clean(content: Seq<char>)
    ensures
        forall|i: int|
            0 <= i < entries(content).len() ==> {
                let e = #[trigger] entries(content)[i];
                text::is_trimmed(e.0) && text::one_line(e.0) && text::is_trimmed(e.1)
                    && text::one_line(e.1)
            },
{
    lemma_lines_one_line(content);
    lemma_entries_clean(lines(content));
}

proof fn lemma_entries_clean(rows: Seq<Seq<char>>)
    requires
        forall|i: int| 0 <= i < rows.len() ==> text::one_line(#[trigger] rows[i]),
    ensures
        forall|i: int|
            0 <= i < entries_of(rows).len() ==> {
                let e = #[trigger] entries_of(rows)[i];
                text::is_trimmed(e.0) && text::one_line(e.0) && text::is_trimmed(e.1)
                    && text::one_line(e.1)
            },
    decreases rows.len(),
{
    if rows.len() > 0 {
        let before = entries_of(rows.drop_last());
        lemma_entries_clean(rows.drop_last());
        assert(text::one_line(rows[rows.len() - 1]));
        if entry_of(rows.last()) is Some {
            lemma_entry_parts(rows.last());
        }
        assert forall|i: int| 0 <= i < entries_of(rows).len() implies {
            let e = #[trigger] entries_of(rows)[i];
            text::is_trimmed(e.0) && text::one_line(e.0) && text::is_trimmed(e.1)
                && text::one_line(e.1)
        } by {
            if i < before.len() {
                assert(entries_of(rows)[i] == before[i]);
            }
        }
    }
}

/// How a character is read depends on what stands before it only.
proof fn lemma_quote_prefix(s: Seq<char>, t: Seq<char>, i: int)
    requires
        i <= s.len(),
        i <= t.len(),
        forall|k: int| 0 <= k < i ==> #[trigger] s[k] == t[k],
    ensures
        quote_at(s, i) == quote_at(t, i),
    decreases i,
{
    if i > 0 {
        lemma_quote_prefix(s, t, i - 1);
        assert(s[i - 1] == t[i - 1]);
    }
}

/// Comments start in the front of a text where they start in the text.
proof fn lemma_comment_prefix(s: Seq<char>, n: int)
    requires
        0 <= n <= s.len(),
    ensures
        forall|i: int| 0 <= i < n ==> #[trigger] comment_at(s.take(n), i) == comment_at(s, i),
{
    let t = s.take(n);
    assert forall|i: int| 0 <= i < n implies #[trigger] comment_at(t, i) == comment_at(s, i) by {
        if i > 0 {
            lemma_quote_prefix(t, s, i - 1);
        }
    }
}

/// A comment behind a value makes no difference: where none starts in the value
/// itself and words are separated behind it, spaces or tabs, a `#` and whatever
/// follows it can be put behind it.
pub proof fn law_trailing_comments_are_ignored(
    value: Seq<char>,
    space: Seq<char>,
    comment: Seq<char>,
)
    requires
        text::is_trimmed(value),
        no_comment(value),
        separates(quote_at(value, value.len() as int)),
        space.len() > 0,
        forall|i: int| 0 <= i < space.len() ==> is_blank(#[trigger] space[i]),
    ensures
        uncommented(value + space + seq!['#'] + comment) == value,
{
    let s = value + space + seq!['#'] + comment;
    let m = value.len() as int;
    let n = m + space.len();
    assert(s.take(m) =~= value);
    lemma_comment_prefix(s, m);
    assert forall|i: int| 0 <= i < n implies !#[trigger] comment_at(s, i) by {
        if i < m {
            assert(!comment_at(value, i));
        } else {
            assert(s[i] == space[i - m]);
        }
    }
    lemma_quote_prefix(s, value, m);
    assert forall|i: int| m <= i < n - 1 implies is_blank(#[trigger] s[i]) by {
        assert(s[i] == space[i - m]);
    }
    lemma_quote_in_space(s, m, n - 1);
    assert(s[n - 1] == space[space.len() - 1]);
    assert(comment_at(s, n));
    lemma_comment_start(s, 0, n);
    assert(s.take(n) =~= value + space);
    assert forall|i: int| 0 <= i < space.len() implies text::white_space(#[trigger] space[i]) by {
        assert(is_blank(space[i]));
    }
    lemma_trim_space(value, space);
}

/// Where words are separated, they are so behind spaces and tabs.
proof fn lemma_quote_in_space(s: Seq<char>, from: int, to: int)
    requires
        0 <= from <= to <= s.len(),
        separates(quote_at(s, from)),
        forall|i: int| from <= i < to ==> is_blank(#[trigger] s[i]),
    ensures
        separates(quote_at(s, to)),
    decreases to - from,
{
    if from < to {
        lemma_quote_in_space(s, from, to - 1);
        assert(is_blank(s[to - 1]));
    }
}

/// A value that no comment starts in is kept whole.
pub proof fn lemma_no_comment_kept(value: Seq<char>)
    requires
        text::is_trimmed(value),
        no_comment(value),
    ensures
        uncommented(value) == value,
{
    lemma_no_comment_start(value, 0);
    assert(value.take(value.len() as int) =~= value);
    text::lemma_trim_padded(value);
}

proof fn lemma_no_comment_start(s: Seq<char>, i: int)
    requires
        0 <= i <= s.len(),
        no_comment(s),
    ensures
        comment_start(s, i) == s.len(),
    decreases s.len() - i,
{
    if i < s.len() {
        assert(!comment_at(s, i));
        lemma_no_comment_start(s, i + 1);
    }
}

proof fn lemma_before_comment(s: Seq<char>, i: int)
    requires
        0 <= i <= s.len(),
    ensures
        i <= comment_start(s, i) <= s.len(),
        forall|k: int| i <= k < comment_start(s, i) ==> !#[trigger] comment_at(s, k),
    decreases s.len() - i,
{
    if i < s.len() && !comment_at(s, i) {
        lemma_before_comment(s, i + 1);
    }
}

/// What is left of a value without its comment has no comment, no white space at
/// its ends and no line feed, and is empty only where the value is.
pub proof fn lemma_uncommented(value: Seq<char>)
    requires
        text::is_trimmed(value),
        text::one_line(value),
    ensures
        no_comment(uncommented(value)),
        text::is_trimmed(uncommented(value)),
        text::one_line(uncommented(value)),
        uncommented(value).len() > 0 <==> value.len() > 0,
{
    let k = comment_start(value, 0);
    let front = value.take(k);
    lemma_before_comment(value, 0);
    text::lemma_trimmed(front);
    if value.len() > 0 {
        assert(k > 0) by {
            assert(!comment_at(value, 0));
            lemma_before_comment(value, 1);
        }
        assert(front[0] == value[0]);
        text::lemma_trimmed_head(front);
        text::lemma_trim_end(front);
        let b = choose|b: int|
            0 <= b <= front.len() && text::trim_end(front) == #[trigger] front.subrange(0, b);
        assert(uncommented(value) == front.subrange(0, b));
        assert(front.subrange(0, b) =~= value.take(b));
        lemma_comment_prefix(value, b);
        assert forall|i: int| 0 <= i < b implies !#[trigger] comment_at(value.take(b), i) by {
            assert(!comment_at(value, i));
        }
        assert(text::one_line(value.take(b)));
    } else {
        assert(front =~= value);
    }
}

proof fn lemma_comment_start(s: Seq<char>, i: int, n: int)
    requires
        0 <= i <= n < s.len(),
        comment_at(s, n),
        forall|k: int| i <= k < n ==> !#[trigger] comment_at(s, k),
    ensures
        comment_start(s, i) == n,
    decreases n - i,
{
    if i < n {
        lemma_comment_start(s, i + 1, n);
    }
}

proof fn lemma_trim_space(value: Seq<char>, space: Seq<char>)
    requires
        text::is_trimmed(value),
        forall|i: int| 0 <= i < space.len() ==> text::white_space(#[trigger] space[i]),
    ensures
        text::trimmed(value + space) == value,
    decreases space.len(),
{
    let s = value + space;
    if space.len() == 0 {
        assert(s =~= value);
        text::lemma_trim_padded(value);
    } else if value.len() == 0 {
        let rest = space.drop_first();
        assert forall|i: int| 0 <= i < rest.len() implies text::white_space(
            #[trigger] rest[i],
        ) by {
            assert(rest[i] == space[i + 1]);
        }
        lemma_trim_space(value, rest);
        assert(s[0] == space[0]);
        assert(s.drop_first() =~= value + rest);
    } else {
        lemma_trim_space(value, space.drop_last());
        assert(s[0] == value[0]);
        assert(s.last() == space[space.len() - 1]);
        assert(s.drop_last() =~= value + space.drop_last());
        assert((value + space.drop_last())[0] == value[0]);
    }
}

proof fn lemma_lines_of_joined(a: Seq<char>, b: Seq<char>)
    ensures
        lines(a + seq!['\n'] + b) == lines(a) + lines(b),
    decreases a.len(),
{
    text::lemma_position(a, '\n');
    let n = text::position(a, '\n');
    if n < a.len() {
        let head = a.take(n);
        let rest = a.skip(n + 1);
        let longer = rest + seq!['\n'] + b;
        assert(a + seq!['\n'] + b =~= head + seq!['\n'] + longer);
        lemma_lines_of_joined(rest, b);
        lemma_first_line(head, longer);
        assert(seq![head] + (lines(rest) + lines(b)) =~= seq![head] + lines(rest) + lines(b));
    } else {
        assert(text::one_line(a));
        lemma_first_line(a, b);
    }
}

/// The entries of a file are those of its parts: wherever a line ends, what stands
/// before it and what stands behind it are read for themselves, in order.
pub proof fn law_entries_of_the_parts(a: Seq<char>, b: Seq<char>)
    ensures
        entries(a + seq!['\n'] + b) == entries(a) + entries(b),
{
    lemma_lines_of_joined(a, b);
    lemma_entries_split(lines(a), lines(b));
}

/// A single line holds one entry at most, and a file of that line holds no other.
pub proof fn law_entries_of_a_line(line: Seq<char>)
    requires
        text::one_line(line),
    ensures
        entries(line) == (match entry_of(line) {
            Some(e) => seq![e],
            None => Seq::empty(),
        }),
{
    text::lemma_position(line, '\n');
    assert(lines(line) =~= seq![line]);
    let one = seq![line];
    assert(one.drop_last() =~= Seq::<Seq<char>>::empty());
    assert(entries_of(one.drop_last()) =~= Seq::empty());
    match entry_of(line) {
        Some(e) => {
            assert(entries_of(one) =~= seq![e]);
        },
        None => {},
    }
}

/// An entry is a key, an equals sign and a value; white space before, between and
/// behind them makes no difference, and later equals signs belong to the value.
pub proof fn law_an_entry_in_white_space(
    front: Seq<char>,
    key: Seq<char>,
    left: Seq<char>,
    right: Seq<char>,
    value: Seq<char>,
    back: Seq<char>,
)
    requires
        key.len() > 0,
        key[0] != '#',
        text::is_trimmed(key),
        text::is_trimmed(value),
        forall|i: int| 0 <= i < key.len() ==> #[trigger] key[i] != '=',
        forall|i: int| 0 <= i < front.len() ==> text::white_space(#[trigger] front[i]),
        forall|i: int| 0 <= i < left.len() ==> text::white_space(#[trigger] left[i]),
        forall|i: int| 0 <= i < right.len() ==> text::white_space(#[trigger] right[i]),
        forall|i: int| 0 <= i < back.len() ==> text::white_space(#[trigger] back[i]),
    ensures
        entry_of(front + key + left + seq!['='] + right + value + back) == Some((key, value)),
{
    let none: Seq<char> = Seq::empty();
    let line = front + key + left + seq!['='] + right + value + back;
    let head = key + left;
    assert forall|i: int| 0 <= i < head.len() implies #[trigger] head[i] != '=' by {
        if i < key.len() {
            assert(head[i] == key[i]);
        } else {
            assert(head[i] == left[i - key.len()]);
            assert(text::white_space(left[i - key.len()]));
        }
    }
    text::law_trimming_takes_off_the_ends_only(none, key, left);
    assert(none + key + left =~= head);
    if value.len() > 0 {
        let tail = right + value;
        let t = head + seq!['='] + tail;
        assert(t[0] == key[0]);
        assert(t[t.len() - 1] == value[value.len() - 1]);
        text::law_trimming_takes_off_the_ends_only(front, t, back);
        assert(front + t + back =~= line);
        text::lemma_position_after(head, '=', tail);
        assert(t.take(head.len() as int) =~= head);
        assert(t.skip(head.len() as int + 1) =~= tail);
        text::law_trimming_takes_off_the_ends_only(right, value, none);
        assert(right + value + none =~= tail);
    } else {
        let t = head + seq!['='];
        let rest = right + back;
        assert(t[0] == key[0]);
        assert(t[t.len() - 1] == '=');
        assert forall|i: int| 0 <= i < rest.len() implies text::white_space(#[trigger] rest[i]) by {
            if i < right.len() {
                assert(rest[i] == right[i]);
            } else {
                assert(rest[i] == back[i - right.len()]);
            }
        }
        text::law_trimming_takes_off_the_ends_only(front, t, rest);
        assert(front + t + rest =~= line);
        assert(t =~= head + seq!['='] + none);
        text::lemma_position_after(head, '=', none);
        assert(t.take(head.len() as int) =~= head);
        assert(t.skip(head.len() as int + 1) =~= none);
        assert(value =~= none);
    }
}

/// A line of white space, a line whose first other character is `#`, and a line
/// without an equals sign hold no entry.
pub proof fn law_lines_without_an_entry(front: Seq<char>, rest: Seq<char>)
    requires
        forall|i: int| 0 <= i < front.len() ==> text::white_space(#[trigger] front[i]),
    ensures
        entry_of(front) is None,
        entry_of(front + seq!['#'] + rest) is None,
        (forall|i: int| 0 <= i < rest.len() ==> #[trigger] rest[i] != '=') ==> entry_of(
            rest,
        ) is None,
{
    let none: Seq<char> = Seq::empty();
    text::law_trimming_takes_off_the_ends_only(front, none, none);
    assert(front + none + none =~= front);
    let line = front + seq!['#'] + rest;
    lemma_trim_front(front, seq!['#'] + rest);
    assert(line =~= front + (seq!['#'] + rest));
    if forall|i: int| 0 <= i < rest.len() ==> #[trigger] rest[i] != '=' {
        text::lemma_trimmed(rest);
        let t = text::trimmed(rest);
        let (a, b) = choose|a: int, b: int|
            0 <= a <= b <= rest.len() && t == #[trigger] rest.subrange(a, b);
        text::lemma_position(t, '=');
        let p = text::position(t, '=');
        if p < t.len() {
            assert(t[p] == rest[a + p]);
        }
    }
}

proof fn lemma_trim_front(front: Seq<char>, s: Seq<char>)
    requires
        forall|i: int| 0 <= i < front.len() ==> text::white_space(#[trigger] front[i]),
        s.len() > 0,
        !text::white_space(s[0]),
    ensures
        text::trimmed(front + s).len() > 0,
        text::trimmed(front + s)[0] == s[0],
    decreases front.len(),
{
    if front.len() > 0 {
        let r = front.drop_first();
        assert forall|i: int| 0 <= i < r.len() implies text::white_space(#[trigger] r[i]) by {
            assert(r[i] == front[i + 1]);
        }
        lemma_trim_front(r, s);
        assert(text::white_space(front[0]));
        assert((front + s)[0] == front[0]);
        assert((front + s).drop_first() =~= r + s);
    } else {
        assert(front + s =~= s);
        text::lemma_trimmed_head(s);
    }
}

/// A value in which every `#` stands at the start or behind anything else than a
/// space or a tab is kept whole.
pub proof fn law_a_number_sign_in_a_word_is_kept(value: Seq<char>)
    requires
        text::is_trimmed(value),
        forall|i: int|
            0 < i < value.len() && #[trigger] value[i] == '#' ==> value[i - 1] != ' ' && value[i - 1]
                != '\t',
    ensures
        uncommented(value) == value,
{
    assert forall|i: int| 0 <= i < value.len() implies !#[trigger] comment_at(value, i) by {
        if i > 0 && value[i] == '#' {
            assert(value[i - 1] != ' ' && value[i - 1] != '\t');
        }
    }
    lemma_no_comment_kept(value);
}

/// A character that means nothing to a shell but itself, as far as quoting goes.
pub open spec fn is_ordinary(c: char) -> bool {
    c != '\\' && c != '(' && c != '$' && c != '\'' && c != '"' && c != '`'
}

/// A text of such characters.
pub open spec fn all_ordinary(s: Seq<char>) -> bool {
    forall|i: int| 0 <= i < s.len() ==> is_ordinary(#[trigger] s[i])
}

/// There is no `#` in a text.
pub open spec fn without_number_sign(s: Seq<char>) -> bool {
    forall|i: int| 0 <= i < s.len() ==> #[trigger] s[i] != '#'
}

proof fn lemma_ordinary(s: Seq<char>, from: int, to: int)
    requires
        0 <= from <= to <= s.len(),
        quote_at(s, from) == Quote::Bare,
        forall|i: int| from <= i < to ==> is_ordinary(#[trigger] s[i]),
    ensures
        quote_at(s, to) == Quote::Bare,
    decreases to - from,
{
    if from < to {
        lemma_ordinary(s, from, to - 1);
        assert(is_ordinary(s[to - 1]));
    }
}

/// A run of characters that are all read alike.
proof fn lemma_same_quote(s: Seq<char>, from: int, to: int, q: Quote)
    requires
        0 <= from <= to <= s.len(),
        quote_at(s, from) == q,
        forall|i: int| from <= i < to ==> quote_after(q, #[trigger] s[i]) == q,
    ensures
        forall|i: int| from <= i <= to ==> #[trigger] quote_at(s, i) == q,
    decreases to - from,
{
    if from < to {
        lemma_same_quote(s, from, to - 1, q);
        assert(quote_at(s, to - 1) == q);
        assert(quote_after(q, s[to - 1]) == q);
        assert(quote_at(s, to) == q);
    }
}

/// Behind an ordinary value without a `#`, spaces or tabs, a `#` and whatever
/// follows it are cut.
pub proof fn law_a_comment_behind_an_ordinary_value_is_cut(
    value: Seq<char>,
    space: Seq<char>,
    comment: Seq<char>,
)
    requires
        text::is_trimmed(value),
        all_ordinary(value),
        without_number_sign(value),
        space.len() > 0,
        forall|i: int| 0 <= i < space.len() ==> #[trigger] space[i] == ' ' || space[i] == '\t',
    ensures
        uncommented(value + space + seq!['#'] + comment) == value,
{
    assert forall|i: int| 0 <= i < value.len() implies !#[trigger] comment_at(value, i) by {
        assert(value[i] != '#');
    }
    lemma_ordinary(value, 0, value.len() as int);
    assert forall|i: int| 0 <= i < space.len() implies is_blank(#[trigger] space[i]) by {}
    law_trailing_comments_are_ignored(value, space, comment);
}

/// Single quotes guard what is in them: a `#` there, with anything around it, is
/// no comment, and one behind them is.
pub proof fn law_single_quotes_guard(
    before: Seq<char>,
    inside: Seq<char>,
    space: Seq<char>,
    comment: Seq<char>,
)
    requires
        before.len() > 0,
        text::is_trimmed(before + seq!['\''] + inside + seq!['\'']),
        all_ordinary(before),
        without_number_sign(before),
        forall|i: int| 0 <= i < inside.len() ==> #[trigger] inside[i] != '\'',
        space.len() > 0,
        forall|i: int| 0 <= i < space.len() ==> #[trigger] space[i] == ' ' || space[i] == '\t',
    ensures
        ({
            let value = before + seq!['\''] + inside + seq!['\''];
            &&& uncommented(value) == value
            &&& uncommented(value + space + seq!['#'] + comment) == value
        }),
{
    let value = before + seq!['\''] + inside + seq!['\''];
    let n = before.len() as int;
    let m = n + 1 + inside.len();
    assert forall|i: int| 0 <= i < n implies is_ordinary(#[trigger] value[i]) by {
        assert(value[i] == before[i]);
    }
    lemma_ordinary(value, 0, n);
    assert(value[n] == '\'');
    assert(quote_at(value, n + 1) == Quote::Single);
    assert forall|i: int| n + 1 <= i < m implies quote_after(Quote::Single, #[trigger] value[i])
        == Quote::Single by {
        assert(value[i] == inside[i - n - 1]);
    }
    lemma_same_quote(value, n + 1, m, Quote::Single);
    assert(quote_at(value, m) == Quote::Single);
    assert(value[m] == '\'');
    assert forall|i: int| 0 <= i < value.len() implies !#[trigger] comment_at(value, i) by {
        if i < n {
            assert(value[i] == before[i]);
        } else if i > n + 1 {
            assert(quote_at(value, i - 1) == Quote::Single);
        }
    }
    lemma_no_comment_kept(value);
    assert(quote_at(value, m + 1) == Quote::Bare);
    assert forall|i: int| 0 <= i < space.len() implies is_blank(#[trigger] space[i]) by {}
    law_trailing_comments_are_ignored(value, space, comment);
}

/// Double quotes guard what is in them, where that has no quoting of its own.
pub proof fn law_double_quotes_guard(
    before: Seq<char>,
    inside: Seq<char>,
    space: Seq<char>,
    comment: Seq<char>,
)
    requires
        before.len() > 0,
        text::is_trimmed(before + seq!['"'] + inside + seq!['"']),
        all_ordinary(before),
        without_number_sign(before),
        forall|i: int|
            0 <= i < inside.len() ==> #[trigger] inside[i] != '"' && inside[i] != '\\' && inside[i]
                != '$' && inside[i] != '`',
        space.len() > 0,
        forall|i: int| 0 <= i < space.len() ==> #[trigger] space[i] == ' ' || space[i] == '\t',
    ensures
        ({
            let value = before + seq!['"'] + inside + seq!['"'];
            &&& uncommented(value) == value
            &&& uncommented(value + space + seq!['#'] + comment) == value
        }),
{
    let value = before + seq!['"'] + inside + seq!['"'];
    let n = before.len() as int;
    let m = n + 1 + inside.len();
    assert forall|i: int| 0 <= i < n implies is_ordinary(#[trigger] value[i]) by {
        assert(value[i] == before[i]);
    }
    lemma_ordinary(value, 0, n);
    assert(value[n] == '"');
    assert(quote_at(value, n + 1) == Quote::Double);
    assert forall|i: int| n + 1 <= i < m implies quote_after(Quote::Double, #[trigger] value[i])
        == Quote::Double by {
        assert(value[i] == inside[i - n - 1]);
    }
    lemma_same_quote(value, n + 1, m, Quote::Double);
    assert(quote_at(value, m) == Quote::Double);
    assert(value[m] == '"');
    assert forall|i: int| 0 <= i < value.len() implies !#[trigger] comment_at(value, i) by {
        if i < n {
            assert(value[i] == before[i]);
        } else if i > n + 1 {
            assert(quote_at(value, i - 1) == Quote::Double);
        }
    }
    lemma_no_comment_kept(value);
    assert(quote_at(value, m + 1) == Quote::Bare);
    assert forall|i: int| 0 <= i < space.len() implies is_blank(#[trigger] space[i]) by {}
    law_trailing_comments_are_ignored(value, space, comment);
}

/// What opens a part that is not looked into: a backquote, an arithmetic
/// expression, quotes behind a dollar sign, and inside double quotes a command
/// substitution.
pub open spec fn is_opener(s: Seq<char>) -> bool {
    ||| s == seq!['`']
    ||| s == seq!['"', '`']
    ||| s == seq!['(', '(']
    ||| s == seq!['$', '(', '(']
    ||| s == seq!['$', '[']
    ||| s == seq!['$', '\'']
    ||| s == seq!['"', '$', '(']
    ||| s == seq!['"', '$', '[']
}

/// Behind such an opener a value is kept whole, whatever is in it.
pub proof fn law_nothing_is_cut_behind_an_opener(
    before: Seq<char>,
    opener: Seq<char>,
    rest: Seq<char>,
)
    requires
        all_ordinary(before),
        without_number_sign(before),
        is_opener(opener),
        text::is_trimmed(before + opener + rest),
    ensures
        uncommented(before + opener + rest) == before + opener + rest,
{
    let value = before + opener + rest;
    let n = before.len() as int;
    let m = n + opener.len();
    reveal_with_fuel(quote_at, 4);
    assert forall|i: int| 0 <= i < n implies is_ordinary(#[trigger] value[i]) by {
        assert(value[i] == before[i]);
    }
    lemma_ordinary(value, 0, n);
    assert(value[n] == opener[0]);
    if opener.len() > 1 {
        assert(value[n + 1] == opener[1]);
    }
    if opener.len() > 2 {
        assert(value[n + 2] == opener[2]);
    }
    assert(quote_at(value, n) == Quote::Bare);
    assert(quote_at(value, n + 1) == after_bare(opener[0]));
    assert(quote_at(value, m) == Quote::Opaque);
    assert forall|i: int| m <= i < value.len() implies quote_after(Quote::Opaque, #[trigger] value[i])
        == Quote::Opaque by {}
    lemma_same_quote(value, m, value.len() as int, Quote::Opaque);
    assert forall|i: int| 0 <= i < value.len() implies !#[trigger] comment_at(value, i) by {
        if i < n {
            assert(value[i] == before[i]);
        } else if i < m {
            assert(value[i] == opener[i - n]);
        } else if i > m {
            assert(quote_at(value, i - 1) == Quote::Opaque);
        } else {
            assert(value[i - 1] == opener[opener.len() - 1]);
        }
    }
    lemma_no_comment_kept(value);
}

/// A backslash guards the space behind it, so that a `#` there is no comment.
pub proof fn law_a_backslash_guards_a_space(before: Seq<char>, rest: Seq<char>)
    requires
        all_ordinary(before),
        without_number_sign(before),
        without_number_sign(rest),
        text::is_trimmed(before + seq!['\\', ' ', '#'] + rest),
    ensures
        uncommented(before + seq!['\\', ' ', '#'] + rest) == before + seq!['\\', ' ', '#'] + rest,
{
    let value = before + seq!['\\', ' ', '#'] + rest;
    let n = before.len() as int;
    assert forall|i: int| 0 <= i < n implies is_ordinary(#[trigger] value[i]) by {
        assert(value[i] == before[i]);
    }
    lemma_ordinary(value, 0, n);
    assert(value[n] == '\\');
    assert(quote_at(value, n + 1) == Quote::Escaped);
    assert forall|i: int| 0 <= i < value.len() implies !#[trigger] comment_at(value, i) by {
        if i < n {
            assert(value[i] == before[i]);
        } else if i > n + 2 {
            assert(value[i] == rest[i - n - 3]);
        }
    }
    lemma_no_comment_kept(value);
}

/// The entries of a row are told apart by what they hold.
pub proof fn law_entries_are_what_they_hold(v: Seq<Entry>, i: int)
    requires
        0 <= i < v.len(),
    ensures
        entry_views(v).len() == v.len(),
        entry_views(v)[i] == (v[i].key@, v[i].value@),
{
}

/// A letter, a digit or an underscore.
pub open spec fn is_name_part(c: char) -> bool {
    ||| 'a' <= c && c <= 'z'
    ||| 'A' <= c && c <= 'Z'
    ||| '0' <= c && c <= '9'
    ||| c == '_'
}

/// A text of such characters.
pub open spec fn is_parameter(name: Seq<char>) -> bool {
    forall|i: int| 0 <= i < name.len() ==> is_name_part(#[trigger] name[i])
}

/// A text of spaces and tabs, at least one.
pub open spec fn is_gap(space: Seq<char>) -> bool {
    &&& space.len() > 0
    &&& forall|i: int| 0 <= i < space.len() ==> #[trigger] space[i] == ' ' || space[i] == '\t'
}

/// Characters that mean nothing but themselves in double quotes.
pub open spec fn all_plain_in_quotes(s: Seq<char>) -> bool {
    forall|i: int|
        0 <= i < s.len() ==> #[trigger] s[i] != '"' && s[i] != '\\' && s[i] != '$' && s[i] != '`'
}

proof fn lemma_ordinary_front(before: Seq<char>, rest: Seq<char>)
    requires
        all_ordinary(before),
        without_number_sign(before),
    ensures
        quote_at(before + rest, before.len() as int) == Quote::Bare,
        forall|i: int| 0 <= i < before.len() ==> !#[trigger] comment_at(before + rest, i),
{
    let value = before + rest;
    assert forall|i: int| 0 <= i < before.len() implies is_ordinary(#[trigger] value[i]) by {
        assert(value[i] == before[i]);
    }
    lemma_ordinary(value, 0, before.len() as int);
    assert forall|i: int| 0 <= i < before.len() implies !#[trigger] comment_at(value, i) by {
        assert(value[i] == before[i]);
    }
}

proof fn lemma_whole(value: Seq<char>, space: Seq<char>, comment: Seq<char>)
    requires
        text::is_trimmed(value),
        no_comment(value),
        separates(quote_at(value, value.len() as int)),
        is_gap(space),
    ensures
        uncommented(value) == value,
        uncommented(value + space + seq!['#'] + comment) == value,
{
    lemma_no_comment_kept(value);
    assert forall|i: int| 0 <= i < space.len() implies is_blank(#[trigger] space[i]) by {}
    law_trailing_comments_are_ignored(value, space, comment);
}

/// A parameter in braces is part of a value, and a comment can follow it.
pub proof fn law_a_parameter_in_braces(
    before: Seq<char>,
    name: Seq<char>,
    space: Seq<char>,
    comment: Seq<char>,
)
    requires
        all_ordinary(before),
        without_number_sign(before),
        is_parameter(name),
        text::is_trimmed(before + seq!['$', '{'] + name + seq!['}']),
        is_gap(space),
    ensures
        ({
            let value = before + seq!['$', '{'] + name + seq!['}'];
            &&& uncommented(value) == value
            &&& uncommented(value + space + seq!['#'] + comment) == value
        }),
{
    let value = before + seq!['$', '{'] + name + seq!['}'];
    let n = before.len() as int;
    let m = n + 2 + name.len();
    assert(value =~= before + (seq!['$', '{'] + name + seq!['}']));
    lemma_ordinary_front(before, seq!['$', '{'] + name + seq!['}']);
    assert(value[n] == '$' && value[n + 1] == '{');
    assert(quote_at(value, n + 1) == Quote::Dollar);
    assert(quote_at(value, n + 2) == Quote::Brace);
    assert forall|i: int| n + 2 <= i < m implies quote_after(Quote::Brace, #[trigger] value[i])
        == Quote::Brace by {
        assert(value[i] == name[i - n - 2]);
        assert(is_name_part(name[i - n - 2]));
    }
    lemma_same_quote(value, n + 2, m, Quote::Brace);
    assert(quote_at(value, m) == Quote::Brace);
    assert(value[m] == '}');
    assert(quote_at(value, m + 1) == Quote::Bare);
    assert forall|i: int| 0 <= i < value.len() implies !#[trigger] comment_at(value, i) by {
        if n + 2 <= i < m {
            assert(is_name_part(name[i - n - 2]));
        }
    }
    lemma_whole(value, space, comment);
}

/// So it is in double quotes.
pub proof fn law_a_parameter_in_double_quotes(
    before: Seq<char>,
    name: Seq<char>,
    inside: Seq<char>,
    space: Seq<char>,
    comment: Seq<char>,
)
    requires
        all_ordinary(before),
        without_number_sign(before),
        is_parameter(name),
        all_plain_in_quotes(inside),
        text::is_trimmed(before + seq!['"', '$', '{'] + name + seq!['}'] + inside + seq!['"']),
        is_gap(space),
    ensures
        ({
            let value = before + seq!['"', '$', '{'] + name + seq!['}'] + inside + seq!['"'];
            &&& uncommented(value) == value
            &&& uncommented(value + space + seq!['#'] + comment) == value
        }),
{
    let value = before + seq!['"', '$', '{'] + name + seq!['}'] + inside + seq!['"'];
    let rest = seq!['"', '$', '{'] + name + seq!['}'] + inside + seq!['"'];
    let n = before.len() as int;
    let m = n + 3 + name.len();
    let k = m + 1 + inside.len();
    assert(value =~= before + rest);
    lemma_ordinary_front(before, rest);
    assert(value[n] == '"' && value[n + 1] == '$' && value[n + 2] == '{');
    assert(quote_at(value, n + 1) == Quote::Double);
    assert(quote_at(value, n + 2) == Quote::DoubleDollar);
    assert(quote_at(value, n + 3) == Quote::DoubleBrace);
    assert forall|i: int| n + 3 <= i < m implies quote_after(
        Quote::DoubleBrace,
        #[trigger] value[i],
    ) == Quote::DoubleBrace by {
        assert(value[i] == name[i - n - 3]);
        assert(is_name_part(name[i - n - 3]));
    }
    lemma_same_quote(value, n + 3, m, Quote::DoubleBrace);
    assert(quote_at(value, m) == Quote::DoubleBrace);
    assert(value[m] == '}');
    assert(quote_at(value, m + 1) == Quote::Double);
    assert forall|i: int| m + 1 <= i < k implies quote_after(Quote::Double, #[trigger] value[i])
        == Quote::Double by {
        assert(value[i] == inside[i - m - 1]);
    }
    lemma_same_quote(value, m + 1, k, Quote::Double);
    assert(quote_at(value, k) == Quote::Double);
    assert(value[k] == '"');
    assert(quote_at(value, k + 1) == Quote::Bare);
    assert forall|i: int| 0 <= i < value.len() implies !#[trigger] comment_at(value, i) by {
        if n + 3 <= i < m {
            assert(is_name_part(name[i - n - 3]));
        } else if i > m + 1 {
            assert(quote_at(value, i - 1) == Quote::Double);
        }
    }
    lemma_whole(value, space, comment);
}

/// Where more than a name stands in braces, in double quotes or not, the value is
/// kept whole.
pub proof fn law_more_than_a_parameter_in_braces(
    before: Seq<char>,
    quoted: bool,
    name: Seq<char>,
    c: char,
    rest: Seq<char>,
)
    requires
        all_ordinary(before),
        without_number_sign(before),
        is_parameter(name),
        !is_name_part(c),
        c != '}',
        ({
            let opener = if quoted {
                seq!['"', '$', '{']
            } else {
                seq!['$', '{']
            };
            text::is_trimmed(before + opener + name + seq![c] + rest)
        }),
    ensures
        ({
            let opener = if quoted {
                seq!['"', '$', '{']
            } else {
                seq!['$', '{']
            };
            uncommented(before + opener + name + seq![c] + rest) == before + opener + name
                + seq![c] + rest
        }),
{
    let opener = if quoted {
        seq!['"', '$', '{']
    } else {
        seq!['$', '{']
    };
    let here = if quoted {
        Quote::DoubleBrace
    } else {
        Quote::Brace
    };
    let value = before + opener + name + seq![c] + rest;
    let n = before.len() as int;
    let b = n + opener.len();
    let m = b + name.len();
    assert(value =~= before + (opener + name + seq![c] + rest));
    lemma_ordinary_front(before, opener + name + seq![c] + rest);
    assert(value[n] == opener[0] && value[n + 1] == opener[1]);
    if quoted {
        assert(value[n + 2] == '{');
        assert(quote_at(value, n + 1) == Quote::Double);
        assert(quote_at(value, n + 2) == Quote::DoubleDollar);
    } else {
        assert(quote_at(value, n + 1) == Quote::Dollar);
    }
    assert(quote_at(value, b) == here);
    assert forall|i: int| b <= i < m implies quote_after(here, #[trigger] value[i]) == here by {
        assert(value[i] == name[i - b]);
        assert(is_name_part(name[i - b]));
    }
    lemma_same_quote(value, b, m, here);
    assert(quote_at(value, m) == here);
    assert(value[m] == c);
    assert(quote_at(value, m + 1) == Quote::Opaque);
    assert forall|i: int| m + 1 <= i < value.len() implies quote_after(
        Quote::Opaque,
        #[trigger] value[i],
    ) == Quote::Opaque by {}
    lemma_same_quote(value, m + 1, value.len() as int, Quote::Opaque);
    assert forall|i: int| 0 <= i < value.len() implies !#[trigger] comment_at(value, i) by {
        if n <= i < b {
            assert(value[i] == opener[i - n]);
        } else if b <= i <= m && i > 0 {
            if i > b {
                assert(quote_at(value, i - 1) == here);
            } else {
                assert(value[i - 1] == '{');
            }
        } else if i == m + 1 {
            assert(quote_at(value, i - 1) == here);
        } else if i > m + 1 {
            assert(quote_at(value, i - 1) == Quote::Opaque);
        }
    }
    lemma_no_comment_kept(value);
}

/// In double quotes a backslash takes what it stands before for itself, a quote
/// too, and the quotes go on behind it.
pub proof fn law_a_backslash_in_double_quotes(
    before: Seq<char>,
    first: Seq<char>,
    c: char,
    second: Seq<char>,
    space: Seq<char>,
    comment: Seq<char>,
)
    requires
        all_ordinary(before),
        without_number_sign(before),
        all_plain_in_quotes(first),
        all_plain_in_quotes(second),
        text::is_trimmed(before + seq!['"'] + first + seq!['\\', c] + second + seq!['"']),
        is_gap(space),
    ensures
        ({
            let value = before + seq!['"'] + first + seq!['\\', c] + second + seq!['"'];
            &&& uncommented(value) == value
            &&& uncommented(value + space + seq!['#'] + comment) == value
        }),
{
    let value = before + seq!['"'] + first + seq!['\\', c] + second + seq!['"'];
    let rest = seq!['"'] + first + seq!['\\', c] + second + seq!['"'];
    let n = before.len() as int;
    let m = n + 1 + first.len();
    let k = m + 2 + second.len();
    assert(value =~= before + rest);
    lemma_ordinary_front(before, rest);
    assert(value[n] == '"');
    assert(quote_at(value, n + 1) == Quote::Double);
    assert forall|i: int| n + 1 <= i < m implies quote_after(Quote::Double, #[trigger] value[i])
        == Quote::Double by {
        assert(value[i] == first[i - n - 1]);
    }
    lemma_same_quote(value, n + 1, m, Quote::Double);
    assert(quote_at(value, m) == Quote::Double);
    assert(value[m] == '\\' && value[m + 1] == c);
    assert(quote_at(value, m + 1) == Quote::DoubleEscaped);
    assert(quote_at(value, m + 2) == Quote::Double);
    assert forall|i: int| m + 2 <= i < k implies quote_after(Quote::Double, #[trigger] value[i])
        == Quote::Double by {
        assert(value[i] == second[i - m - 2]);
    }
    lemma_same_quote(value, m + 2, k, Quote::Double);
    assert(quote_at(value, k) == Quote::Double);
    assert(value[k] == '"');
    assert(quote_at(value, k + 1) == Quote::Bare);
    assert forall|i: int| 0 <= i < value.len() implies !#[trigger] comment_at(value, i) by {
        if n + 1 < i <= m {
            assert(quote_at(value, i - 1) == Quote::Double);
        } else if i == m + 2 {
            assert(quote_at(value, i - 1) == Quote::DoubleEscaped);
        } else if i > m + 2 {
            assert(quote_at(value, i - 1) == Quote::Double);
        }
    }
    lemma_whole(value, space, comment);
}

/// Outside of quotes a backslash takes what it stands before for itself, a quote
/// too, and nothing more.
pub proof fn law_a_backslash_takes_one_character(
    before: Seq<char>,
    c: char,
    rest: Seq<char>,
    space: Seq<char>,
    comment: Seq<char>,
)
    requires
        all_ordinary(before),
        without_number_sign(before),
        all_ordinary(rest),
        without_number_sign(rest),
        text::is_trimmed(before + seq!['\\', c] + rest),
        is_gap(space),
    ensures
        ({
            let value = before + seq!['\\', c] + rest;
            &&& uncommented(value) == value
            &&& uncommented(value + space + seq!['#'] + comment) == value
        }),
{
    let value = before + seq!['\\', c] + rest;
    let n = before.len() as int;
    assert(value =~= before + (seq!['\\', c] + rest));
    lemma_ordinary_front(before, seq!['\\', c] + rest);
    assert(value[n] == '\\' && value[n + 1] == c);
    assert(quote_at(value, n + 1) == Quote::Escaped);
    assert(quote_at(value, n + 2) == Quote::Bare);
    assert forall|i: int| n + 2 <= i < value.len() implies is_ordinary(#[trigger] value[i]) by {
        assert(value[i] == rest[i - n - 2]);
    }
    lemma_ordinary(value, n + 2, value.len() as int);
    assert forall|i: int| 0 <= i < value.len() implies !#[trigger] comment_at(value, i) by {
        if i >= n + 2 {
            assert(value[i] == rest[i - n - 2]);
        }
    }
    lemma_whole(value, space, comment);
}

/// A parenthesis or a dollar sign that opens nothing more changes nothing for a
/// comment behind it, in double quotes or not.
pub proof fn law_a_plain_parenthesis_or_dollar_sign(
    before: Seq<char>,
    sign: char,
    rest: Seq<char>,
    space: Seq<char>,
    comment: Seq<char>,
)
    requires
        all_ordinary(before),
        without_number_sign(before),
        sign == '(' || sign == '$',
        all_ordinary(rest),
        without_number_sign(rest),
        sign == '$' && rest.len() > 0 ==> rest[0] != '{' && rest[0] != '[',
        text::is_trimmed(before + seq![sign] + rest),
        is_gap(space),
    ensures
        ({
            let value = before + seq![sign] + rest;
            &&& uncommented(value) == value
            &&& uncommented(value + space + seq!['#'] + comment) == value
        }),
        ({
            let value = before + seq!['"', sign] + rest + seq!['"'];
            &&& uncommented(value) == value
            &&& uncommented(value + space + seq!['#'] + comment) == value
        }),
{
    let n = before.len() as int;
    let value = before + seq![sign] + rest;
    assert(value =~= before + (seq![sign] + rest));
    lemma_ordinary_front(before, seq![sign] + rest);
    assert(value[n] == sign);
    assert(quote_at(value, n + 1) == after_bare(sign));
    assert forall|i: int| n + 1 <= i < value.len() implies is_ordinary(#[trigger] value[i])
        && value[i] != '#' by {
        assert(value[i] == rest[i - n - 1]);
    }
    if rest.len() > 0 {
        assert(value[n + 1] == rest[0]);
        assert(quote_at(value, n + 2) == Quote::Bare);
        lemma_ordinary(value, n + 2, value.len() as int);
    }
    assert forall|i: int| 0 <= i < value.len() implies !#[trigger] comment_at(value, i) by {}
    lemma_whole(value, space, comment);
    let quoted = before + seq!['"', sign] + rest + seq!['"'];
    let m = n + 2 + rest.len();
    assert(quoted =~= before + (seq!['"', sign] + rest + seq!['"']));
    lemma_ordinary_front(before, seq!['"', sign] + rest + seq!['"']);
    assert(quoted[n] == '"' && quoted[n + 1] == sign && quoted[m] == '"');
    assert(quote_at(quoted, n + 1) == Quote::Double);
    assert(quote_at(quoted, n + 2) == after_double(sign));
    assert forall|i: int| n + 2 <= i < m implies is_ordinary(#[trigger] quoted[i]) && quoted[i]
        != '#' by {
        assert(quoted[i] == rest[i - n - 2]);
    }
    if rest.len() > 0 {
        assert(quoted[n + 2] == rest[0]);
        assert(quote_at(quoted, n + 3) == Quote::Double);
        assert forall|i: int| n + 3 <= i < m implies quote_after(
            Quote::Double,
            #[trigger] quoted[i],
        ) == Quote::Double by {}
        lemma_same_quote(quoted, n + 3, m, Quote::Double);
        assert(quote_at(quoted, m) == Quote::Double);
    }
    assert(quote_at(quoted, m + 1) == Quote::Bare);
    assert forall|i: int| 0 <= i < quoted.len() implies !#[trigger] comment_at(quoted, i) by {}
    assert(n > 0 ==> quoted[0] == value[0]);
    assert(text::is_trimmed(quoted));
    lemma_whole(quoted, space, comment);
}

} // verus!
