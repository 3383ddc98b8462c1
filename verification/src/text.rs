//! Strings as sequences of characters: white space, trimming, searching and
//! letter case, each with its exact meaning.

use vstd::prelude::*;

verus! {

/// `String::push` of the standard library: the character becomes the last one
/// of the string, and what was there before stays as it was.
pub assume_specification[ String::push ](s: &mut String, c: char)
    ensures
        final(s)@ == old(s)@.push(c),
;

/// `String::pop` of the standard library: the last character is taken off and
/// handed back; an empty string stays empty and gives `None`.
pub assume_specification[ String::pop ](s: &mut String) -> (c: Option<char>)
    ensures
        old(s)@.len() == 0 ==> c is None && final(s)@ == old(s)@,
        old(s)@.len() > 0 ==> c == Some(old(s)@.last()) && final(s)@ == old(s)@.drop_last(),
;

/// The code points that Unicode gives the `White_Space` property.
pub open spec fn white_space(c: char) -> bool {
    ||| 0x09 <= c as u32 <= 0x0d
    ||| c as u32 == 0x20
    ||| c as u32 == 0x85
    ||| c as u32 == 0xa0
    ||| c as u32 == 0x1680
    ||| 0x2000 <= c as u32 <= 0x200a
    ||| c as u32 == 0x2028
    ||| c as u32 == 0x2029
    ||| c as u32 == 0x202f
    ||| c as u32 == 0x205f
    ||| c as u32 == 0x3000
}

/// Leaves out the white space at the front.
pub open spec fn trim_start(s: Seq<char>) -> Seq<char>
    decreases s.len(),
{
    if s.len() > 0 && white_space(s[0]) {
        trim_start(s.drop_first())
    } else {
        s
    }
}

/// Leaves out the white space at the end.
pub open spec fn trim_end(s: Seq<char>) -> Seq<char>
    decreases s.len(),
{
    if s.len() > 0 && white_space(s.last()) {
        trim_end(s.drop_last())
    } else {
        s
    }
}

/// Leaves out the white space at both ends.
pub open spec fn trimmed(s: Seq<char>) -> Seq<char> {
    trim_end(trim_start(s))
}

/// There is no white space at either end.
pub open spec fn is_trimmed(s: Seq<char>) -> bool {
    s.len() > 0 ==> !white_space(s[0]) && !white_space(s.last())
}

/// The index of the first `c`, or the length where there is none.
pub open spec fn position(s: Seq<char>, c: char) -> int
    decreases s.len(),
{
    if s.len() == 0 || s[0] == c {
        0
    } else {
        1 + position(s.drop_first(), c)
    }
}

/// A text begins with another one.
pub open spec fn starts_with(s: Seq<char>, head: Seq<char>) -> bool {
    head.len() <= s.len() && s.take(head.len() as int) == head
}

/// A text of one line: it has no line feed.
pub open spec fn one_line(s: Seq<char>) -> bool {
    forall|i: int| 0 <= i < s.len() ==> #[trigger] s[i] != '\n'
}

/// The upper-case form of an ASCII letter; every other character is itself.
pub open spec fn ascii_upper(c: char) -> char {
    if 'a' <= c <= 'z' {
        (c as u32 - 0x20) as char
    } else {
        c
    }
}

/// The lower-case form of an ASCII letter; every other character is itself.
pub open spec fn ascii_lower(c: char) -> char {
    if 'A' <= c <= 'Z' {
        (c as u32 + 0x20) as char
    } else {
        c
    }
}

/// A text with its ASCII letters in lower case.
pub open spec fn lowered(s: Seq<char>) -> Seq<char> {
    Seq::new(s.len(), |i: int| ascii_lower(s[i]))
}

/// A result of strings by the texts that it holds.
pub open spec fn outcome(r: Result<String, String>) -> Result<Seq<char>, Seq<char>> {
    match r {
        Ok(s) => Ok(s@),
        Err(e) => Err(e@),
    }
}

/// An optional string by the text that it holds.
pub open spec fn maybe(o: Option<String>) -> Option<Seq<char>> {
    match o {
        Some(s) => Some(s@),
        None => None,
    }
}

/// A row of strings by the texts that they hold.
pub open spec fn texts(v: Seq<String>) -> Seq<Seq<char>> {
    v.map_values(|s: String| s@)
}

/// Tells whether a character is white space.
pub fn is_white_space(c: char) -> (r: bool)
    ensures
        r == white_space(c),
{
    let n: u32 = c as u32;
    (0x09 <= n && n <= 0x0d) || n == 0x20 || n == 0x85 || n == 0xa0 || n == 0x1680 || (0x2000 <= n
        && n <= 0x200a) || n == 0x2028 || n == 0x2029 || n == 0x202f || n == 0x205f || n == 0x3000
}

/// The characters of a string, in order.
pub fn chars_of(s: &str) -> (v: Vec<char>)
    ensures
        v@ == s@,
{
    let mut v: Vec<char> = Vec::new();
    for c in it: s.chars()
        invariant
            v@ == s@.take(it.index()),
            it.seq() == s@,
    {
        v.push(c);
        assert(s@.take(it.index() + 1) =~= s@.take(it.index()).push(c));
    }
    assert(s@.take(s@.len() as int) =~= s@);
    v
}

/// The string of the characters from `from` up to, and without, `to`.
pub fn string_of(v: &Vec<char>, from: usize, to: usize) -> (s: String)
    requires
        from <= to <= v@.len(),
    ensures
        s@ == v@.subrange(from as int, to as int),
{
    let mut s: String = String::new();
    let mut i: usize = from;
    while i < to
        invariant
            from <= i <= to <= v@.len(),
            s@ == v@.subrange(from as int, i as int),
        decreases to - i,
    {
        s.push(v[i]);
        assert(v@.subrange(from as int, i + 1) =~= v@.subrange(from as int, i as int).push(
            v@[i as int],
        ));
        i += 1;
    }
    s
}

/// Where the text between `from` and `to` begins and ends once it is trimmed.
pub(crate) fn trim_bounds(v: &Vec<char>, from: usize, to: usize) -> (r: (usize, usize))
    requires
        from <= to <= v@.len(),
    ensures
        from <= r.0 <= r.1 <= to,
        v@.subrange(r.0 as int, r.1 as int) == trimmed(v@.subrange(from as int, to as int)),
{
    let mut lo: usize = from;
    while lo < to && is_white_space(v[lo])
        invariant
            from <= lo <= to <= v@.len(),
            trim_start(v@.subrange(from as int, to as int)) == trim_start(
                v@.subrange(lo as int, to as int),
            ),
        decreases to - lo,
    {
        assert(v@.subrange(lo as int, to as int).drop_first() =~= v@.subrange(lo + 1, to as int));
        lo += 1;
    }
    assert(trim_start(v@.subrange(from as int, to as int)) == v@.subrange(lo as int, to as int));
    let mut hi: usize = to;
    while lo < hi && is_white_space(v[hi - 1])
        invariant
            from <= lo <= hi <= to <= v@.len(),
            trim_end(v@.subrange(lo as int, to as int)) == trim_end(
                v@.subrange(lo as int, hi as int),
            ),
        decreases hi - lo,
    {
        assert(v@.subrange(lo as int, hi as int).drop_last() =~= v@.subrange(lo as int, hi - 1));
        hi -= 1;
    }
    (lo, hi)
}

/// The text without the white space at its ends.
pub fn trim(s: &str) -> (r: String)
    ensures
        r@ == trimmed(s@),
{
    let v: Vec<char> = chars_of(s);
    let n: usize = v.len();
    let (lo, hi): (usize, usize) = trim_bounds(&v, 0, n);
    assert(v@.subrange(0, n as int) =~= s@);
    string_of(&v, lo, hi)
}

/// The index of the first `c` between `from` and `to`, or `to`.
pub(crate) fn find_char(v: &Vec<char>, from: usize, to: usize, c: char) -> (r: usize)
    requires
        from <= to <= v@.len(),
    ensures
        from <= r <= to,
        r - from == position(v@.subrange(from as int, to as int), c),
        r < to ==> v@[r as int] == c,
{
    let mut i: usize = from;
    while i < to && v[i] != c
        invariant
            from <= i <= to <= v@.len(),
            position(v@.subrange(from as int, to as int), c) == (i - from) + position(
                v@.subrange(i as int, to as int),
                c,
            ),
        decreases to - i,
    {
        assert(v@.subrange(i as int, to as int).drop_first() =~= v@.subrange(i + 1, to as int));
        i += 1;
    }
    i
}

/// One text, then another.
pub(crate) fn join(a: &str, b: &str) -> (r: String)
    ensures
        r@ == a@ + b@,
{
    let mut r: String = a.to_owned();
    r.append(b);
    r
}

/// One text, then two others.
pub(crate) fn join3(a: &str, b: &str, c: &str) -> (r: String)
    ensures
        r@ == a@ + b@ + c@,
{
    let mut r: String = a.to_owned();
    r.append(b);
    r.append(c);
    r
}

/// Adds a string to the end of a row.
pub(crate) fn add_text(v: &mut Vec<String>, s: String)
    ensures
        texts(final(v)@) == texts(old(v)@).push(s@),
{
    v.push(s);
    assert(texts(v@) =~= texts(old(v)@).push(s@));
}

/// Tells whether two texts are the same.
pub(crate) fn same_text(a: &String, b: &str) -> (r: bool)
    ensures
        r == (a@ == b@),
{
    *a == b.to_owned()
}

/// Tells whether a text begins with another one.
pub(crate) fn has_prefix(s: &str, head: &str) -> (r: bool)
    ensures
        r == starts_with(s@, head@),
{
    let v: Vec<char> = chars_of(s);
    let h: Vec<char> = chars_of(head);
    let n: usize = h.len();
    if v.len() < n {
        return false;
    }
    let mut i: usize = 0;
    while i < n
        invariant
            i <= n == h@.len(),
            n <= v@.len(),
            v@ == s@,
            h@ == head@,
            forall|k: int| 0 <= k < i ==> #[trigger] v@[k] == h@[k],
        decreases n - i,
    {
        if v[i] != h[i] {
            assert(s@.take(n as int)[i as int] != head@[i as int]);
            return false;
        }
        i += 1;
    }
    assert(s@.take(n as int) =~= head@);
    true
}

/// The upper-case form of an ASCII letter; every other character is itself.
pub fn to_ascii_upper(c: char) -> (r: char)
    ensures
        r == ascii_upper(c),
{
    if 'a' <= c && c <= 'z' {
        ((c as u8) - 0x20) as char
    } else {
        c
    }
}

/// A text with its ASCII letters in lower case.
pub fn to_ascii_lowercase(s: &str) -> (r: String)
    ensures
        r@ == lowered(s@),
{
    let mut r: String = String::new();
    for c in it: s.chars()
        invariant
            r@ == lowered(s@.take(it.index())),
            it.seq() == s@,
    {
        let d: char = if 'A' <= c && c <= 'Z' {
            ((c as u8) + 0x20) as char
        } else {
            c
        };
        r.push(d);
        assert(lowered(s@.take(it.index() + 1)) =~= lowered(s@.take(it.index())).push(d));
    }
    assert(s@.take(s@.len() as int) =~= s@);
    r
}

/// What is left after trimming has no white space at its ends, is no longer
/// than the text, and is part of it.
pub proof fn lemma_trimmed(s: Seq<char>)
    ensures
        is_trimmed(trimmed(s)),
        exists|a: int, b: int|
            0 <= a <= b <= s.len() && trimmed(s) == #[trigger] s.subrange(a, b),
{
    lemma_trim_start(s);
    let t = trim_start(s);
    lemma_trim_end(t);
    let a = choose|a: int| 0 <= a <= s.len() && t == #[trigger] s.subrange(a, s.len() as int);
    let b = choose|b: int| 0 <= b <= t.len() && trim_end(t) == #[trigger] t.subrange(0, b);
    assert(t.subrange(0, b) =~= s.subrange(a, a + b));
}

proof fn lemma_trim_start(s: Seq<char>)
    ensures
        trim_start(s).len() > 0 ==> !white_space(trim_start(s)[0]),
        exists|a: int|
            0 <= a <= s.len() && trim_start(s) == #[trigger] s.subrange(a, s.len() as int),
    decreases s.len(),
{
    if s.len() > 0 && white_space(s[0]) {
        let r = s.drop_first();
        lemma_trim_start(r);
        let a = choose|a: int|
            0 <= a <= r.len() && trim_start(r) == #[trigger] r.subrange(a, r.len() as int);
        assert(r.subrange(a, r.len() as int) =~= s.subrange(a + 1, s.len() as int));
    } else {
        assert(s.subrange(0, s.len() as int) =~= s);
    }
}

/// What is left after trimming the end is the front of the text.
pub proof fn lemma_trim_end(s: Seq<char>)
    ensures
        trim_end(s).len() > 0 ==> !white_space(trim_end(s).last()),
        trim_end(s).len() > 0 ==> trim_end(s)[0] == s[0],
        exists|b: int| 0 <= b <= s.len() && trim_end(s) == #[trigger] s.subrange(0, b),
    decreases s.len(),
{
    if s.len() > 0 && white_space(s.last()) {
        let r = s.drop_last();
        lemma_trim_end(r);
        let b = choose|b: int| 0 <= b <= r.len() && trim_end(r) == #[trigger] r.subrange(0, b);
        assert(r.subrange(0, b) =~= s.subrange(0, b));
    } else {
        assert(s.subrange(0, s.len() as int) =~= s);
    }
}

/// A text that starts with something else than white space keeps its start.
pub proof fn lemma_trimmed_head(s: Seq<char>)
    requires
        s.len() > 0,
        !white_space(s[0]),
    ensures
        trimmed(s).len() > 0,
        trimmed(s)[0] == s[0],
    decreases s.len(),
{
    if white_space(s.last()) {
        let r = s.drop_last();
        assert(r[0] == s[0]);
        lemma_trimmed_head(r);
    }
}

/// A trimmed text stays as it is, also with a space before or after it.
pub proof fn lemma_trim_padded(s: Seq<char>)
    requires
        is_trimmed(s),
    ensures
        trimmed(s) == s,
        trimmed(seq![' '] + s) == s,
        trimmed(s + seq![' ']) == s,
{
    let front = seq![' '] + s;
    assert(front.drop_first() =~= s);
    assert(trim_start(front) == trim_start(s));
    let back = s + seq![' '];
    assert(back.drop_last() =~= s);
    if s.len() == 0 {
        assert(back.drop_first() =~= s);
        assert(trim_start(back) == trim_start(s));
    } else {
        assert(back[0] == s[0]);
        assert(trim_start(back) == back);
    }
    assert(back.last() == ' ');
    assert(trim_end(back) == trim_end(s));
}

/// Where `c` does not occur in `a`, the first `c` of `a`, `c`, `b` stands
/// right behind `a`.
pub proof fn lemma_position_after(a: Seq<char>, c: char, b: Seq<char>)
    requires
        forall|i: int| 0 <= i < a.len() ==> #[trigger] a[i] != c,
    ensures
        position(a + seq![c] + b, c) == a.len(),
    decreases a.len(),
{
    let s = a + seq![c] + b;
    if a.len() > 0 {
        let r = a.drop_first();
        assert forall|i: int| 0 <= i < r.len() implies #[trigger] r[i] != c by {
            assert(r[i] == a[i + 1]);
        }
        lemma_position_after(r, c, b);
        assert(s[0] == a[0]);
        assert(s.drop_first() =~= r + seq![c] + b);
    }
}

/// The first `c` lies within the text, or at its end where there is none.
pub proof fn lemma_position(s: Seq<char>, c: char)
    ensures
        0 <= position(s, c) <= s.len(),
        position(s, c) < s.len() ==> s[position(s, c)] == c,
        forall|i: int| 0 <= i < position(s, c) ==> #[trigger] s[i] != c,
    decreases s.len(),
{
    if s.len() > 0 && s[0] != c {
        let r = s.drop_first();
        lemma_position(r, c);
        assert forall|i: int| 0 <= i < position(s, c) implies #[trigger] s[i] != c by {
            if i > 0 {
                assert(s[i] == r[i - 1]);
            }
        }
    }
}

/// Trimming takes white space off both ends, as much as there is, and nothing
/// else: what stands between is kept, whatever white space it has inside.
pub proof fn law_trimming_takes_off_the_ends_only(
    front: Seq<char>,
    core: Seq<char>,
    back: Seq<char>,
)
    requires
        forall|i: int| 0 <= i < front.len() ==> white_space(#[trigger] front[i]),
        forall|i: int| 0 <= i < back.len() ==> white_space(#[trigger] back[i]),
        core.len() > 0 ==> !white_space(core[0]) && !white_space(core[core.len() - 1]),
    ensures
        trimmed(front + core + back) == core,
    decreases front.len() + back.len(),
{
    let s = front + core + back;
    if front.len() > 0 {
        let rest = front.drop_first();
        assert forall|i: int| 0 <= i < rest.len() implies white_space(#[trigger] rest[i]) by {
            assert(rest[i] == front[i + 1]);
        }
        law_trimming_takes_off_the_ends_only(rest, core, back);
        assert(white_space(front[0]));
        assert(s[0] == front[0]);
        assert(s.drop_first() =~= rest + core + back);
    } else if back.len() > 0 {
        let rest = back.drop_last();
        assert forall|i: int| 0 <= i < rest.len() implies white_space(#[trigger] rest[i]) by {
            assert(rest[i] == back[i]);
        }
        law_trimming_takes_off_the_ends_only(front, core, rest);
        assert(s =~= core + back);
        assert(front + core + rest =~= core + rest);
        let t = core + rest;
        assert(white_space(back[back.len() - 1]));
        assert(s.last() == back[back.len() - 1]);
        assert(s.drop_last() =~= t);
        if core.len() > 0 {
            assert(s[0] == core[0]);
            assert(t[0] == core[0]);
        } else {
            assert(white_space(back[0]));
            assert(s[0] == back[0]);
            lemma_trim_all(s);
        }
    } else {
        assert(s =~= core);
        lemma_trim_padded(core);
    }
}

proof fn lemma_trim_all(s: Seq<char>)
    requires
        forall|i: int| 0 <= i < s.len() ==> white_space(#[trigger] s[i]),
    ensures
        trimmed(s) == Seq::<char>::empty(),
    decreases s.len(),
{
    if s.len() > 0 {
        let r = s.drop_first();
        assert forall|i: int| 0 <= i < r.len() implies white_space(#[trigger] r[i]) by {
            assert(r[i] == s[i + 1]);
        }
        assert(white_space(s[0]));
        lemma_trim_all(r);
    } else {
        assert(trimmed(s) =~= Seq::<char>::empty());
    }
}

/// White space is what Unicode says it is: the controls from tab to carriage
/// return, the spaces, the next line, and the two separators.
pub proof fn law_white_space_of_unicode(c: char)
    ensures
        white_space(c) <==> {
            ||| c == '\t' || c == '\n' || c == '\u{b}' || c == '\u{c}' || c == '\r'
            ||| c == ' ' || c == '\u{85}' || c == '\u{a0}' || c == '\u{1680}'
            ||| '\u{2000}' <= c <= '\u{200a}'
            ||| c == '\u{2028}' || c == '\u{2029}' || c == '\u{202f}'
            ||| c == '\u{205f}' || c == '\u{3000}'
        },
{
}

/// Letter case concerns the 26 letters of ASCII, which stay the same letter, and
/// nothing else; and the two ways undo each other.
pub proof fn law_letter_case(c: char)
    ensures
        'A' <= c <= 'Z' ==> {
            &&& ascii_lower(c) as u32 - 'a' as u32 == c as u32 - 'A' as u32
            &&& ascii_upper(ascii_lower(c)) == c
            &&& ascii_upper(c) == c
        },
        'a' <= c <= 'z' ==> {
            &&& ascii_upper(c) as u32 - 'A' as u32 == c as u32 - 'a' as u32
            &&& ascii_lower(ascii_upper(c)) == c
            &&& ascii_lower(c) == c
        },
        !('A' <= c <= 'Z') && !('a' <= c <= 'z') ==> ascii_lower(c) == c && ascii_upper(c) == c,
{
}

/// Lower case is taken character by character.
pub proof fn law_lower_case_by_character(s: Seq<char>, i: int)
    requires
        0 <= i < s.len(),
    ensures
        lowered(s).len() == s.len(),
        'A' <= s[i] <= 'Z' ==> lowered(s)[i] as u32 == s[i] as u32 + 32,
        !('A' <= s[i] <= 'Z') ==> lowered(s)[i] == s[i],
{
}

/// The first place of a character is the one before which it does not stand.
pub proof fn law_first_place(s: Seq<char>, c: char, p: int)
    requires
        0 <= p < s.len(),
        s[p] == c,
        forall|i: int| 0 <= i < p ==> #[trigger] s[i] != c,
    ensures
        position(s, c) == p,
{
    lemma_position(s, c);
    let q = position(s, c);
    if q < p {
        assert(s[q] != c);
    }
    if p < q {
        assert(s[p] != c);
    }
}

/// What is said of strings in results, options and rows is what they hold.
pub proof fn law_texts_are_what_strings_hold(s: String, v: Seq<String>, i: int)
    requires
        0 <= i < v.len(),
    ensures
        outcome(Ok(s)) == Ok::<Seq<char>, Seq<char>>(s@),
        outcome(Err(s)) == Err::<Seq<char>, Seq<char>>(s@),
        maybe(Some(s)) == Some(s@),
        maybe(None) is None,
        texts(v).len() == v.len(),
        texts(v)[i] == v[i]@,
{
}

} // verus!
