//! Plain-text helpers: whitespace, trimming, line splitting and building strings.
//!
//! Text is handled as a sequence of characters. The executable functions work on
//! slices of `char`; `chars_of` and `string_of` convert from and to strings.

use vstd::prelude::*;

verus! {

/// `String::push` appends one character to the end of the string.
pub assume_specification[ String::push ](s: &mut String, c: char)
    ensures
        final(s)@ == old(s)@.push(c),
;

/// The characters that carry the Unicode property `White_Space`.
pub open spec fn whitespace(c: char) -> bool {
    ||| '\u{9}' <= c <= '\u{d}'
    ||| c == '\u{20}'
    ||| c == '\u{85}'
    ||| c == '\u{a0}'
    ||| c == '\u{1680}'
    ||| '\u{2000}' <= c <= '\u{200a}'
    ||| c == '\u{2028}'
    ||| c == '\u{2029}'
    ||| c == '\u{202f}'
    ||| c == '\u{205f}'
    ||| c == '\u{3000}'
}

/// `s` without the whitespace it starts with.
pub open spec fn trim_start(s: Seq<char>) -> Seq<char>
    decreases s.len(),
{
    if s.len() > 0 && whitespace(s.first()) {
        trim_start(s.drop_first())
    } else {
        s
    }
}

/// `s` without the whitespace it ends with.
pub open spec fn trim_end(s: Seq<char>) -> Seq<char>
    decreases s.len(),
{
    if s.len() > 0 && whitespace(s.last()) {
        trim_end(s.drop_last())
    } else {
        s
    }
}

/// `s` without the whitespace at either end.
pub open spec fn trimmed(s: Seq<char>) -> Seq<char> {
    trim_end(trim_start(s))
}

/// The position of the first `c` in `s`, or the length of `s` if there is none.
pub open spec fn first_index(s: Seq<char>, c: char) -> nat
    decreases s.len(),
{
    if s.len() == 0 || s.first() == c {
        0
    } else {
        1 + first_index(s.drop_first(), c)
    }
}

/// The parts of `s` before and after the first `c`.
pub open spec fn split_at_first(s: Seq<char>, c: char) -> Option<(Seq<char>, Seq<char>)> {
    let n = first_index(s, c) as int;
    if n < s.len() {
        Some((s.take(n), s.skip(n + 1)))
    } else {
        None
    }
}

/// `s` without one carriage return at its end.
pub open spec fn without_carriage_return(s: Seq<char>) -> Seq<char> {
    if s.len() > 0 && s.last() == '\r' {
        s.drop_last()
    } else {
        s
    }
}

/// The lines of `s`. A line ends with a line feed, or a carriage return and a line
/// feed; neither is part of the line. The last line need not end with either.
pub open spec fn lines_of(s: Seq<char>) -> Seq<Seq<char>>
    decreases s.len(),
{
    let n = first_index(s, '\n') as int;
    if s.len() == 0 {
        seq![]
    } else if n < s.len() {
        seq![without_carriage_return(s.take(n))] + lines_of(s.skip(n + 1))
    } else {
        seq![s]
    }
}

/// How many characters stand before the first whitespace of `s`.
pub open spec fn word_len(s: Seq<char>) -> nat
    decreases s.len(),
{
    if s.len() == 0 || whitespace(s.first()) {
        0
    } else {
        1 + word_len(s.drop_first())
    }
}

/// The first run of characters that are not whitespace.
pub open spec fn first_word_of(s: Seq<char>) -> Option<Seq<char>> {
    let t = trim_start(s);
    if t.len() == 0 {
        None
    } else {
        Some(t.take(word_len(t) as int))
    }
}

/// The views of a list of character vectors.
pub open spec fn views(v: Seq<Vec<char>>) -> Seq<Seq<char>> {
    v.map_values(|x: Vec<char>| x@)
}

/// The view of an optional string.
pub open spec fn optional_view(s: Option<String>) -> Option<Seq<char>> {
    match s {
        Some(s) => Some(s@),
        None => None,
    }
}

/// The characters of a string, in order.
pub fn chars_of(s: &str) -> (v: Vec<char>)
    ensures
        v@ == s@,
{
    let mut v: Vec<char> = Vec::new();
    for c in it: s.chars()
        invariant
            it.seq() == s@,
            v@ == s@.take(it.index() as int),
    {
        v.push(c);
    }
    v
}

/// The string made of these characters.
pub fn string_of(v: &[char]) -> (s: String)
    ensures
        s@ == v@,
{
    let mut s = String::new();
    for i in 0..v.len()
        invariant
            s@ == v@.take(i as int),
    {
        s.push(v[i]);
    }
    s
}

/// Whether `c` is whitespace.
pub fn is_whitespace(c: char) -> (b: bool)
    ensures
        b == whitespace(c),
{
    ('\u{9}' <= c && c <= '\u{d}') || c == '\u{20}' || c == '\u{85}' || c == '\u{a0}' || c
        == '\u{1680}' || ('\u{2000}' <= c && c <= '\u{200a}') || c == '\u{2028}' || c == '\u{2029}'
        || c == '\u{202f}' || c == '\u{205f}' || c == '\u{3000}'
}

/// Copies the characters from `from` up to `to`.
pub fn copy_range(s: &[char], from: usize, to: usize) -> (r: Vec<char>)
    requires
        from <= to <= s@.len(),
    ensures
        r@ == s@.subrange(from as int, to as int),
{
    let mut r: Vec<char> = Vec::new();
    for i in from..to
        invariant
            from <= to <= s@.len(),
            r@ == s@.subrange(from as int, i as int),
    {
        r.push(s[i]);
    }
    r
}

/// Counts the whitespace characters that `s` starts with.
fn whitespace_len(s: &[char]) -> (from: usize)
    ensures
        from <= s@.len(),
        trim_start(s@) == s@.skip(from as int),
{
    let mut from: usize = 0;
    assert(s@.skip(0) == s@);
    while from < s.len() && is_whitespace(s[from])
        invariant
            from <= s@.len(),
            trim_start(s@.skip(from as int)) == trim_start(s@),
        decreases s@.len() - from,
    {
        assert(s@.skip(from as int).drop_first() == s@.skip(from + 1));
        from = from + 1;
    }
    from
}

/// Removes the whitespace at either end.
pub fn trim(s: &[char]) -> (r: Vec<char>)
    ensures
        r@ == trimmed(s@),
{
    let from: usize = whitespace_len(s);
    let mut to: usize = s.len();
    assert(s@.subrange(from as int, to as int) == s@.skip(from as int));
    while from < to && is_whitespace(s[to - 1])
        invariant
            from <= to <= s@.len(),
            trim_end(s@.subrange(from as int, to as int)) == trimmed(s@),
        decreases to,
    {
        assert(s@.subrange(from as int, to as int).drop_last() == s@.subrange(
            from as int,
            to - 1,
        ));
        to = to - 1;
    }
    copy_range(s, from, to)
}

/// Finds the first run of characters that are not whitespace.
pub fn first_word(s: &[char]) -> (r: Option<Vec<char>>)
    ensures
        match r {
            Some(word) => first_word_of(s@) == Some(word@),
            None => first_word_of(s@) is None,
        },
{
    let from: usize = whitespace_len(s);
    let ghost rest = s@.skip(from as int);
    if from == s.len() {
        return None;
    }
    let mut to: usize = from;
    while to < s.len() && !is_whitespace(s[to])
        invariant
            from <= to <= s@.len(),
            rest == s@.skip(from as int),
            (to - from) + word_len(s@.skip(to as int)) == word_len(rest),
        decreases s@.len() - to,
    {
        assert(s@.skip(to as int).drop_first() == s@.skip(to + 1));
        to = to + 1;
    }
    assert(word_len(s@.skip(to as int)) == 0);
    assert(s@.subrange(from as int, to as int) == rest.take(to - from));
    Some(copy_range(s, from, to))
}

/// What `first_index` promises: no `c` before it, and a `c` there unless it is the end.
pub proof fn lemma_first_index(s: Seq<char>, c: char)
    ensures
        first_index(s, c) <= s.len(),
        forall|i: int| 0 <= i < first_index(s, c) ==> s[i] != c,
        first_index(s, c) < s.len() ==> s[first_index(s, c) as int] == c,
    decreases s.len(),
{
    if s.len() > 0 && s.first() != c {
        let t = s.drop_first();
        lemma_first_index(t, c);
        assert forall|i: int| 0 <= i < first_index(s, c) implies s[i] != c by {
            if i > 0 {
                assert(s[i] == t[i - 1]);
            }
        }
    }
}

/// A position with no `c` before it, and a `c` there unless it is the end, is `first_index`.
pub proof fn lemma_first_index_unique(s: Seq<char>, c: char, n: int)
    requires
        0 <= n <= s.len(),
        forall|i: int| 0 <= i < n ==> s[i] != c,
        n < s.len() ==> s[n] == c,
    ensures
        first_index(s, c) == n,
{
    lemma_first_index(s, c);
}

/// Text whose first and last characters are not whitespace is its own trimmed form.
pub proof fn lemma_trimmed_fixed(s: Seq<char>)
    requires
        s.len() > 0 ==> !whitespace(s.first()) && !whitespace(s.last()),
    ensures
        trimmed(s) == s,
{
}

/// Whitespace put before a text goes with the whitespace it starts with.
pub proof fn lemma_trim_start_before(a: Seq<char>, s: Seq<char>)
    requires
        forall|i: int| 0 <= i < a.len() ==> whitespace(#[trigger] a[i]),
    ensures
        trim_start(a + s) == trim_start(s),
    decreases a.len(),
{
    if a.len() == 0 {
        assert(a + s == s);
    } else {
        assert((a + s).drop_first() == a.drop_first() + s);
        assert((a + s).first() == a[0]);
        lemma_trim_start_before(a.drop_first(), s);
    }
}

/// A run without whitespace, followed by whitespace or nothing, is a word.
pub proof fn lemma_word_len(word: Seq<char>, rest: Seq<char>)
    requires
        forall|i: int| 0 <= i < word.len() ==> !whitespace(#[trigger] word[i]),
        rest.len() > 0 ==> whitespace(rest.first()),
    ensures
        word_len(word + rest) == word.len(),
    decreases word.len(),
{
    if word.len() == 0 {
        assert(word + rest == rest);
    } else {
        assert((word + rest).drop_first() == word.drop_first() + rest);
        assert((word + rest).first() == word[0]);
        lemma_word_len(word.drop_first(), rest);
    }
}

/// Trimming drops whitespace put before the text.
pub proof fn lemma_trimmed_before(a: Seq<char>, s: Seq<char>)
    requires
        forall|i: int| 0 <= i < a.len() ==> whitespace(#[trigger] a[i]),
    ensures
        trimmed(a + s) == trimmed(s),
{
    lemma_trim_start_before(a, s);
}

/// Trimming drops a whitespace character at the end.
pub proof fn lemma_trimmed_last(s: Seq<char>)
    requires
        s.len() > 0,
        whitespace(s.last()),
    ensures
        trimmed(s.drop_last()) == trimmed(s),
    decreases s.len(),
{
    if whitespace(s.first()) {
        if s.len() == 1 {
            assert(s.drop_last() == Seq::<char>::empty());
            assert(s.drop_first() == Seq::<char>::empty());
        } else {
            assert(s.drop_first().drop_last() == s.drop_last().drop_first());
            lemma_trimmed_last(s.drop_first());
        }
    }
}

/// Trimming drops whitespace put after the text.
pub proof fn lemma_trimmed_after(s: Seq<char>, b: Seq<char>)
    requires
        forall|i: int| 0 <= i < b.len() ==> whitespace(#[trigger] b[i]),
    ensures
        trimmed(s + b) == trimmed(s),
    decreases b.len(),
{
    if b.len() == 0 {
        assert(s + b == s);
    } else {
        assert((s + b).last() == b.last());
        assert((s + b).drop_last() == s + b.drop_last());
        lemma_trimmed_last(s + b);
        lemma_trimmed_after(s, b.drop_last());
    }
}

/// Trimming keeps a first character that is not whitespace.
pub proof fn lemma_trimmed_keeps_first(s: Seq<char>)
    requires
        s.len() > 0,
        !whitespace(s.first()),
    ensures
        trimmed(s).len() > 0,
        trimmed(s).first() == s.first(),
{
    lemma_trim_end_keeps_first(s);
}

proof fn lemma_trim_end_keeps_first(s: Seq<char>)
    requires
        s.len() > 0,
        !whitespace(s.first()),
    ensures
        trim_end(s).len() > 0,
        trim_end(s).first() == s.first(),
    decreases s.len(),
{
    if whitespace(s.last()) {
        lemma_trim_end_keeps_first(s.drop_last());
    }
}

/// A text with a line feed after its first line: that line, then the lines of the rest.
pub proof fn lemma_lines_step(line: Seq<char>, rest: Seq<char>)
    requires
        !line.contains('\n'),
    ensures
        lines_of(line + seq!['\n'] + rest) == seq![without_carriage_return(line)] + lines_of(rest),
{
    let s = line + seq!['\n'] + rest;
    assert forall|i: int| 0 <= i < line.len() implies s[i] != '\n' by {
        assert(s[i] == line[i]);
        assert(line.contains(line[i]));
    }
    assert(s[line.len() as int] == '\n');
    lemma_first_index_unique(s, '\n', line.len() as int);
    assert(s.take(line.len() as int) == line);
    assert(s.skip(line.len() as int + 1) == rest);
}

/// A text with a separator after its first part splits there.
pub proof fn lemma_split_step(key: Seq<char>, c: char, value: Seq<char>)
    requires
        !key.contains(c),
    ensures
        split_at_first(key + seq![c] + value, c) == Some((key, value)),
{
    let s = key + seq![c] + value;
    assert forall|i: int| 0 <= i < key.len() implies s[i] != c by {
        assert(s[i] == key[i]);
        assert(key.contains(key[i]));
    }
    assert(s[key.len() as int] == c);
    lemma_first_index_unique(s, c, key.len() as int);
    assert(s.take(key.len() as int) == key);
    assert(s.skip(key.len() as int + 1) == value);
}

/// The position of the first `c` at or after `from`, or the length of `s`.
pub fn find(s: &[char], from: usize, c: char) -> (n: usize)
    requires
        from <= s@.len(),
    ensures
        n == from + first_index(s@.skip(from as int), c),
        from <= n <= s@.len(),
{
    let mut n: usize = from;
    while n < s.len() && s[n] != c
        invariant
            from <= n <= s@.len(),
            forall|i: int| from <= i < n ==> s@[i] != c,
        decreases s@.len() - n,
    {
        n = n + 1;
    }
    proof {
        lemma_first_index_unique(s@.skip(from as int), c, n - from);
    }
    n
}

/// Splits at the first `c`.
pub fn split_once(s: &[char], c: char) -> (r: Option<(Vec<char>, Vec<char>)>)
    ensures
        match r {
            Some((before, after)) => split_at_first(s@, c) == Some((before@, after@)),
            None => split_at_first(s@, c) is None,
        },
{
    let n: usize = find(s, 0, c);
    assert(s@.skip(0) == s@);
    if n < s.len() {
        assert(s@.take(n as int) == s@.subrange(0, n as int));
        assert(s@.skip(n + 1) == s@.subrange(n + 1, s@.len() as int));
        Some((copy_range(s, 0, n), copy_range(s, n + 1, s.len())))
    } else {
        None
    }
}

/// Splits into lines.
pub fn lines(s: &[char]) -> (r: Vec<Vec<char>>)
    ensures
        views(r@) == lines_of(s@),
{
    let mut r: Vec<Vec<char>> = Vec::new();
    let mut from: usize = 0;
    assert(s@.skip(0) == s@);
    while from < s.len()
        invariant
            from <= s@.len(),
            views(r@) + lines_of(s@.skip(from as int)) == lines_of(s@),
        decreases s@.len() - from,
    {
        let ghost rest = s@.skip(from as int);
        let ghost done = r@;
        let n: usize = find(s, from, '\n');
        assert(s@.subrange(from as int, n as int) == rest.take(n - from));
        if n < s.len() {
            let to: usize = if from < n && s[n - 1] == '\r' {
                n - 1
            } else {
                n
            };
            let line = copy_range(s, from, to);
            assert(line@ == without_carriage_return(rest.take(n - from)));
            r.push(line);
            assert(rest.skip(n - from + 1) == s@.skip(n + 1));
            assert(views(r@) == views(done).push(line@));
            from = n + 1;
        } else {
            let line = copy_range(s, from, n);
            assert(line@ == rest);
            r.push(line);
            assert(views(r@) == views(done).push(line@));
            from = n;
        }
    }
    assert(lines_of(s@.skip(from as int)) == Seq::<Seq<char>>::empty());
    r
}

/// Whether two texts are the same.
pub fn same_text(a: &[char], b: &str) -> (r: bool)
    ensures
        r == (a@ == b@),
{
    let other = chars_of(b);
    if a.len() != other.len() {
        return false;
    }
    for i in 0..a.len()
        invariant
            other@ == b@,
            a@.len() == other@.len(),
            forall|j: int| 0 <= j < i ==> a@[j] == other@[j],
    {
        if a[i] != other[i] {
            return false;
        }
    }
    assert(a@ =~= b@);
    true
}

} // verus!
