//! What holds of the texts and numbers that are read and written, said of the results alone.

use crate::{decimal, text};
use crate::decimal::{format_signed, format_unsigned, parse_i32, parse_u64, NumberError};
use crate::text::{first_word, lines, split_once, trim};
use vstd::prelude::*;

verus! {

/// Whether every character is whitespace.
pub open spec fn blank(s: Seq<char>) -> bool {
    forall|i: int| 0 <= i < s.len() ==> text::whitespace(#[trigger] s[i])
}

/// Whether no character is whitespace.
pub open spec fn without_blanks(s: Seq<char>) -> bool {
    forall|i: int| 0 <= i < s.len() ==> !text::whitespace(#[trigger] s[i])
}

/// Whether `t` is `s` without the whitespace around it: it lies between two blank parts, and
/// neither starts nor ends with whitespace.
pub open spec fn is_trimmed(s: Seq<char>, t: Seq<char>) -> bool {
    exists|before: Seq<char>, after: Seq<char>|
        #![trigger before + t + after]
        {
            &&& s == before + t + after
            &&& blank(before)
            &&& blank(after)
            &&& t.len() > 0 ==> !text::whitespace(t.first()) && !text::whitespace(t.last())
        }
}

proof fn lemma_trim_start(s: Seq<char>) -> (before: Seq<char>)
    ensures
        s == before + text::trim_start(s),
        blank(before),
        text::trim_start(s).len() > 0 ==> !text::whitespace(text::trim_start(s).first()),
    decreases s.len(),
{
    if s.len() > 0 && text::whitespace(s.first()) {
        let rest = lemma_trim_start(s.drop_first());
        let before = seq![s.first()] + rest;
        assert(s == seq![s.first()] + s.drop_first());
        assert(s == before + text::trim_start(s.drop_first()));
        assert forall|i: int| 0 <= i < before.len() implies text::whitespace(
            #[trigger] before[i],
        ) by {
            if i > 0 {
                assert(before[i] == rest[i - 1]);
            }
        }
        before
    } else {
        let before = Seq::<char>::empty();
        assert(s == before + s);
        before
    }
}

proof fn lemma_trim_end(s: Seq<char>) -> (after: Seq<char>)
    ensures
        s == text::trim_end(s) + after,
        blank(after),
        text::trim_end(s).len() > 0 ==> !text::whitespace(text::trim_end(s).last()),
    decreases s.len(),
{
    if s.len() > 0 && text::whitespace(s.last()) {
        let rest = lemma_trim_end(s.drop_last());
        let after = rest.push(s.last());
        assert(s == s.drop_last().push(s.last()));
        assert(s == text::trim_end(s.drop_last()) + after);
        assert forall|i: int| 0 <= i < after.len() implies text::whitespace(
            #[trigger] after[i],
        ) by {
            if i < rest.len() {
                assert(after[i] == rest[i]);
            }
        }
        after
    } else {
        let after = Seq::<char>::empty();
        assert(s == s + after);
        after
    }
}

/// The trimmed form of a text is the text without the whitespace around it.
pub proof fn lemma_trimmed_is_trimmed(s: Seq<char>)
    ensures
        is_trimmed(s, text::trimmed(s)),
{
    let start = text::trim_start(s);
    let t = text::trimmed(s);
    let before = lemma_trim_start(s);
    let after = lemma_trim_end(start);
    assert(s == before + t + after);
    if t.len() > 0 {
        assert(t.first() == start.first());
    }
}

/// Trimming removes exactly the whitespace around a text.
pub proof fn trim_removes_whitespace_around(s: &[char], r: Vec<char>)
    requires
        call_ensures(trim, (s,), r),
    ensures
        is_trimmed(s@, r@),
{
    lemma_trimmed_is_trimmed(s@);
}

/// Splitting cuts a text at the first place where the character stands, and drops it there;
/// it fails exactly if the character does not stand anywhere.
pub proof fn split_cuts_at_the_first(
    s: &[char],
    c: char,
    r: Option<(Vec<char>, Vec<char>)>,
)
    requires
        call_ensures(split_once, (s, c), r),
    ensures
        r is Some <==> s@.contains(c),
        r matches Some((before, after)) ==> s@ == before@ + seq![c] + after@ && !before@.contains(
            c,
        ),
{
    lemma_split(s@, c);
}

/// What splitting a text gives.
pub proof fn lemma_split(s: Seq<char>, c: char)
    ensures
        text::split_at_first(s, c) is Some <==> s.contains(c),
        text::split_at_first(s, c) matches Some((before, after)) ==> s == before + seq![c] + after
            && !before.contains(c),
{
    text::lemma_first_index(s, c);
    let n = text::first_index(s, c) as int;
    if n < s.len() {
        assert(s[n] == c);
        assert(s == s.take(n) + seq![c] + s.skip(n + 1));
    }
}

/// Whether `word` is the first word of `s`: it has no whitespace, only whitespace stands before
/// it, and whitespace or nothing follows.
pub open spec fn is_first_word(s: Seq<char>, word: Seq<char>) -> bool {
    exists|before: Seq<char>, after: Seq<char>|
        #![trigger before + word + after]
        {
            &&& s == before + word + after
            &&& blank(before)
            &&& word.len() > 0
            &&& without_blanks(word)
            &&& after.len() > 0 ==> text::whitespace(after.first())
        }
}

proof fn lemma_word_len(s: Seq<char>)
    ensures
        text::word_len(s) <= s.len(),
        without_blanks(s.take(text::word_len(s) as int)),
        text::word_len(s) < s.len() ==> text::whitespace(s[text::word_len(s) as int]),
    decreases s.len(),
{
    if s.len() > 0 && !text::whitespace(s.first()) {
        let rest = s.drop_first();
        lemma_word_len(rest);
        let word = s.take(text::word_len(s) as int);
        assert forall|i: int| 0 <= i < word.len() implies !text::whitespace(
            #[trigger] word[i],
        ) by {
            if i > 0 {
                assert(word[i] == rest.take(text::word_len(rest) as int)[i - 1]);
            }
        }
    }
}

/// What the first word of a text is.
pub proof fn lemma_first_word(s: Seq<char>)
    ensures
        text::first_word_of(s) matches Some(word) ==> is_first_word(s, word),
        text::first_word_of(s) is None <==> blank(s),
{
    let t = text::trim_start(s);
    let before = lemma_trim_start(s);
    if t.len() > 0 {
        lemma_word_len(t);
        let n = text::word_len(t) as int;
        let word = t.take(n);
        let after = t.skip(n);
        assert(s == before + word + after);
        assert(s[before.len() as int] == t[0]);
        assert(is_first_word(s, word));
    } else {
        assert(before + t == before);
    }
}

/// The first word of a text is found, unless the text is blank.
pub proof fn first_word_is_found(s: &[char], r: Option<Vec<char>>)
    requires
        call_ensures(first_word, (s,), r),
    ensures
        r matches Some(word) ==> is_first_word(s@, word@),
        r is None <==> blank(s@),
{
    lemma_first_word(s@);
}

/// `line` without one carriage return at its end.
pub open spec fn without_return(line: Seq<char>) -> Seq<char> {
    if line.len() > 0 && line[line.len() - 1] == '\r' {
        line.take(line.len() - 1)
    } else {
        line
    }
}

/// The lines of a text with a line feed are what stands before the first line feed, without a
/// carriage return at its end, and then the lines of what stands after it.
pub proof fn line_feed_ends_a_line(
    s: &[char],
    line: Seq<char>,
    rest: &[char],
    r: Vec<Vec<char>>,
    others: Vec<Vec<char>>,
)
    requires
        s@ == line + seq!['\n'] + rest@,
        !line.contains('\n'),
        call_ensures(lines, (s,), r),
        call_ensures(lines, (rest,), others),
    ensures
        r@.len() == 1 + others@.len(),
        r@[0]@ == without_return(line),
        forall|i: int| 0 <= i < others@.len() ==> r@[i + 1]@ == #[trigger] others@[i]@,
{
    text::lemma_lines_step(line, rest@);
    assert(text::without_carriage_return(line) == without_return(line));
    let all = text::views(r@);
    let tail = text::views(others@);
    assert(all == seq![without_return(line)] + tail);
    assert(all.len() == r@.len() && tail.len() == others@.len());
    assert(all[0] == r@[0]@);
    assert forall|i: int| 0 <= i < others@.len() implies r@[i + 1]@ == #[trigger] others@[i]@ by {
        assert(all[i + 1] == tail[i]);
    }
}

/// A text without a line feed is one line, as it is, and an empty text has no line.
pub proof fn text_without_line_feed_is_one_line(s: &[char], r: Vec<Vec<char>>)
    requires
        !s@.contains('\n'),
        call_ensures(lines, (s,), r),
    ensures
        s@.len() == 0 ==> r@.len() == 0,
        s@.len() > 0 ==> r@.len() == 1 && r@[0]@ == s@,
{
    text::lemma_first_index(s@, '\n');
    let all = text::views(r@);
    assert(all == text::lines_of(s@));
    assert(all.len() == r@.len());
    if s@.len() > 0 {
        assert(all[0] == r@[0]@);
    }
}

/// Whether `s` is one or more digits.
pub open spec fn is_digits(s: Seq<char>) -> bool {
    &&& s.len() > 0
    &&& forall|i: int| 0 <= i < s.len() ==> '0' <= #[trigger] s[i] <= '9'
}

/// The number that digits stand for, counted from the left.
pub open spec fn value_of(s: Seq<char>) -> nat
    decreases s.len(),
{
    if s.len() == 0 {
        0
    } else {
        (value_of(s.drop_last()) * 10 + (s.last() as int - 48)) as nat
    }
}

/// Whether a number that starts with these digits is above `limit`.
pub open spec fn passes(s: Seq<char>, limit: nat) -> bool {
    exists|n: int|
        0 < n <= s.len() && is_digits(#[trigger] s.take(n)) && value_of(s.take(n)) > limit
}

/// More digits never make a number smaller.
proof fn lemma_value_grows(s: Seq<char>, n: int)
    requires
        0 <= n <= s.len(),
        forall|i: int| 0 <= i < s.len() ==> '0' <= #[trigger] s[i] <= '9',
    ensures
        value_of(s.take(n)) <= value_of(s),
    decreases s.len(),
{
    if n < s.len() {
        lemma_value_grows(s.drop_last(), n);
        assert(s.drop_last().take(n) == s.take(n));
        assert('0' <= s[s.len() - 1] <= '9');
    } else {
        assert(s.take(n) == s);
    }
}

/// What reading digits up to a limit gives.
proof fn lemma_digits(s: Seq<char>, limit: nat, overflow: NumberError)
    requires
        overflow == NumberError::PosOverflow || overflow == NumberError::NegOverflow,
    ensures
        match decimal::digits_within(s, limit, overflow) {
            Ok(n) => (s.len() > 0 ==> is_digits(s)) && n == value_of(s) && n <= limit,
            Err(e) => if passes(s, limit) {
                e == overflow
            } else {
                e == NumberError::InvalidDigit && !is_digits(s)
            },
        },
        passes(s, limit) ==> decimal::digits_within(s, limit, overflow) is Err,
    decreases s.len(),
{
    if s.len() > 0 {
        let t = s.drop_last();
        let c = s.last();
        lemma_digits(t, limit, overflow);
        assert(s[s.len() - 1] == c);
        assert(s.take(s.len() as int) == s);
        assert forall|n: int| 0 < n <= t.len() implies #[trigger] s.take(n) == t.take(n) by {}
        if passes(t, limit) {
            let n = choose|n: int|
                0 < n <= t.len() && is_digits(#[trigger] t.take(n)) && value_of(t.take(n)) > limit;
            assert(s.take(n) == t.take(n));
            assert(passes(s, limit));
        }
        match decimal::digits_within(t, limit, overflow) {
            Ok(n) => {
                if '0' <= c <= '9' {
                    assert forall|i: int| 0 <= i < s.len() implies '0' <= #[trigger] s[i]
                        <= '9' by {
                        if i < t.len() {
                            assert(s[i] == t[i]);
                        }
                    }
                    assert(is_digits(s));
                    if value_of(s) > limit {
                        assert(passes(s, limit));
                    } else if passes(s, limit) {
                        let k = choose|k: int|
                            0 < k <= s.len() && is_digits(#[trigger] s.take(k)) && value_of(
                                s.take(k),
                            ) > limit;
                        lemma_value_grows(s, k);
                    }
                } else {
                    assert(!is_digits(s));
                    if passes(s, limit) {
                        let k = choose|k: int|
                            0 < k <= s.len() && is_digits(#[trigger] s.take(k)) && value_of(
                                s.take(k),
                            ) > limit;
                        if k == s.len() {
                            assert(is_digits(s));
                        } else {
                            assert(s.take(k) == t.take(k));
                            assert(passes(t, limit));
                        }
                    }
                }
            },
            Err(e) => {
                if passes(s, limit) && !passes(t, limit) {
                    let k = choose|k: int|
                        0 < k <= s.len() && is_digits(#[trigger] s.take(k)) && value_of(s.take(k))
                            > limit;
                    if k == s.len() {
                        assert forall|i: int| 0 <= i < t.len() implies '0' <= #[trigger] t[i]
                            <= '9' by {
                            assert(t[i] == s[i]);
                        }
                    } else {
                        assert(s.take(k) == t.take(k));
                    }
                }
                if is_digits(s) {
                    assert forall|i: int| 0 <= i < t.len() implies '0' <= #[trigger] t[i]
                        <= '9' by {
                        assert(t[i] == s[i]);
                    }
                    assert(t.len() > 0);
                    if passes(t, limit) {
                        let k = choose|k: int|
                            0 < k <= t.len() && is_digits(#[trigger] t.take(k)) && value_of(
                                t.take(k),
                            ) > limit;
                        lemma_value_grows(t, k);
                    }
                }
            },
        }
    }
}

/// The digits of a number that may start with a plus sign.
pub open spec fn after_plus(s: Seq<char>) -> Seq<char> {
    if s.len() > 0 && s[0] == '+' {
        s.skip(1)
    } else {
        s
    }
}

/// What a text without a minus sign is, as a number up to `limit`: nothing, a number, one that
/// is too large, or none.
pub open spec fn reads_up_to(s: Seq<char>, limit: nat, r: Result<nat, NumberError>) -> bool {
    let digits = after_plus(s);
    if s.len() == 0 {
        r == Err::<nat, NumberError>(NumberError::Empty)
    } else if is_digits(digits) && value_of(digits) <= limit {
        r == Ok::<nat, NumberError>(value_of(digits))
    } else if passes(digits, limit) {
        r == Err::<nat, NumberError>(NumberError::PosOverflow)
    } else {
        r == Err::<nat, NumberError>(NumberError::InvalidDigit)
    }
}

proof fn lemma_reads_up_to(s: Seq<char>, limit: nat)
    requires
        s.len() > 0,
    ensures
        after_plus(s).len() > 0 ==> reads_up_to(
            s,
            limit,
            decimal::digits_within(after_plus(s), limit, NumberError::PosOverflow),
        ),
        after_plus(s).len() == 0 ==> reads_up_to(s, limit, Err(NumberError::InvalidDigit)),
{
    let digits = after_plus(s);
    lemma_digits(digits, limit, NumberError::PosOverflow);
    if is_digits(digits) && value_of(digits) <= limit && passes(digits, limit) {
        let k = choose|k: int|
            0 < k <= digits.len() && is_digits(#[trigger] digits.take(k)) && value_of(
                digits.take(k),
            ) > limit;
        lemma_value_grows(digits, k);
    }
    if is_digits(digits) && value_of(digits) > limit {
        assert(digits.take(digits.len() as int) == digits);
        assert(passes(digits, limit));
    }
}

/// A text is read as the number that its digits stand for, after an optional plus sign, if
/// there are digits only and the number fits. What is wrong is said otherwise.
pub proof fn lemma_number_u64(s: Seq<char>)
    ensures
        reads_up_to(s, u64::MAX as nat, decimal::number_u64(s)),
{
    if s.len() > 0 {
        lemma_reads_up_to(s, u64::MAX as nat);
        assert(s.skip(0) == s);
        if s == seq!['-'] {
            lemma_digits(s, u64::MAX as nat, NumberError::PosOverflow);
            assert(!is_digits(s)) by {
                assert(s[0] == '-');
            }
            assert(!passes(s, u64::MAX as nat)) by {
                if passes(s, u64::MAX as nat) {
                    let k = choose|k: int|
                        0 < k <= s.len() && is_digits(#[trigger] s.take(k)) && value_of(s.take(k))
                            > u64::MAX as nat;
                    assert(s.take(k)[0] == '-');
                }
            }
        }
    }
}

/// Reading a `u64`: see `reads_up_to`.
pub proof fn u64_is_read_from_digits(s: &[char], r: Result<u64, NumberError>)
    requires
        call_ensures(parse_u64, (s,), r),
    ensures
        reads_up_to(
            s@,
            u64::MAX as nat,
            match r {
                Ok(n) => Ok(n as nat),
                Err(e) => Err(e),
            },
        ),
{
    lemma_number_u64(s@);
}

/// What a text is as an `i32`: without a minus sign as `reads_up_to` says, and with one the
/// negative of the number that its digits stand for.
pub open spec fn reads_signed(s: Seq<char>, r: Result<int, NumberError>) -> bool {
    if s.len() > 0 && s[0] == '-' {
        let digits = s.skip(1);
        if is_digits(digits) && value_of(digits) <= 0x8000_0000 {
            r == Ok::<int, NumberError>(-value_of(digits))
        } else if passes(digits, 0x8000_0000) {
            r == Err::<int, NumberError>(NumberError::NegOverflow)
        } else {
            r == Err::<int, NumberError>(NumberError::InvalidDigit)
        }
    } else {
        exists|magnitude: Result<nat, NumberError>| #[trigger]
            reads_up_to(s, 0x7fff_ffff, magnitude) && r == match magnitude {
                Ok(n) => Ok::<int, NumberError>(n as int),
                Err(e) => Err(e),
            }
    }
}

/// What reading an `i32` gives.
pub proof fn lemma_number_i32(s: Seq<char>)
    ensures
        reads_signed(s, decimal::number_i32(s)),
{
    if s.len() > 0 && s[0] == '-' {
        let digits = s.skip(1);
        lemma_digits(digits, 0x8000_0000, NumberError::NegOverflow);
        if is_digits(digits) {
            assert(digits.take(digits.len() as int) == digits);
            if value_of(digits) <= 0x8000_0000 {
                if passes(digits, 0x8000_0000) {
                    let k = choose|k: int|
                        0 < k <= digits.len() && is_digits(#[trigger] digits.take(k)) && value_of(
                            digits.take(k),
                        ) > 0x8000_0000;
                    lemma_value_grows(digits, k);
                }
            } else {
                assert(passes(digits, 0x8000_0000));
            }
        }
    } else if s.len() > 0 {
        lemma_reads_up_to(s, 0x7fff_ffff);
        assert(s.skip(0) == s);
        if after_plus(s).len() > 0 {
            assert(reads_up_to(
                s,
                0x7fff_ffff,
                decimal::digits_within(after_plus(s), 0x7fff_ffff, NumberError::PosOverflow),
            ));
        } else {
            assert(reads_up_to(s, 0x7fff_ffff, Err(NumberError::InvalidDigit)));
        }
    } else {
        assert(reads_up_to(s, 0x7fff_ffff, Err(NumberError::Empty)));
    }
}

/// Reading an `i32`: see `reads_signed`.
pub proof fn i32_is_read_from_sign_and_digits(s: &[char], r: Result<i32, NumberError>)
    requires
        call_ensures(parse_i32, (s,), r),
    ensures
        reads_signed(
            s@,
            match r {
                Ok(i) => Ok(i as int),
                Err(e) => Err(e),
            },
        ),
{
    lemma_number_i32(s@);
}

/// Whether `s` is `n` in decimal: digits that stand for it, without leading zeros.
pub open spec fn is_decimal(s: Seq<char>, n: nat) -> bool {
    &&& is_digits(s)
    &&& value_of(s) == n
    &&& s.len() > 1 ==> s[0] != '0'
}

/// A decimal is digits that stand for the number, without leading zeros.
pub proof fn lemma_decimal(n: nat)
    ensures
        is_decimal(decimal::decimal(n), n),
        n > 0 ==> decimal::decimal(n)[0] != '0',
    decreases n,
{
    let s = decimal::decimal(n);
    if n < 10 {
        assert(s.drop_last() == Seq::<char>::empty());
        assert(value_of(s.drop_last()) == 0);
    } else {
        lemma_decimal(n / 10);
        let t = decimal::decimal(n / 10);
        assert(s.drop_last() == t);
        assert(s[0] == t[0]);
        assert forall|i: int| 0 <= i < s.len() implies '0' <= #[trigger] s[i] <= '9' by {
            if i < t.len() {
                assert(s[i] == t[i]);
            }
        }
    }
}

/// A number is written as its decimal.
pub proof fn number_is_written_in_decimal(n: u128, r: String)
    requires
        call_ensures(format_unsigned, (n,), r),
    ensures
        is_decimal(r@, n as nat),
{
    lemma_decimal(n as nat);
}

/// A negative number is written as a minus sign and the decimal of its negative, any other as
/// its decimal.
pub proof fn signed_number_is_written_in_decimal(i: i32, r: String)
    requires
        call_ensures(format_signed, (i,), r),
    ensures
        i < 0 ==> r@.len() > 0 && r@[0] == '-' && is_decimal(r@.skip(1), (-(i as int)) as nat),
        i >= 0 ==> is_decimal(r@, i as nat),
{
    if i < 0 {
        lemma_decimal((-(i as int)) as nat);
        assert(r@.skip(1) == decimal::decimal((-(i as int)) as nat));
    } else {
        lemma_decimal(i as nat);
    }
}

} // verus!
