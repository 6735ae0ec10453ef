//! Text as sequences of characters: decimal numbers, ordering, lines, trimming.
//!
//! Every function here works on the characters of a string (`s@`), never on
//! its encoded bytes.
use vstd::prelude::*;

verus! {

/// `String::push` of std appends one character at the end and leaves the rest
/// as it was.
pub assume_specification[ String::push ](s: &mut String, c: char)
    ensures
        final(s)@ == old(s)@.push(c),
;

/// `char::is_whitespace` of std: whether the character has the Unicode
/// property `White_Space`, as the property list of Unicode gives it.
pub assume_specification[ char::is_whitespace ](c: char) -> (b: bool)
    ensures
        b == is_white_space(c),
;

/// The characters with the Unicode property `White_Space`.
pub open spec fn is_white_space(c: char) -> bool {
    ||| '\u{9}' <= c <= '\u{d}'
    ||| c == ' '
    ||| c == '\u{85}'
    ||| c == '\u{a0}'
    ||| c == '\u{1680}'
    ||| '\u{2000}' <= c <= '\u{200a}'
    ||| c == '\u{2028}'
    ||| c == '\u{2029}'
    ||| c == '\u{202f}'
    ||| c == '\u{205f}'
    ||| c == '\u{3000}'
}

/// The decimal digit `d`, for `d` from 0 to 9.
pub open spec fn digit(d: int) -> char {
    (48 + d) as char
}

/// `n` in decimal, without leading zeros.
pub open spec fn decimal(n: nat) -> Seq<char>
    decreases n,
{
    if n < 10 {
        seq![digit(n as int)]
    } else {
        decimal(n / 10).push(digit((n % 10) as int))
    }
}

/// `i` in decimal, with a minus sign in front when it is negative.
pub open spec fn signed_decimal(i: int) -> Seq<char> {
    if i < 0 {
        seq!['-'] + decimal((-i) as nat)
    } else {
        decimal(i as nat)
    }
}

/// `count` times the character `0`.
pub open spec fn zeros(count: nat) -> Seq<char> {
    Seq::new(count, |i: int| '0')
}

/// `n` in decimal, with zeros in front up to `width` characters.
pub open spec fn zero_padded(n: nat, width: nat) -> Seq<char> {
    if decimal(n).len() < width {
        zeros((width - decimal(n).len()) as nat) + decimal(n)
    } else {
        decimal(n)
    }
}

/// Whether every character is a decimal digit.
pub open spec fn all_digits(s: Seq<char>) -> bool {
    forall|i: int| 0 <= i < s.len() ==> '0' <= #[trigger] s[i] <= '9'
}

/// The number that a sequence of decimal digits denotes.
pub open spec fn digits_value(s: Seq<char>) -> nat
    decreases s.len(),
{
    if s.len() == 0 {
        0
    } else {
        digits_value(s.drop_last()) * 10 + (s.last() as nat - 48) as nat
    }
}

/// The characters of `s`, one by one.
pub fn chars_of(s: &str) -> (chars: Vec<char>)
    ensures
        chars@ == s@,
{
    let mut chars: Vec<char> = Vec::new();
    for c in it: s.chars()
        invariant
            it.seq() == s@,
            chars@ == s@.take(it.index()),
    {
        chars.push(c);
    }
    chars
}

/// Appends `n` in decimal.
pub fn push_decimal(out: &mut String, n: u64)
    ensures
        final(out)@ == old(out)@ + decimal(n as nat),
    decreases n,
{
    if n >= 10 {
        push_decimal(out, n / 10);
    }
    let d: u8 = (n % 10) as u8;
    out.push((48u8 + d) as char);
}

/// Appends `i` in decimal, with its sign when it is negative.
pub fn push_signed_decimal(out: &mut String, i: i64)
    ensures
        final(out)@ == old(out)@ + signed_decimal(i as int),
{
    if i < 0 {
        out.push('-');
        push_decimal(out, (-(i as i128)) as u64);
    } else {
        push_decimal(out, i as u64);
    }
}

/// Dropping the last digit of a padded number pads the rest to one less.
proof fn lemma_zero_padded_step(n: nat, width: nat)
    requires
        width > 1,
    ensures
        zero_padded(n, width) == zero_padded(n / 10, (width - 1) as nat).push(
            digit((n % 10) as int),
        ),
{
    if n < 10 {
        assert(n / 10 == 0);
        assert(zero_padded(n, width) =~= zero_padded(0, (width - 1) as nat).push(digit(n as int)));
    } else {
        assert(zero_padded(n, width) =~= zero_padded(n / 10, (width - 1) as nat).push(
            digit((n % 10) as int),
        ));
    }
}

/// Appends `n` in decimal, with zeros in front up to `width` characters.
pub fn push_zero_padded(out: &mut String, n: u64, width: u32)
    ensures
        final(out)@ == old(out)@ + zero_padded(n as nat, width as nat),
    decreases width,
{
    if width > 1 {
        proof {
            lemma_zero_padded_step(n as nat, width as nat);
        }
        push_zero_padded(out, n / 10, width - 1);
        let d: u8 = (n % 10) as u8;
        out.push((48u8 + d) as char);
    } else {
        push_decimal(out, n);
    }
}

/// The unsigned number that a text denotes: an optional plus sign, then one or
/// more decimal digits, whose value fits in 32 bits.
pub open spec fn parsed_u32(s: Seq<char>) -> Option<u32> {
    let digits = if s.len() > 0 && s[0] == '+' {
        s.skip(1)
    } else {
        s
    };
    if digits.len() > 0 && all_digits(digits) && digits_value(digits) <= u32::MAX {
        Some(digits_value(digits) as u32)
    } else {
        None
    }
}

/// More digits never make a smaller number.
proof fn lemma_digits_value_grows(s: Seq<char>, k: int)
    requires
        0 <= k <= s.len(),
    ensures
        digits_value(s.take(k)) <= digits_value(s),
    decreases s.len(),
{
    if k < s.len() {
        lemma_digits_value_grows(s.drop_last(), k);
        assert(s.drop_last().take(k) =~= s.take(k));
    } else {
        assert(s.take(k) =~= s);
    }
}

/// Reads an unsigned number from `chars[start..end]`.
pub fn parse_u32(chars: &Vec<char>, start: usize, end: usize) -> (value: Option<u32>)
    requires
        start <= end <= chars@.len(),
    ensures
        value == parsed_u32(chars@.subrange(start as int, end as int)),
{
    let ghost s = chars@.subrange(start as int, end as int);
    let mut i: usize = start;
    if i < end && chars[i] == '+' {
        i = i + 1;
    }
    let ghost digits = chars@.subrange(i as int, end as int);
    proof {
        assert(digits =~= if s.len() > 0 && s[0] == '+' {
            s.skip(1)
        } else {
            s
        });
    }
    if i == end {
        return None;
    }
    let first: usize = i;
    let mut total: u64 = 0;
    while i < end
        invariant
            start <= first <= i <= end <= chars@.len(),
            s == chars@.subrange(start as int, end as int),
            digits == chars@.subrange(first as int, end as int),
            all_digits(digits.take(i - first)),
            total == digits_value(digits.take(i - first)),
            total <= u32::MAX,
            digits.len() > 0,
            parsed_u32(s) == if digits.len() > 0 && all_digits(digits) && digits_value(digits)
                <= u32::MAX {
                Some(digits_value(digits) as u32)
            } else {
                None::<u32>
            },
        decreases end - i,
    {
        let c: char = chars[i];
        let ghost at = i - first;
        assert(digits[at] == c);
        if c < '0' || c > '9' {
            return None;
        }
        proof {
            assert(digits.take(at + 1).drop_last() =~= digits.take(at));
            assert(digits.take(at + 1).last() == c);
            lemma_digits_value_grows(digits, at + 1);
        }
        total = total * 10 + (c as u64 - 48);
        if total > 0xffff_ffff {
            return None;
        }
        i = i + 1;
    }
    proof {
        assert(digits.take(i - first) =~= digits);
    }
    Some(total as u32)
}

/// Whether `a` comes before `b` when strings are ordered character by
/// character: at the first place where they differ, `a` has ended or has the
/// smaller character.
pub open spec fn lex_less(a: Seq<char>, b: Seq<char>) -> bool {
    exists|k: int| #[trigger] lex_less_at(a, b, k)
}

/// `lex_less`, with the first place where the two differ.
pub open spec fn lex_less_at(a: Seq<char>, b: Seq<char>, k: int) -> bool {
    &&& 0 <= k <= a.len()
    &&& k < b.len()
    &&& a.take(k) == b.take(k)
    &&& k < a.len() ==> a[k] < b[k]
}

/// Whether `a` comes before `b` in the order of `lex_less`.
pub fn comes_before(a: &str, b: &str) -> (before: bool)
    ensures
        before == lex_less(a@, b@),
{
    let left: Vec<char> = chars_of(a);
    let right: Vec<char> = chars_of(b);
    let mut i: usize = 0;
    while i < left.len() && i < right.len() && left[i] == right[i]
        invariant
            left@ == a@,
            right@ == b@,
            i <= left@.len(),
            i <= right@.len(),
            a@.take(i as int) == b@.take(i as int),
        decreases left@.len() - i,
    {
        proof {
            assert(a@.take(i + 1) =~= a@.take(i as int).push(a@[i as int]));
            assert(b@.take(i + 1) =~= b@.take(i as int).push(b@[i as int]));
        }
        i = i + 1;
    }
    let before: bool = i < right.len() && (i == left.len() || left[i] < right[i]);
    proof {
        if before {
            assert(lex_less_at(a@, b@, i as int));
        } else {
            lemma_not_less_at(a@, b@, i as int);
        }
    }
    before
}

/// Where `a` agrees with `b` up to `i` and does not go on as a smaller string
/// there, it does not come before `b`.
proof fn lemma_not_less_at(a: Seq<char>, b: Seq<char>, i: int)
    requires
        0 <= i <= a.len(),
        i <= b.len(),
        a.take(i) == b.take(i),
        i == b.len() || (i < a.len() && a[i] > b[i]),
    ensures
        !lex_less(a, b),
{
    assert forall|k: int| !#[trigger] lex_less_at(a, b, k) by {
        if lex_less_at(a, b, k) {
            if k < i {
                assert(0 <= k < i <= a.len());
                assert(a.take(i)[k] == a[k]);
                assert(b.take(i)[k] == b[k]);
            } else if k > i {
                assert(a.take(k)[i] == b.take(k)[i]);
                assert(a[i] == b[i]);
            }
        }
    }
}

/// Whether `s` starts with `prefix`.
pub fn starts_with(s: &str, prefix: &str) -> (b: bool)
    ensures
        b == prefix@.is_prefix_of(s@),
{
    let whole: Vec<char> = chars_of(s);
    let start: Vec<char> = chars_of(prefix);
    if start.len() > whole.len() {
        return false;
    }
    matches_at(&whole, 0, &start)
}

/// Whether `part` stands in `whole` at place `at`.
pub fn matches_at(whole: &Vec<char>, at: usize, part: &Vec<char>) -> (b: bool)
    requires
        at + part@.len() <= whole@.len(),
    ensures
        b == (whole@.subrange(at as int, at + part@.len()) == part@),
{
    let size: usize = whole.len();
    let mut i: usize = 0;
    while i < part.len()
        invariant
            i <= part@.len(),
            size == whole@.len(),
            at + part@.len() <= whole@.len(),
            forall|j: int| 0 <= j < i ==> #[trigger] part@[j] == whole@[at + j],
        decreases part@.len() - i,
    {
        if whole[at + i] != part[i] {
            proof {
                assert(whole@.subrange(at as int, at + part@.len())[i as int] != part@[i as int]);
            }
            return false;
        }
        i = i + 1;
    }
    proof {
        assert(whole@.subrange(at as int, at + part@.len()) =~= part@);
    }
    true
}

/// Whether two strings hold the same characters.
pub fn same_text(a: &str, b: &str) -> (same: bool)
    ensures
        same == (a@ == b@),
{
    a.to_owned() == b.to_owned()
}

/// How many characters stand before the first newline of `s`; all of them,
/// when there is none.
pub open spec fn before_newline(s: Seq<char>) -> nat
    decreases s.len(),
{
    if s.len() == 0 || s[0] == '\n' {
        0
    } else {
        1 + before_newline(s.skip(1))
    }
}

/// `s` without a carriage return at its end.
pub open spec fn without_return(s: Seq<char>) -> Seq<char> {
    if s.len() > 0 && s.last() == '\r' {
        s.drop_last()
    } else {
        s
    }
}

/// The lines of a text. A line ends with a newline, or with a carriage return
/// and a newline, which are not part of it; the last one may end with the text.
pub open spec fn lines(s: Seq<char>) -> Seq<Seq<char>>
    decreases s.len(),
{
    let end = before_newline(s) as int;
    if s.len() == 0 {
        seq![]
    } else if end >= s.len() {
        seq![s]
    } else {
        seq![without_return(s.take(end))] + lines(s.skip(end + 1))
    }
}

/// What `before_newline` counts up to, by its place.
proof fn lemma_before_newline(s: Seq<char>, end: int)
    requires
        0 <= end <= s.len(),
        forall|j: int| 0 <= j < end ==> #[trigger] s[j] != '\n',
        end < s.len() ==> s[end] == '\n',
    ensures
        before_newline(s) == end,
    decreases s.len(),
{
    if end > 0 {
        let rest = s.skip(1);
        assert forall|j: int| 0 <= j < end - 1 implies #[trigger] rest[j] != '\n' by {
            assert(rest[j] == s[j + 1]);
        }
        lemma_before_newline(rest, end - 1);
    }
}

/// `before_newline` is the place of a newline, or the end.
proof fn lemma_before_newline_place(s: Seq<char>)
    ensures
        before_newline(s) <= s.len(),
        before_newline(s) < s.len() ==> s[before_newline(s) as int] == '\n',
        forall|j: int| 0 <= j < before_newline(s) ==> #[trigger] s[j] != '\n',
    decreases s.len(),
{
    if s.len() > 0 && s[0] != '\n' {
        let rest = s.skip(1);
        lemma_before_newline_place(rest);
        assert forall|j: int| 0 <= j < before_newline(s) implies #[trigger] s[j] != '\n' by {
            if j > 0 {
                assert(rest[j - 1] == s[j]);
            }
        }
    }
}

/// Whether `wanted` is one of the lines of `text`.
pub fn has_line(text: &str, wanted: &str) -> (found: bool)
    ensures
        found == lines(text@).contains(wanted@),
{
    let chars: Vec<char> = chars_of(text);
    let line: Vec<char> = chars_of(wanted);
    let mut start: usize = 0;
    proof {
        assert(chars@.skip(0) =~= text@);
    }
    while start < chars.len()
        invariant
            chars@ == text@,
            line@ == wanted@,
            start <= chars@.len(),
            lines(text@).contains(wanted@) == lines(chars@.skip(start as int)).contains(wanted@),
        decreases chars@.len() - start,
    {
        let ghost rest = chars@.skip(start as int);
        let mut end: usize = start;
        while end < chars.len() && chars[end] != '\n'
            invariant
                start <= end <= chars@.len(),
                rest == chars@.skip(start as int),
                forall|j: int| 0 <= j < end - start ==> #[trigger] rest[j] != '\n',
            decreases chars@.len() - end,
        {
            proof {
                assert(rest[end - start] == chars@[end as int]);
            }
            end = end + 1;
        }
        let ghost len = end - start;
        proof {
            lemma_before_newline(rest, len);
        }
        let ended: bool = end < chars.len();
        let mut stop: usize = end;
        if ended && end > start && chars[end - 1] == '\r' {
            stop = end - 1;
        }
        let ghost here = chars@.subrange(start as int, stop as int);
        proof {
            if ended {
                assert(rest.take(len) =~= chars@.subrange(start as int, end as int));
                assert(here =~= without_return(rest.take(len)));
                assert(rest.skip(len + 1) =~= chars@.skip(end + 1));
                lemma_contains_first(here, lines(chars@.skip(end + 1)), wanted@);
            } else {
                assert(here =~= rest);
                lemma_contains_first(here, seq![], wanted@);
                assert(seq![here] + seq![] =~= seq![here]);
            }
        }
        if stop - start == line.len() && matches_at(&chars, start, &line) {
            return true;
        }
        if !ended {
            return false;
        }
        start = end + 1;
    }
    proof {
        assert(chars@.skip(start as int).len() == 0);
    }
    false
}

/// Something is in a sequence if it is the first element or in the others.
proof fn lemma_contains_first<A>(first: A, others: Seq<A>, x: A)
    ensures
        (seq![first] + others).contains(x) == (first == x || others.contains(x)),
{
    let all = seq![first] + others;
    if first == x {
        assert(all[0] == x);
    }
    if others.contains(x) {
        let i = choose|i: int| 0 <= i < others.len() && others[i] == x;
        assert(all[i + 1] == x);
    }
    if all.contains(x) {
        let i = choose|i: int| 0 <= i < all.len() && all[i] == x;
        if i > 0 {
            assert(others[i - 1] == x);
        }
    }
}

/// `s` without the whitespace at its start.
pub open spec fn trim_start(s: Seq<char>) -> Seq<char>
    decreases s.len(),
{
    if s.len() > 0 && is_white_space(s[0]) {
        trim_start(s.skip(1))
    } else {
        s
    }
}

/// `s` without the whitespace at its end.
pub open spec fn trim_end(s: Seq<char>) -> Seq<char>
    decreases s.len(),
{
    if s.len() > 0 && is_white_space(s.last()) {
        trim_end(s.drop_last())
    } else {
        s
    }
}

/// `s` without the whitespace at its two ends.
pub open spec fn trim(s: Seq<char>) -> Seq<char> {
    trim_end(trim_start(s))
}

/// The part of `s` between the whitespace at its two ends.
pub fn trimmed<'a>(s: &'a str) -> (middle: &'a str)
    ensures
        middle@ == trim(s@),
{
    let chars: Vec<char> = chars_of(s);
    let mut start: usize = 0;
    proof {
        assert(s@.skip(0) =~= s@);
    }
    while start < chars.len() && chars[start].is_whitespace()
        invariant
            chars@ == s@,
            start <= chars@.len(),
            trim_start(s@) == trim_start(s@.skip(start as int)),
        decreases chars@.len() - start,
    {
        proof {
            assert(s@.skip(start as int).skip(1) =~= s@.skip(start + 1));
        }
        start = start + 1;
    }
    let mut end: usize = chars.len();
    proof {
        assert(s@.subrange(start as int, end as int) =~= s@.skip(start as int));
    }
    while end > start && chars[end - 1].is_whitespace()
        invariant
            chars@ == s@,
            start <= end <= chars@.len(),
            trim(s@) == trim_end(s@.subrange(start as int, end as int)),
        decreases end,
    {
        proof {
            assert(s@.subrange(start as int, end as int).drop_last() =~= s@.subrange(
                start as int,
                end - 1,
            ));
        }
        end = end - 1;
    }
    s.substring_char(start, end)
}

/// A number in decimal is made of digits, and they denote it.
pub proof fn law_decimal_denotes(n: nat)
    ensures
        decimal(n).len() > 0,
        all_digits(decimal(n)),
        digits_value(decimal(n)) == n,
    decreases n,
{
    reveal_with_fuel(digits_value, 2);
    if n < 10 {
        assert(decimal(n).drop_last() =~= seq![]);
    } else {
        law_decimal_denotes(n / 10);
        assert(decimal(n).drop_last() =~= decimal(n / 10));
        assert forall|i: int| 0 <= i < decimal(n).len() implies '0' <= #[trigger] decimal(n)[i]
            <= '9' by {
            if i < decimal(n).len() - 1 {
                assert(decimal(n)[i] == decimal(n / 10)[i]);
            }
        }
    }
}

/// Zeros in front do not change what digits denote.
proof fn lemma_leading_zeros(count: nat, s: Seq<char>)
    ensures
        digits_value(zeros(count) + s) == digits_value(s),
    decreases count + s.len(),
{
    let all = zeros(count) + s;
    if s.len() > 0 {
        lemma_leading_zeros(count, s.drop_last());
        assert(all.drop_last() =~= zeros(count) + s.drop_last());
    } else if count > 0 {
        lemma_leading_zeros((count - 1) as nat, s);
        assert(all.drop_last() =~= zeros((count - 1) as nat) + s);
    }
}

/// A padded number is made of digits, as many as it is padded to, and they
/// denote it.
pub proof fn law_zero_padded_denotes(n: nat, width: nat)
    ensures
        zero_padded(n, width).len() > 0,
        zero_padded(n, width).len() >= width,
        all_digits(zero_padded(n, width)),
        digits_value(zero_padded(n, width)) == n,
{
    law_decimal_denotes(n);
    if decimal(n).len() < width {
        let count = (width - decimal(n).len()) as nat;
        lemma_leading_zeros(count, decimal(n));
        assert forall|i: int| 0 <= i < zero_padded(n, width).len() implies '0'
            <= #[trigger] zero_padded(n, width)[i] <= '9' by {
            if i >= count {
                assert(zero_padded(n, width)[i] == decimal(n)[i - count]);
            }
        }
    }
}

/// A padded number is read back.
pub proof fn law_zero_padded_is_read_back(n: u32, width: nat)
    ensures
        parsed_u32(zero_padded(n as nat, width)) == Some(n),
{
    law_zero_padded_denotes(n as nat, width);
    assert('0' <= zero_padded(n as nat, width)[0]);
}

/// Whether a text holds no newline.
pub open spec fn is_one_line(s: Seq<char>) -> bool {
    forall|i: int| 0 <= i < s.len() ==> #[trigger] s[i] != '\n'
}

/// Whether a text is on one line.
pub fn on_one_line(s: &str) -> (b: bool)
    ensures
        b == is_one_line(s@),
{
    let chars: Vec<char> = chars_of(s);
    let mut i: usize = 0;
    while i < chars.len()
        invariant
            chars@ == s@,
            i <= chars@.len(),
            forall|j: int| 0 <= j < i ==> #[trigger] chars@[j] != '\n',
        decreases chars@.len() - i,
    {
        if chars[i] == '\n' {
            return false;
        }
        i = i + 1;
    }
    true
}

/// Two texts of one line make one, put together.
pub proof fn lemma_one_line_together(a: Seq<char>, b: Seq<char>)
    requires
        is_one_line(a),
        is_one_line(b),
    ensures
        is_one_line(a + b),
{
    assert forall|i: int| 0 <= i < (a + b).len() implies #[trigger] (a + b)[i] != '\n' by {
        if i < a.len() {
            assert((a + b)[i] == a[i]);
        } else {
            assert((a + b)[i] == b[i - a.len()]);
        }
    }
}

/// The lines of two texts put together are those of the one and then those of
/// the other, where the first ends with its last line.
pub proof fn lemma_lines_together(a: Seq<char>, b: Seq<char>)
    requires
        a.len() == 0 || a.last() == '\n',
    ensures
        lines(a + b) == lines(a) + lines(b),
    decreases a.len(),
{
    if a.len() == 0 {
        assert(a + b =~= b);
        assert(lines(a) + lines(b) =~= lines(b));
    } else {
        let end = before_newline(a) as int;
        lemma_before_newline_place(a);
        assert(end < a.len());
        assert forall|j: int| 0 <= j < end implies #[trigger] (a + b)[j] != '\n' by {
            assert((a + b)[j] == a[j]);
        }
        assert((a + b)[end] == a[end]);
        lemma_before_newline(a + b, end);
        let rest = a.skip(end + 1);
        assert((a + b).take(end) =~= a.take(end));
        assert((a + b).skip(end + 1) =~= rest + b);
        if rest.len() > 0 {
            assert(rest.last() == a.last());
        }
        lemma_lines_together(rest, b);
        assert(lines(a + b) =~= lines(a) + lines(b));
    }
}

/// Ending a text with a newline ends its last line, which loses a carriage return
/// at its end; after a newline it makes one more line, an empty one.
pub proof fn lemma_ended_lines(s: Seq<char>)
    ensures
        s.len() == 0 || s.last() == '\n' ==> lines(s + seq!['\n']) == lines(s).push(seq![]),
        s.len() > 0 && s.last() != '\n' ==> lines(s).len() > 0 && lines(s + seq!['\n']) == lines(
            s,
        ).drop_last().push(without_return(lines(s).last())),
    decreases s.len(),
{
    let newline = seq!['\n'];
    if s.len() == 0 || s.last() == '\n' {
        lemma_single_line(seq![]);
        lemma_lines_together(s, newline);
        assert(Seq::<char>::empty() + newline =~= newline);
        assert(lines(s + newline) =~= lines(s).push(seq![]));
    } else {
        let end = before_newline(s) as int;
        lemma_before_newline_place(s);
        let text = s + newline;
        assert forall|j: int| 0 <= j < end implies #[trigger] text[j] != '\n' by {
            assert(text[j] == s[j]);
        }
        lemma_before_newline(text, end);
        assert(text.take(end) =~= s.take(end));
        if end < s.len() {
            let rest = s.skip(end + 1);
            assert(rest.last() == s.last());
            assert(text.skip(end + 1) =~= rest + newline);
            lemma_ended_lines(rest);
            assert(lines(text) =~= lines(s).drop_last().push(without_return(lines(s).last())));
        } else {
            reveal_with_fuel(lines, 2);
            assert(s.take(end) =~= s);
            assert(text.skip(end + 1) =~= seq![]);
            assert(lines(text) =~= seq![without_return(s)]);
            assert(lines(s).drop_last() =~= seq![]);
        }
    }
}

/// A line of a text that was ended with a newline starts with something only
/// where a line of the text does.
pub proof fn lemma_starts_of_ended_lines(s: Seq<char>, start: Seq<char>, i: int)
    requires
        start.len() > 0,
        0 <= i < lines(s + seq!['\n']).len(),
        start.is_prefix_of(lines(s + seq!['\n'])[i]),
    ensures
        exists|j: int| 0 <= j < lines(s).len() && start.is_prefix_of(#[trigger] lines(s)[j]),
{
    lemma_ended_lines(s);
    let line = lines(s + seq!['\n'])[i];
    assert(line.len() > 0);
    assert(i < lines(s).len());
    assert(lines(s)[i].subrange(0, start.len() as int) =~= line.subrange(0, start.len() as int));
    assert(start.is_prefix_of(lines(s)[i]));
}

/// A text of one line, ended by a newline, has that one line.
pub proof fn lemma_single_line(line: Seq<char>)
    requires
        is_one_line(line),
        line.len() == 0 || line.last() != '\r',
    ensures
        lines(line + seq!['\n']) == seq![line],
{
    let text = line + seq!['\n'];
    let end = line.len() as int;
    reveal_with_fuel(lines, 2);
    assert forall|j: int| 0 <= j < end implies #[trigger] text[j] != '\n' by {
        assert(text[j] == line[j]);
    }
    lemma_before_newline(text, end);
    assert(text.take(end) =~= line);
    assert(text.skip(end + 1) =~= seq![]);
    assert(lines(text) =~= seq![line]);
}

/// A number in decimal is on one line.
pub proof fn lemma_signed_decimal_is_one_line(i: int)
    ensures
        is_one_line(signed_decimal(i)),
{
    if i < 0 {
        law_decimal_denotes((-i) as nat);
        lemma_one_line_together(seq!['-'], decimal((-i) as nat));
    } else {
        law_decimal_denotes(i as nat);
    }
}

/// A padded number is on one line.
pub proof fn lemma_zero_padded_is_one_line(n: nat, width: nat)
    ensures
        is_one_line(zero_padded(n, width)),
{
    law_zero_padded_denotes(n, width);
}

/// No string comes before itself.
pub proof fn law_lex_less_is_irreflexive(a: Seq<char>)
    ensures
        !lex_less(a, a),
{
    lemma_not_less_at(a, a, a.len() as int);
}

/// What comes before something comes before what follows that.
pub proof fn law_lex_less_is_transitive(a: Seq<char>, b: Seq<char>, c: Seq<char>)
    requires
        lex_less(a, b),
        lex_less(b, c),
    ensures
        lex_less(a, c),
{
    let i = choose|i: int| #[trigger] lex_less_at(a, b, i);
    let j = choose|j: int| #[trigger] lex_less_at(b, c, j);
    let k = if i < j {
        i
    } else {
        j
    };
    assert(a.take(k) =~= a.take(i).take(k));
    assert(b.take(k) =~= b.take(i).take(k));
    assert(b.take(k) =~= b.take(j).take(k));
    assert(c.take(k) =~= c.take(j).take(k));
    if i < j {
        assert(b.take(j)[i] == c.take(j)[i]);
    }
    if j < i {
        assert(a.take(i)[j] == b.take(i)[j]);
    }
    assert(lex_less_at(a, c, k));
}

/// Of two strings that differ, one comes before the other.
pub proof fn law_lex_less_is_total(a: Seq<char>, b: Seq<char>)
    ensures
        a == b || lex_less(a, b) || lex_less(b, a),
{
    assert(a.take(0) =~= b.take(0));
    lemma_total_from(a, b, 0);
}

/// Two strings that agree up to `k` are the same, or one comes before the other.
proof fn lemma_total_from(a: Seq<char>, b: Seq<char>, k: int)
    requires
        0 <= k <= a.len(),
        k <= b.len(),
        a.take(k) == b.take(k),
    ensures
        a == b || lex_less(a, b) || lex_less(b, a),
    decreases a.len() - k,
{
    if k < a.len() && k < b.len() {
        if a[k] < b[k] {
            assert(lex_less_at(a, b, k));
        } else if b[k] < a[k] {
            assert(lex_less_at(b, a, k));
        } else {
            assert(a.take(k + 1) =~= a.take(k).push(a[k]));
            assert(b.take(k + 1) =~= b.take(k).push(b[k]));
            lemma_total_from(a, b, k + 1);
        }
    } else if k < b.len() {
        assert(lex_less_at(a, b, k));
    } else if k < a.len() {
        assert(lex_less_at(b, a, k));
    } else {
        assert(a.take(k) =~= a);
        assert(b.take(k) =~= b);
    }
}

/// The order of two strings after a common start is that of the rest.
pub proof fn lemma_less_after_same_start(start: Seq<char>, a: Seq<char>, b: Seq<char>)
    requires
        lex_less(a, b),
    ensures
        lex_less(start + a, start + b),
{
    let k = choose|k: int| #[trigger] lex_less_at(a, b, k);
    let at = start.len() + k;
    assert((start + a).take(at) =~= start + a.take(k));
    assert((start + b).take(at) =~= start + b.take(k));
    assert(lex_less_at(start + a, start + b, at));
}

/// Two fields of one width decide the order of what they start.
pub proof fn lemma_less_by_field(a: Seq<char>, b: Seq<char>, x: Seq<char>, y: Seq<char>)
    requires
        a.len() == b.len(),
        lex_less(a, b) || (a == b && lex_less(x, y)),
    ensures
        lex_less(a + x, b + y),
{
    if lex_less(a, b) {
        let k = choose|k: int| #[trigger] lex_less_at(a, b, k);
        assert((a + x).take(k) =~= a.take(k));
        assert((b + y).take(k) =~= b.take(k));
        assert((b + y)[k] == b[k]);
        assert((a + x)[k] == a[k]);
        assert(lex_less_at(a + x, b + y, k));
    } else {
        lemma_less_after_same_start(a, x, y);
    }
}

/// A string comes before any that it starts.
pub proof fn lemma_less_than_longer(a: Seq<char>, rest: Seq<char>)
    requires
        rest.len() > 0,
    ensures
        lex_less(a, a + rest),
{
    let k = a.len() as int;
    assert((a + rest).take(k) =~= a.take(k));
    assert(lex_less_at(a, a + rest, k));
}

/// Numbers padded to one width are ordered as numbers.
pub proof fn lemma_padded_order(n: nat, m: nat, width: nat)
    requires
        n < m,
        width > 0,
        zero_padded(n, width).len() == width,
        zero_padded(m, width).len() == width,
    ensures
        lex_less(zero_padded(n, width), zero_padded(m, width)),
    decreases width,
{
    let a = zero_padded(n, width);
    let b = zero_padded(m, width);
    if width == 1 {
        assert(decimal(n).len() == 1 && decimal(m).len() == 1);
        law_decimal_denotes(n / 10);
        law_decimal_denotes(m / 10);
        assert(n < 10 && m < 10);
        assert(a.take(0) =~= b.take(0));
        assert(lex_less_at(a, b, 0));
    } else {
        lemma_zero_padded_step(n, width);
        lemma_zero_padded_step(m, width);
        let x = zero_padded(n / 10, (width - 1) as nat);
        let y = zero_padded(m / 10, (width - 1) as nat);
        let last_n = seq![digit((n % 10) as int)];
        let last_m = seq![digit((m % 10) as int)];
        assert(a =~= x + last_n);
        assert(b =~= y + last_m);
        if n / 10 < m / 10 {
            lemma_padded_order(n / 10, m / 10, (width - 1) as nat);
        } else {
            assert(n / 10 == m / 10);
            assert(last_n.take(0) =~= last_m.take(0));
            assert(lex_less_at(last_n, last_m, 0));
        }
        lemma_less_by_field(x, y, last_n, last_m);
    }
}

/// Numbers of at most two, or four, digits fill exactly that width.
pub proof fn lemma_padded_width(n: nat)
    ensures
        n < 100 ==> zero_padded(n, 2).len() == 2,
        n < 10000 ==> zero_padded(n, 4).len() == 4,
{
    reveal_with_fuel(decimal, 4);
}

/// What digits denote, built up from the left: nothing denotes 0, and one more
/// digit makes ten times as much and the digit.
pub proof fn law_digits_count_in_tens(s: Seq<char>, c: char)
    requires
        '0' <= c <= '9',
    ensures
        digits_value(seq![]) == 0,
        digits_value(s.push(c)) == 10 * digits_value(s) + (c as int - '0' as int),
{
    assert(s.push(c).drop_last() =~= s);
}

/// A number in decimal has no zero in front, unless it is 0, which is one digit.
pub proof fn law_decimal_has_no_leading_zero(n: nat)
    ensures
        n > 0 ==> decimal(n)[0] != '0',
        decimal(0) == seq!['0'],
    decreases n,
{
    if n >= 10 {
        law_decimal_denotes(n / 10);
        law_decimal_has_no_leading_zero(n / 10);
        assert(decimal(n)[0] == decimal(n / 10)[0]);
    }
}

/// A negative number is written as a minus sign and the digits of what it lacks
/// to 0, any other as its digits alone. What is written tells the number.
pub proof fn law_signed_decimal_tells_the_number(i: int)
    ensures
        i < 0 ==> signed_decimal(i).len() > 1 && signed_decimal(i)[0] == '-' && all_digits(
            signed_decimal(i).skip(1),
        ) && digits_value(signed_decimal(i).skip(1)) == -i && signed_decimal(i)[1] != '0',
        i >= 0 ==> signed_decimal(i).len() > 0 && all_digits(signed_decimal(i)) && digits_value(
            signed_decimal(i),
        ) == i && (i > 0 ==> signed_decimal(i)[0] != '0') && (i == 0 ==> signed_decimal(i).len()
            == 1),
{
    if i < 0 {
        law_decimal_denotes((-i) as nat);
        law_decimal_has_no_leading_zero((-i) as nat);
        assert(signed_decimal(i).skip(1) =~= decimal((-i) as nat));
    } else {
        law_decimal_denotes(i as nat);
        law_decimal_has_no_leading_zero(i as nat);
    }
}

/// A padded number is as long as it is padded to, and longer only where the
/// number itself is; then there is no zero in front.
pub proof fn law_zero_padded_is_as_long_as_needed(n: nat, width: nat)
    ensures
        zero_padded(n, width).len() >= width,
        zero_padded(n, width).len() > width && width > 0 ==> zero_padded(n, width)[0] != '0',
        width == 0 ==> zero_padded(n, width) == decimal(n),
{
    law_decimal_denotes(n);
    law_decimal_has_no_leading_zero(n);
    if decimal(n).len() > width && width > 0 {
        assert(n > 0) by {
            if n == 0 {
                assert(decimal(0).len() == 1);
            }
        }
    }
}

/// A text of digits is read as the number that it denotes, with or without a plus
/// sign in front, where that fits in 32 bits; where it does not, and where there
/// is no digit, or anything else than digits, nothing is read.
pub proof fn law_numbers_are_read(s: Seq<char>)
    ensures
        s.len() > 0 && (forall|i: int| 0 <= i < s.len() ==> '0' <= #[trigger] s[i] <= '9') ==> {
            &&& digits_value(s) <= u32::MAX ==> parsed_u32(s) == Some(digits_value(s) as u32)
                && parsed_u32(seq!['+'] + s) == Some(digits_value(s) as u32)
            &&& digits_value(s) > u32::MAX ==> parsed_u32(s) is None && parsed_u32(
                seq!['+'] + s,
            ) is None
        },
        (exists|i: int| 0 <= i < s.len() && !('0' <= #[trigger] s[i] <= '9')) ==> parsed_u32(
            seq!['+'] + s,
        ) is None && (s[0] != '+' ==> parsed_u32(s) is None),
        parsed_u32(seq![]) is None,
        parsed_u32(seq!['+']) is None,
{
    let signed = seq!['+'] + s;
    assert(signed.skip(1) =~= s);
    assert(seq!['+'].skip(1) =~= seq![]);
    if s.len() > 0 && (forall|i: int| 0 <= i < s.len() ==> '0' <= #[trigger] s[i] <= '9') {
        assert('0' <= s[0]);
    }
}

/// Where two texts first differ, the one with the smaller character comes first,
/// whatever follows; and a text comes before what goes on from it.
pub proof fn law_the_first_difference_decides(
    start: Seq<char>,
    c: char,
    d: char,
    x: Seq<char>,
    y: Seq<char>,
)
    requires
        c < d,
    ensures
        lex_less(start.push(c) + x, start.push(d) + y),
        !lex_less(start.push(d) + y, start.push(c) + x),
        lex_less(start, start.push(c) + x),
        !lex_less(start.push(c) + x, start),
{
    let a = start.push(c) + x;
    let b = start.push(d) + y;
    let k = start.len() as int;
    assert(a.take(k) =~= start);
    assert(b.take(k) =~= start);
    assert(start.take(k) =~= start);
    assert(lex_less_at(a, b, k));
    assert(lex_less_at(start, a, k));
    lemma_not_less_at(b, a, k);
    lemma_not_less_at(a, start, k);
}

/// A text without a newline is one line, unless it is empty, which is none. Up to
/// its first newline a text is one line, which a carriage return right before the
/// newline is no part of; the rest has the other lines.
pub proof fn law_lines_end_with_newlines(line: Seq<char>, rest: Seq<char>)
    requires
        forall|i: int| 0 <= i < line.len() ==> #[trigger] line[i] != '\n',
    ensures
        lines(seq![]) == Seq::<Seq<char>>::empty(),
        line.len() > 0 ==> lines(line) == seq![line],
        line.len() == 0 || line.last() != '\r' ==> lines(line + seq!['\n'] + rest) == seq![line]
            + lines(rest),
        lines(line + seq!['\r', '\n'] + rest) == seq![line] + lines(rest),
{
    lemma_before_newline(line, line.len() as int);
    let plain = line + seq!['\n'];
    let ended = line.push('\r');
    let returned = ended + seq!['\n'];
    if line.len() == 0 || line.last() != '\r' {
        lemma_single_line(line);
        lemma_lines_together(plain, rest);
    }
    assert forall|i: int| 0 <= i < ended.len() implies #[trigger] ended[i] != '\n' by {
        if i < line.len() {
            assert(ended[i] == line[i]);
        }
    }
    assert forall|i: int| 0 <= i < ended.len() implies #[trigger] returned[i] != '\n' by {
        assert(returned[i] == ended[i]);
    }
    lemma_before_newline(returned, ended.len() as int);
    reveal_with_fuel(lines, 2);
    assert(returned.take(ended.len() as int) =~= ended);
    assert(ended.drop_last() =~= line);
    assert(returned.skip((ended.len() + 1) as int) =~= seq![]);
    assert(lines(returned) =~= seq![line]);
    lemma_lines_together(returned, rest);
    assert(line + seq!['\r', '\n'] + rest =~= returned + rest);
}

/// Trimming takes away whitespace at the two ends and nothing else: what is taken
/// away is whitespace, and what is left neither starts nor ends with any.
pub proof fn law_trimming_takes_whitespace_only(s: Seq<char>)
    ensures
        exists|start: int, end: int|
            #![trigger s.subrange(start, end)]
            {
                &&& 0 <= start <= end <= s.len()
                &&& trim(s) == s.subrange(start, end)
                &&& forall|i: int|
                    0 <= i < s.len() && (i < start || end <= i) ==> is_white_space(#[trigger] s[i])
            },
        trim(s).len() > 0 ==> !is_white_space(trim(s)[0]) && !is_white_space(trim(s).last()),
{
    let start = lemma_trim_start(s);
    let middle = trim_start(s);
    let left = lemma_trim_end(middle);
    let end = start + left;
    assert(trim(s) =~= s.subrange(start, end));
    assert forall|i: int| 0 <= i < s.len() && (i < start || end <= i) implies is_white_space(
        #[trigger] s[i],
    ) by {
        if end <= i {
            assert(middle[i - start] == s[i]);
        }
    }
    if trim(s).len() > 0 {
        assert(trim(s)[0] == middle[0]);
    }
}

/// How much whitespace a text starts with.
proof fn lemma_trim_start(s: Seq<char>) -> (start: int)
    ensures
        0 <= start <= s.len(),
        trim_start(s) == s.skip(start),
        forall|i: int| 0 <= i < start ==> is_white_space(#[trigger] s[i]),
        trim_start(s).len() > 0 ==> !is_white_space(trim_start(s)[0]),
    decreases s.len(),
{
    if s.len() > 0 && is_white_space(s[0]) {
        let rest = s.skip(1);
        let more = lemma_trim_start(rest);
        assert(rest.skip(more) =~= s.skip(more + 1));
        assert forall|i: int| 0 <= i < more + 1 implies is_white_space(#[trigger] s[i]) by {
            if i > 0 {
                assert(rest[i - 1] == s[i]);
            }
        }
        more + 1
    } else {
        assert(s.skip(0) =~= s);
        0
    }
}

/// Where the whitespace that a text ends with starts.
proof fn lemma_trim_end(s: Seq<char>) -> (end: int)
    ensures
        0 <= end <= s.len(),
        trim_end(s) == s.take(end),
        forall|i: int| end <= i < s.len() ==> is_white_space(#[trigger] s[i]),
        trim_end(s).len() > 0 ==> !is_white_space(trim_end(s).last()),
    decreases s.len(),
{
    if s.len() > 0 && is_white_space(s.last()) {
        let rest = s.drop_last();
        let end = lemma_trim_end(rest);
        assert(rest.take(end) =~= s.take(end));
        assert forall|i: int| end <= i < s.len() implies is_white_space(#[trigger] s[i]) by {
            if i < s.len() - 1 {
                assert(rest[i] == s[i]);
            }
        }
        end
    } else {
        assert(s.take(s.len() as int) =~= s);
        s.len() as int
    }
}

/// Whether a text holds a part, in one piece.
pub open spec fn has_part(text: Seq<char>, part: Seq<char>) -> bool {
    exists|at: int|
        0 <= at && at + part.len() <= text.len() && #[trigger] text.subrange(at, at + part.len())
            == part
}

/// A text holds what stands between any two others in it.
pub proof fn lemma_has_part(before: Seq<char>, part: Seq<char>, after: Seq<char>)
    ensures
        has_part(before + part + after, part),
{
    let text = before + part + after;
    let at = before.len() as int;
    assert(text.subrange(at, at + part.len()) =~= part);
}

/// A text is on one line exactly where it has no newline in it; then it has at most
/// one line.
pub proof fn law_one_line_has_no_newline(s: Seq<char>)
    ensures
        is_one_line(s) <==> !s.contains('\n'),
        is_one_line(s) ==> lines(s).len() <= 1,
{
    if is_one_line(s) {
        lemma_before_newline(s, s.len() as int);
    }
    if exists|i: int| 0 <= i < s.len() && #[trigger] s[i] == '\n' {
        assert(s.contains('\n'));
    }
}

} // verus!
