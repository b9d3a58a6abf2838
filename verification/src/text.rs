//! Working with text: numbers in decimal, padding, trimming, splitting
//! into words and lines, and searching.

use vstd::prelude::*;
use crate::strings::{chars_of, push_char, string_of};

verus! {

/// The character for a digit below ten.
pub open spec fn digit_char(d: nat) -> char {
    (48 + d) as char
}

/// A number in decimal, without leading zeros.
pub open spec fn decimal(n: nat) -> Seq<char>
    decreases n,
{
    if n < 10 {
        seq![digit_char(n)]
    } else {
        decimal(n / 10).push(digit_char(n % 10))
    }
}

/// `count` blanks.
pub open spec fn blanks(count: int) -> Seq<char> {
    Seq::new(
        if count > 0 {
            count as nat
        } else {
            0
        },
        |i: int| ' ',
    )
}

/// `count` zeros.
pub open spec fn zeros(count: int) -> Seq<char> {
    Seq::new(
        if count > 0 {
            count as nat
        } else {
            0
        },
        |i: int| '0',
    )
}

/// The text with blanks in front of it up to `width` characters.
pub open spec fn right_aligned(text: Seq<char>, width: int) -> Seq<char> {
    blanks(width - text.len()) + text
}

/// The text with blanks behind it up to `width` characters.
pub open spec fn left_aligned(text: Seq<char>, width: int) -> Seq<char> {
    text + blanks(width - text.len())
}

/// The text with zeros in front of it up to `width` characters.
pub open spec fn zero_padded(text: Seq<char>, width: int) -> Seq<char> {
    zeros(width - text.len()) + text
}

/// The decimal form of a number.
pub fn decimal_string(n: u128) -> (s: String)
    ensures
        s@ == decimal(n as nat),
{
    let mut reversed: Vec<char> = Vec::new();
    let mut rest = n;
    while rest >= 10
        invariant
            forall|tail: Seq<char>| #[trigger]
                (decimal(n as nat) + tail) == decimal(rest as nat) + reversed@.reverse() + tail,
        decreases rest,
    {
        let d = (rest % 10) as u8;
        let ghost before = reversed@;
        reversed.push((48u8 + d) as char);
        proof {
            assert forall|tail: Seq<char>| #[trigger]
                (decimal(n as nat) + tail) == decimal((rest / 10) as nat) + reversed@.reverse()
                    + tail by {
                assert(reversed@.reverse() =~= seq![digit_char((rest % 10) as nat)]
                    + before.reverse());
                assert(decimal(rest as nat) + before.reverse() + tail =~= decimal(
                    (rest / 10) as nat,
                ) + reversed@.reverse() + tail);
            }
        }
        rest = rest / 10;
    }
    let mut s = String::new();
    push_char(&mut s, (48u8 + (rest as u8)) as char);
    let mut i = reversed.len();
    while i > 0
        invariant
            i <= reversed.len(),
            rest < 10,
            s@ == decimal(rest as nat) + reversed@.reverse().take(reversed.len() - i),
        decreases i,
    {
        i = i - 1;
        push_char(&mut s, reversed[i]);
        proof {
            assert(s@ =~= decimal(rest as nat) + reversed@.reverse().take(reversed.len() - i));
        }
    }
    proof {
        assert(reversed@.reverse().take(reversed.len() as int) =~= reversed@.reverse());
        assert(decimal(n as nat) + Seq::<char>::empty() =~= decimal(n as nat));
        assert(decimal(rest as nat) + reversed@.reverse() + Seq::<char>::empty() =~= s@);
    }
    s
}

/// Appends `count` times the character `c`.
pub fn push_repeated(s: &mut String, c: char, count: usize)
    ensures
        final(s)@ == old(s)@ + Seq::new(count as nat, |i: int| c),
{
    let mut i: usize = 0;
    while i < count
        invariant
            i <= count,
            s@ == old(s)@ + Seq::new(i as nat, |k: int| c),
        decreases count - i,
    {
        push_char(s, c);
        i = i + 1;
        proof {
            assert(s@ =~= old(s)@ + Seq::new(i as nat, |k: int| c));
        }
    }
}

/// Appends a number in decimal.
pub fn push_decimal(s: &mut String, n: u64)
    ensures
        final(s)@ == old(s)@ + decimal(n as nat),
{
    let d = decimal_string(n as u128);
    s.append(d.as_str());
}

/// Appends a number of any size in decimal.
pub fn push_decimal_wide(s: &mut String, n: u128)
    ensures
        final(s)@ == old(s)@ + decimal(n as nat),
{
    let d = decimal_string(n);
    s.append(d.as_str());
}

/// Appends the characters.
pub fn push_chars(s: &mut String, chars: &Vec<char>)
    ensures
        final(s)@ == old(s)@ + chars@,
{
    let mut i: usize = 0;
    while i < chars.len()
        invariant
            i <= chars.len(),
            s@ == old(s)@ + chars@.take(i as int),
        decreases chars.len() - i,
    {
        push_char(s, chars[i]);
        i = i + 1;
        proof {
            assert(s@ =~= old(s)@ + chars@.take(i as int));
        }
    }
    proof {
        assert(chars@.take(chars.len() as int) =~= chars@);
    }
}

/// Appends a number in decimal, with blanks in front up to `width`
/// characters.
pub fn push_decimal_right(s: &mut String, n: u64, width: usize)
    ensures
        final(s)@ == old(s)@ + right_aligned(decimal(n as nat), width as int),
{
    let d = decimal_string(n as u128);
    let len = d.as_str().unicode_len();
    if len < width {
        push_repeated(s, ' ', width - len);
    }
    s.append(d.as_str());
    proof {
        assert(s@ =~= old(s)@ + right_aligned(decimal(n as nat), width as int));
    }
}

/// Appends a number in decimal, with zeros in front up to `width`
/// characters.
pub fn push_decimal_zeros(s: &mut String, n: u64, width: usize)
    ensures
        final(s)@ == old(s)@ + zero_padded(decimal(n as nat), width as int),
{
    let d = decimal_string(n as u128);
    let len = d.as_str().unicode_len();
    if len < width {
        push_repeated(s, '0', width - len);
    }
    s.append(d.as_str());
    proof {
        assert(s@ =~= old(s)@ + zero_padded(decimal(n as nat), width as int));
    }
}

/// Appends a text, with blanks behind it up to `width` characters.
pub fn push_left(s: &mut String, text: &str, width: usize)
    ensures
        final(s)@ == old(s)@ + left_aligned(text@, width as int),
{
    let len = text.unicode_len();
    s.append(text);
    if len < width {
        push_repeated(s, ' ', width - len);
    }
    proof {
        assert(s@ =~= old(s)@ + left_aligned(text@, width as int));
    }
}

/// The character is white space in the sense of Unicode.
pub open spec fn is_space(c: char) -> bool {
    let v = c as u32;
    (0x09 <= v <= 0x0D) || v == 0x20 || v == 0x85 || v == 0xA0 || v == 0x1680 || (0x2000 <= v
        <= 0x200A) || v == 0x2028 || v == 0x2029 || v == 0x202F || v == 0x205F || v == 0x3000
}

/// Tells whether a character is white space.
pub fn is_whitespace(c: char) -> (r: bool)
    ensures
        r == is_space(c),
{
    let v = c as u32;
    (0x09 <= v && v <= 0x0D) || v == 0x20 || v == 0x85 || v == 0xA0 || v == 0x1680 || (0x2000 <= v
        && v <= 0x200A) || v == 0x2028 || v == 0x2029 || v == 0x202F || v == 0x205F || v == 0x3000
}

/// Index of the first character at or behind `from` that is no white
/// space; the length where there is none.
pub open spec fn leading_from(s: Seq<char>, from: int) -> int
    decreases s.len() - from,
{
    if 0 <= from < s.len() && is_space(s[from]) {
        leading_from(s, from + 1)
    } else {
        from
    }
}

/// Index behind the last character before `to` that is no white space; 0
/// where there is none.
pub open spec fn trailing_to(s: Seq<char>, to: int) -> int
    decreases to,
{
    if 0 < to <= s.len() && is_space(s[to - 1]) {
        trailing_to(s, to - 1)
    } else {
        to
    }
}

/// The text without the white space at its start and end.
pub open spec fn trimmed(s: Seq<char>) -> Seq<char> {
    if leading_from(s, 0) >= s.len() {
        Seq::empty()
    } else {
        s.subrange(leading_from(s, 0), trailing_to(s, s.len() as int))
    }
}

/// The text without the white space at its start and end.
pub fn trim(chars: &Vec<char>) -> (r: Vec<char>)
    ensures
        r@ == trimmed(chars@),
{
    let mut start: usize = 0;
    while start < chars.len() && is_whitespace(chars[start])
        invariant
            start <= chars.len(),
            leading_from(chars@, 0) == leading_from(chars@, start as int),
        decreases chars.len() - start,
    {
        start = start + 1;
    }
    let mut r: Vec<char> = Vec::new();
    if start >= chars.len() {
        return r;
    }
    let mut end: usize = chars.len();
    while end > 0 && is_whitespace(chars[end - 1])
        invariant
            end <= chars.len(),
            start < chars.len(),
            start == leading_from(chars@, 0),
            !is_space(chars@[start as int]),
            trailing_to(chars@, chars.len() as int) == trailing_to(chars@, end as int),
            end > start,
        decreases end,
    {
        end = end - 1;
    }
    let mut i = start;
    while i < end
        invariant
            start <= i <= end <= chars.len(),
            r@ == chars@.subrange(start as int, i as int),
        decreases end - i,
    {
        r.push(chars[i]);
        i = i + 1;
        proof {
            assert(r@ =~= chars@.subrange(start as int, i as int));
        }
    }
    r
}

/// State of a scan that cuts a text at its white space: the words
/// completed so far and the characters of the word in progress.
pub open spec fn scanned_words(text: Seq<char>) -> (Seq<Seq<char>>, Seq<char>)
    decreases text.len(),
{
    if text.len() == 0 {
        (Seq::empty(), Seq::empty())
    } else {
        let (parts, current) = scanned_words(text.drop_last());
        if is_space(text.last()) {
            if current.len() > 0 {
                (parts.push(current), Seq::empty())
            } else {
                (parts, current)
            }
        } else {
            (parts, current.push(text.last()))
        }
    }
}

/// The words of a text: its maximal runs of characters that are no
/// white space, in order.
pub open spec fn words(text: Seq<char>) -> Seq<Seq<char>> {
    let (parts, current) = scanned_words(text);
    if current.len() > 0 {
        parts.push(current)
    } else {
        parts
    }
}

/// The characters of each part.
pub open spec fn part_views(parts: Seq<Vec<char>>) -> Seq<Seq<char>> {
    Seq::new(parts.len(), |i: int| parts[i]@)
}

/// Cuts a text into its words.
pub fn split_whitespace(chars: &Vec<char>) -> (parts: Vec<Vec<char>>)
    ensures
        part_views(parts@) == words(chars@),
{
    let mut parts: Vec<Vec<char>> = Vec::new();
    let mut current: Vec<char> = Vec::new();
    let mut i: usize = 0;
    proof {
        assert(chars@.take(0) =~= Seq::<char>::empty());
        assert(part_views(parts@) =~= Seq::<Seq<char>>::empty());
    }
    while i < chars.len()
        invariant
            i <= chars.len(),
            (part_views(parts@), current@) == scanned_words(chars@.take(i as int)),
        decreases chars.len() - i,
    {
        proof {
            assert(chars@.take(i + 1).drop_last() =~= chars@.take(i as int));
        }
        let ghost before = part_views(parts@);
        if is_whitespace(chars[i]) {
            if current.len() > 0 {
                let ghost done = current@;
                parts.push(current);
                current = Vec::new();
                proof {
                    assert(part_views(parts@) =~= before.push(done));
                }
            }
        } else {
            current.push(chars[i]);
        }
        i = i + 1;
    }
    proof {
        assert(chars@.take(chars.len() as int) =~= chars@);
    }
    if current.len() > 0 {
        let ghost before = part_views(parts@);
        let ghost done = current@;
        parts.push(current);
        proof {
            assert(part_views(parts@) =~= before.push(done));
        }
    }
    parts
}

/// The parts from number `from` up to number `to`, with one blank
/// between two parts.
pub open spec fn joined(parts: Seq<Seq<char>>, from: int, to: int) -> Seq<char>
    decreases to - from,
{
    if from >= to || to > parts.len() || from < 0 {
        Seq::empty()
    } else if from + 1 == to {
        parts[from]
    } else {
        joined(parts, from, to - 1) + seq![' '] + parts[to - 1]
    }
}

/// Joins the parts from number `from` up to number `to` with blanks.
pub fn join(parts: &Vec<Vec<char>>, from: usize, to: usize) -> (r: Vec<char>)
    requires
        from <= to <= parts.len(),
    ensures
        r@ == joined(part_views(parts@), from as int, to as int),
{
    let mut r: Vec<char> = Vec::new();
    let mut i = from;
    while i < to
        invariant
            from <= i <= to <= parts.len(),
            r@ == joined(part_views(parts@), from as int, i as int),
        decreases to - i,
    {
        let ghost before = r@;
        if i > from {
            r.push(' ');
        }
        let part = &parts[i];
        let ghost head = r@;
        let mut k: usize = 0;
        while k < part.len()
            invariant
                k <= part.len(),
                r@ == head + part@.take(k as int),
            decreases part.len() - k,
        {
            r.push(part[k]);
            k = k + 1;
            proof {
                assert(r@ =~= head + part@.take(k as int));
            }
        }
        proof {
            assert(part@.take(part.len() as int) =~= part@);
            assert(part_views(parts@)[i as int] == part@);
            assert(r@ =~= joined(part_views(parts@), from as int, i + 1));
        }
        i = i + 1;
    }
    r
}

/// State of a scan that cuts a text into lines: the lines completed so
/// far and the characters since the last line feed.
pub open spec fn scanned_lines(text: Seq<char>) -> (Seq<Seq<char>>, Seq<char>)
    decreases text.len(),
{
    if text.len() == 0 {
        (Seq::empty(), Seq::empty())
    } else {
        let (done, current) = scanned_lines(text.drop_last());
        if text.last() == '\n' {
            (
                done.push(
                    if current.len() > 0 && current.last() == '\r' {
                        current.drop_last()
                    } else {
                        current
                    },
                ),
                Seq::empty(),
            )
        } else {
            (done, current.push(text.last()))
        }
    }
}

/// The lines of a text. A line ends with a line feed, which is not part
/// of it, nor is a carriage return right in front of the line feed; what
/// follows the last line feed is a line too unless it is empty.
pub open spec fn lines_of(text: Seq<char>) -> Seq<Seq<char>> {
    let (done, current) = scanned_lines(text);
    if current.len() > 0 {
        done.push(current)
    } else {
        done
    }
}

/// Cuts a text into its lines.
pub fn lines(chars: &Vec<char>) -> (r: Vec<Vec<char>>)
    ensures
        part_views(r@) == lines_of(chars@),
{
    let mut done: Vec<Vec<char>> = Vec::new();
    let mut current: Vec<char> = Vec::new();
    let mut i: usize = 0;
    proof {
        assert(chars@.take(0) =~= Seq::<char>::empty());
        assert(part_views(done@) =~= Seq::<Seq<char>>::empty());
    }
    while i < chars.len()
        invariant
            i <= chars.len(),
            (part_views(done@), current@) == scanned_lines(chars@.take(i as int)),
        decreases chars.len() - i,
    {
        proof {
            assert(chars@.take(i + 1).drop_last() =~= chars@.take(i as int));
        }
        let ghost before = part_views(done@);
        if chars[i] == '\n' {
            let ghost whole = current@;
            if current.len() > 0 && current[current.len() - 1] == '\r' {
                let _ = current.pop();
                proof {
                    assert(current@ =~= whole.drop_last());
                }
            }
            let ghost line = current@;
            done.push(current);
            current = Vec::new();
            proof {
                assert(part_views(done@) =~= before.push(line));
            }
        } else {
            current.push(chars[i]);
        }
        i = i + 1;
    }
    proof {
        assert(chars@.take(chars.len() as int) =~= chars@);
    }
    if current.len() > 0 {
        let ghost before = part_views(done@);
        let ghost line = current@;
        done.push(current);
        proof {
            assert(part_views(done@) =~= before.push(line));
        }
    }
    done
}

/// `needle` stands in `hay` at index `at`.
pub open spec fn occurs_at(hay: Seq<char>, needle: Seq<char>, at: int) -> bool {
    0 <= at && at + needle.len() <= hay.len() && hay.subrange(at, at + needle.len()) == needle
}

/// `needle` stands somewhere in `hay`.
pub open spec fn occurs(hay: Seq<char>, needle: Seq<char>) -> bool {
    exists|at: int| occurs_at(hay, needle, at)
}

/// Tells whether `needle` stands in `hay` at index `at`.
fn matches_at(hay: &Vec<char>, needle: &Vec<char>, at: usize) -> (r: bool)
    requires
        at + needle.len() <= hay.len(),
    ensures
        r == occurs_at(hay@, needle@, at as int),
{
    let mut k: usize = 0;
    while k < needle.len()
        invariant
            k <= needle.len(),
            at + needle.len() <= hay.len(),
            forall|j: int| 0 <= j < k ==> hay@[at + j] == needle@[j],
        decreases needle.len() - k,
    {
        if hay[at + k] != needle[k] {
            proof {
                assert(hay@.subrange(at as int, at + needle.len())[k as int] != needle@[k as int]);
            }
            return false;
        }
        k = k + 1;
    }
    proof {
        assert(hay@.subrange(at as int, at + needle.len()) =~= needle@);
    }
    true
}

/// Tells whether `needle` stands somewhere in `hay`.
pub fn contains(hay: &Vec<char>, needle: &Vec<char>) -> (r: bool)
    ensures
        r == occurs(hay@, needle@),
{
    if needle.len() > hay.len() {
        return false;
    }
    if needle.len() == 0 {
        proof {
            assert(hay@.subrange(0, 0) =~= needle@);
            assert(occurs_at(hay@, needle@, 0));
        }
        return true;
    }
    let last = hay.len() - needle.len();
    let mut at: usize = 0;
    while at <= last
        invariant
            at <= last + 1,
            last == hay.len() - needle.len(),
            needle.len() > 0,
            forall|j: int| 0 <= j < at ==> !occurs_at(hay@, needle@, j),
        decreases last + 1 - at,
    {
        if matches_at(hay, needle, at) {
            return true;
        }
        at = at + 1;
    }
    false
}

/// Tells whether `text` starts with `prefix`.
pub fn starts_with(text: &Vec<char>, prefix: &Vec<char>) -> (r: bool)
    ensures
        r == occurs_at(text@, prefix@, 0),
{
    if prefix.len() > text.len() {
        return false;
    }
    matches_at(text, prefix, 0)
}

/// The value of a text of decimal digits.
pub open spec fn digits_value(digits: Seq<char>) -> nat
    decreases digits.len(),
{
    if digits.len() == 0 {
        0
    } else {
        digits_value(digits.drop_last()) * 10 + ((digits.last() as u32 - 48) as nat)
    }
}

/// Every character is a decimal digit.
pub open spec fn all_digits(digits: Seq<char>) -> bool {
    forall|i: int| 0 <= i < digits.len() ==> '0' <= #[trigger] digits[i] <= '9'
}

/// The digits of a text that may start with a plus sign.
pub open spec fn unsigned_part(text: Seq<char>) -> Seq<char> {
    if text.len() > 0 && text[0] == '+' {
        text.drop_first()
    } else {
        text
    }
}

/// The number a text stands for: decimal digits, a plus sign in front of
/// them allowed, that give a number no larger than `max`.
pub open spec fn parsed_number(text: Seq<char>, max: nat) -> Option<nat> {
    if unsigned_part(text).len() > 0 && all_digits(unsigned_part(text)) && digits_value(
        unsigned_part(text),
    ) <= max {
        Some(digits_value(unsigned_part(text)))
    } else {
        None
    }
}

/// A longer text of digits has no smaller value than its start.
proof fn lemma_digits_grow(digits: Seq<char>, k: int)
    requires
        0 <= k <= digits.len(),
        all_digits(digits),
    ensures
        digits_value(digits.take(k)) <= digits_value(digits),
    decreases digits.len() - k,
{
    if k < digits.len() {
        lemma_digits_grow(digits, k + 1);
        assert(digits.take(k + 1).drop_last() =~= digits.take(k));
        assert('0' <= digits[k] <= '9');
    } else {
        assert(digits.take(k) =~= digits);
    }
}

/// Reads a number.
pub fn parse_usize(chars: &Vec<char>) -> (r: Option<usize>)
    ensures
        match r {
            Some(n) => parsed_number(chars@, usize::MAX as nat) == Some(n as nat),
            None => parsed_number(chars@, usize::MAX as nat) is None,
        },
{
    let start: usize = if chars.len() > 0 && chars[0] == '+' {
        1
    } else {
        0
    };
    let ghost digits = unsigned_part(chars@);
    proof {
        assert(digits =~= chars@.subrange(start as int, chars.len() as int));
    }
    if start >= chars.len() {
        return None;
    }
    let mut value: usize = 0;
    let mut i = start;
    proof {
        assert(digits.take(0) =~= Seq::<char>::empty());
    }
    while i < chars.len()
        invariant
            start <= i <= chars.len(),
            digits == chars@.subrange(start as int, chars.len() as int),
            digits == unsigned_part(chars@),
            all_digits(digits.take(i - start)),
            value == digits_value(digits.take(i - start)),
        decreases chars.len() - i,
    {
        let c = chars[i];
        proof {
            assert(digits.take(i - start + 1).drop_last() =~= digits.take(i - start));
            assert(digits[i - start] == c);
        }
        if !('0' <= c && c <= '9') {
            proof {
                assert(!('0' <= digits[i - start] <= '9'));
            }
            return None;
        }
        let d = (c as u32 - 48) as usize;
        if value > (usize::MAX - d) / 10 {
            proof {
                assert(digits_value(digits.take(i - start + 1)) > usize::MAX);
                if all_digits(digits) {
                    lemma_digits_grow(digits, i - start + 1);
                }
            }
            return None;
        }
        value = value * 10 + d;
        i = i + 1;
    }
    proof {
        assert(digits.take(chars.len() - start) =~= digits);
    }
    Some(value)
}

/// The text of the characters.
pub fn to_string(chars: &Vec<char>) -> (s: String)
    ensures
        s@ == chars@,
{
    let s = string_of(chars, 0, chars.len());
    proof {
        assert(chars@.subrange(0, chars.len() as int) =~= chars@);
    }
    s
}

/// Tells whether two texts hold the same characters.
pub fn same_chars(a: &Vec<char>, b: &Vec<char>) -> (r: bool)
    ensures
        r == (a@ == b@),
{
    if a.len() != b.len() {
        return false;
    }
    let mut i: usize = 0;
    while i < a.len()
        invariant
            i <= a.len(),
            a.len() == b.len(),
            forall|k: int| 0 <= k < i ==> a@[k] == b@[k],
        decreases a.len() - i,
    {
        if a[i] != b[i] {
            return false;
        }
        i = i + 1;
    }
    proof {
        assert(a@ =~= b@);
    }
    true
}

/// Tells whether the characters spell `text`.
pub fn spells(chars: &Vec<char>, text: &str) -> (r: bool)
    ensures
        r == (chars@ == text@),
{
    let other = chars_of(text);
    same_chars(chars, &other)
}

/// Where the last `/` stands among the first `n` characters, if there is
/// one.
pub open spec fn last_slash(s: Seq<char>, n: int) -> Option<int>
    decreases n,
{
    if n <= 0 || n > s.len() {
        None
    } else if s[n - 1] == '/' {
        Some(n - 1)
    } else {
        last_slash(s, n - 1)
    }
}

/// The last part of a path: what stands behind its last `/`, or the
/// whole path where it has none.
pub open spec fn base_name_of(path: Seq<char>) -> Seq<char> {
    match last_slash(path, path.len() as int) {
        Some(i) => path.skip(i + 1),
        None => path,
    }
}

/// The last part of a path.
pub fn base_name(path: &str) -> (name: String)
    ensures
        name@ == base_name_of(path@),
{
    let chars = chars_of(path);
    let mut n = chars.len();
    while n > 0 && chars[n - 1] != '/'
        invariant
            n <= chars.len(),
            chars@ == path@,
            last_slash(path@, path@.len() as int) == last_slash(path@, n as int),
        decreases n,
    {
        n = n - 1;
    }
    let name = string_of(&chars, n, chars.len());
    proof {
        if n == 0 {
            assert(chars@.subrange(0, chars@.len() as int) =~= path@);
        } else {
            assert(chars@.subrange(n as int, chars@.len() as int) =~= path@.skip(n as int));
        }
    }
    name
}

} // verus!
