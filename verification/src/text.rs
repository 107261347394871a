//! Character sequences: the alphabetical order in which names are compared,
//! the white space that separates words, and decimal numbers as they are
//! written and read.

use vstd::prelude::*;
use vstd::string::*;

verus! {

/// Whether `a` comes no later than `b` in the alphabetical (lexicographic,
/// by code point) order of character sequences.
pub open spec fn alphabetical_le(a: Seq<char>, b: Seq<char>) -> bool
    decreases a.len(),
{
    if a.len() == 0 {
        true
    } else if b.len() == 0 {
        false
    } else if a[0] != b[0] {
        (a[0] as int) < (b[0] as int)
    } else {
        alphabetical_le(a.drop_first(), b.drop_first())
    }
}

/// Every character sequence comes no later than itself.
pub proof fn lemma_alphabetical_le_reflexive(a: Seq<char>)
    ensures
        alphabetical_le(a, a),
    decreases a.len(),
{
    if a.len() > 0 {
        lemma_alphabetical_le_reflexive(a.drop_first());
    }
}

/// Whether `c` is white space: a character with the Unicode property
/// `White_Space`.
pub open spec fn is_whitespace(c: char) -> bool {
    let u = c as u32;
    ||| 0x09 <= u <= 0x0D
    ||| u == 0x20
    ||| u == 0x85
    ||| u == 0xA0
    ||| u == 0x1680
    ||| 0x2000 <= u <= 0x200A
    ||| u == 0x2028
    ||| u == 0x2029
    ||| u == 0x202F
    ||| u == 0x205F
    ||| u == 0x3000
}

/// Whether `c` is one of the ten digits `0` to `9`.
pub open spec fn is_digit(c: char) -> bool {
    0x30 <= c as u32 <= 0x39
}

/// The number that the digit `c` stands for.
pub open spec fn digit_value(c: char) -> nat {
    (c as u32 - 0x30) as nat
}

/// Whether `s` holds digits only.
pub open spec fn all_digits(s: Seq<char>) -> bool {
    forall|i: int| 0 <= i < s.len() ==> is_digit(#[trigger] s[i])
}

/// The number that the digits of `s` write in base ten.
pub open spec fn digits_value(s: Seq<char>) -> nat
    decreases s.len(),
{
    if s.len() == 0 {
        0
    } else {
        10 * digits_value(s.drop_last()) + digit_value(s.last())
    }
}

/// What reading `s` as an unsigned number gives: its value, where `s` is a
/// non-empty run of digits, with or without a `+` in front, that writes a
/// number no greater than `max`; nothing otherwise.
pub open spec fn parse_unsigned(s: Seq<char>, max: nat) -> Option<nat> {
    let digits = if s.len() > 0 && s[0] == '+' {
        s.drop_first()
    } else {
        s
    };
    if digits.len() > 0 && all_digits(digits) && digits_value(digits) <= max {
        Some(digits_value(digits))
    } else {
        None
    }
}

/// `s` without the white space it begins with.
pub open spec fn trim_start(s: Seq<char>) -> Seq<char>
    decreases s.len(),
{
    if s.len() > 0 && is_whitespace(s[0]) {
        trim_start(s.drop_first())
    } else {
        s
    }
}

/// `s` without the white space it ends with.
pub open spec fn trim_end(s: Seq<char>) -> Seq<char>
    decreases s.len(),
{
    if s.len() > 0 && is_whitespace(s.last()) {
        trim_end(s.drop_last())
    } else {
        s
    }
}

/// `s` without the white space at either end.
pub open spec fn trim(s: Seq<char>) -> Seq<char> {
    trim_end(trim_start(s))
}

/// The words of `s`: its longest runs of characters that are not white
/// space, in order.
pub open spec fn words(s: Seq<char>) -> Seq<Seq<char>>
    decreases s.len(),
{
    if s.len() == 0 {
        Seq::empty()
    } else {
        let before = words(s.drop_last());
        if is_whitespace(s.last()) {
            before
        } else if s.len() >= 2 && !is_whitespace(s[s.len() - 2]) {
            before.drop_last().push(before.last().push(s.last()))
        } else {
            before.push(seq![s.last()])
        }
    }
}

/// The digits that write `n` in base ten, without leading zeros.
pub open spec fn decimal(n: nat) -> Seq<char>
    decreases n,
{
    if n < 10 {
        seq![digit_char(n)]
    } else {
        decimal(n / 10).push(digit_char(n % 10))
    }
}

/// The digit that stands for `d`.
pub open spec fn digit_char(d: nat) -> char {
    if d == 0 {
        '0'
    } else if d == 1 {
        '1'
    } else if d == 2 {
        '2'
    } else if d == 3 {
        '3'
    } else if d == 4 {
        '4'
    } else if d == 5 {
        '5'
    } else if d == 6 {
        '6'
    } else if d == 7 {
        '7'
    } else if d == 8 {
        '8'
    } else {
        '9'
    }
}

/// The characters of `s`, in order.
pub fn chars_of(s: &str) -> (chars: Vec<char>)
    ensures
        chars@ == s@,
{
    let mut chars: Vec<char> = Vec::new();
    for c in it: s.chars()
        invariant
            it.seq() == s@,
            chars@ == s@.take(it.index() as int),
    {
        chars.push(c);
    }
    chars
}

/// Whether `c` is white space.
pub fn is_space(c: char) -> (white: bool)
    ensures
        white == is_whitespace(c),
{
    let u: u32 = c as u32;
    (0x09 <= u && u <= 0x0D) || u == 0x20 || u == 0x85 || u == 0xA0 || u == 0x1680 || (0x2000 <= u
        && u <= 0x200A) || u == 0x2028 || u == 0x2029 || u == 0x202F || u == 0x205F || u == 0x3000
}

/// `chars` without the white space at either end.
pub fn trimmed(chars: &Vec<char>) -> (kept: Vec<char>)
    ensures
        kept@ == trim(chars@),
{
    let mut start: usize = 0;
    assert(chars@.skip(0) == chars@);
    while start < chars.len() && is_space(chars[start])
        invariant
            start <= chars@.len(),
            trim_start(chars@) == trim_start(chars@.skip(start as int)),
        decreases chars@.len() - start,
    {
        assert(chars@.skip(start as int).drop_first() == chars@.skip(start + 1));
        start += 1;
    }
    let ghost rest = chars@.skip(start as int);
    assert(trim_start(chars@) == rest);
    let mut end: usize = chars.len();
    assert(chars@.subrange(start as int, end as int) == rest);
    while end > start && is_space(chars[end - 1])
        invariant
            start <= end <= chars@.len(),
            rest == chars@.skip(start as int),
            trim_end(rest) == trim_end(chars@.subrange(start as int, end as int)),
        decreases end,
    {
        assert(chars@.subrange(start as int, end as int).drop_last() == chars@.subrange(
            start as int,
            end - 1,
        ));
        end -= 1;
    }
    assert(trim_end(rest) == chars@.subrange(start as int, end as int));
    let mut kept: Vec<char> = Vec::new();
    let mut i: usize = start;
    while i < end
        invariant
            start <= i <= end <= chars@.len(),
            kept@ == chars@.subrange(start as int, i as int),
        decreases end - i,
    {
        kept.push(chars[i]);
        i += 1;
    }
    kept
}

/// Splits `chars` into its words.
pub fn split_words(chars: &Vec<char>) -> (found: Vec<Vec<char>>)
    ensures
        views(found@) == words(chars@),
{
    let mut found: Vec<Vec<char>> = Vec::new();
    let mut word: Vec<char> = Vec::new();
    let mut i: usize = 0;
    assert(chars@.take(0) == Seq::<char>::empty());
    assert(views(found@) == Seq::<Seq<char>>::empty());
    while i < chars.len()
        invariant
            i <= chars@.len(),
            in_word(chars@, i as int) ==> word@.len() > 0 && words(chars@.take(i as int)) == views(
                found@,
            ).push(word@),
            !in_word(chars@, i as int) ==> word@.len() == 0 && words(chars@.take(i as int))
                == views(found@),
        decreases chars@.len() - i,
    {
        let c = chars[i];
        let ghost upto = chars@.take(i + 1);
        let ghost before = views(found@);
        let ghost current = word@;
        assert(upto.drop_last() == chars@.take(i as int));
        assert(upto.last() == c);
        if is_space(c) {
            if word.len() > 0 {
                found.push(word);
                assert(views(found@) == before.push(current));
                word = Vec::new();
            }
        } else {
            assert(i >= 1 ==> upto[upto.len() - 2] == chars@[i - 1]);
            word.push(c);
            proof {
                if in_word(chars@, i as int) {
                    assert(before.push(current).drop_last() == before);
                    assert(before.push(current).last() == current);
                    assert(words(upto) == before.push(current.push(c)));
                } else {
                    assert(word@ == seq![c]);
                    assert(words(upto) == before.push(seq![c]));
                }
            }
        }
        i += 1;
    }
    assert(chars@.take(i as int) == chars@);
    if word.len() > 0 {
        let ghost before = views(found@);
        let ghost current = word@;
        found.push(word);
        assert(views(found@) == before.push(current));
    }
    found
}

/// The character sequences that the vectors of `v` hold.
pub open spec fn views(v: Seq<Vec<char>>) -> Seq<Seq<char>> {
    v.map_values(|w: Vec<char>| w@)
}

/// A number written by the first digits of `s` is no greater than the
/// number that all of `s` writes.
pub proof fn lemma_digits_value_of_prefix(s: Seq<char>, k: int)
    requires
        0 <= k <= s.len(),
    ensures
        digits_value(s.take(k)) <= digits_value(s),
    decreases s.len(),
{
    if k < s.len() {
        lemma_digits_value_of_prefix(s.drop_last(), k);
        assert(s.drop_last().take(k) == s.take(k));
    } else {
        assert(s.take(k) == s);
    }
}

/// Reads `chars` as an unsigned number no greater than `max`.
pub fn read_unsigned(chars: &Vec<char>, max: u64) -> (number: Option<u64>)
    ensures
        number matches Some(n) ==> parse_unsigned(chars@, max as nat) == Some(n as nat),
        number is None ==> parse_unsigned(chars@, max as nat) is None,
{
    let n = chars.len();
    let start: usize = if n > 0 && chars[0] == '+' {
        1
    } else {
        0
    };
    let ghost digits = chars@.skip(start as int);
    assert(digits == if chars@.len() > 0 && chars@[0] == '+' {
        chars@.drop_first()
    } else {
        chars@
    });
    if start == n {
        return None;
    }
    let mut value: u64 = 0;
    let mut i: usize = start;
    assert(digits.take(0) == Seq::<char>::empty());
    while i < n
        invariant
            start <= i <= n,
            n == chars@.len(),
            digits == if chars@.len() > 0 && chars@[0] == '+' {
                chars@.drop_first()
            } else {
                chars@
            },
            digits.len() == n - start,
            all_digits(digits.take(i - start)),
            value == digits_value(digits.take(i - start)),
            value <= max,
        decreases n - i,
    {
        let c = chars[i];
        let u: u32 = c as u32;
        let ghost read = digits.take(i - start + 1);
        assert(read.drop_last() == digits.take(i - start));
        assert(read.last() == c);
        assert(digits[i - start] == c);
        if u < 0x30 || u > 0x39 {
            assert(!is_digit(digits[i - start]));
            return None;
        }
        let next: u128 = value as u128 * 10 + (u - 0x30) as u128;
        if next > max as u128 {
            proof {
                lemma_digits_value_of_prefix(digits, i - start + 1);
            }
            return None;
        }
        value = next as u64;
        i += 1;
    }
    assert(digits.take(i - start) == digits);
    Some(value)
}

/// The digit that stands for `d`, as text.
fn digit_str(d: u8) -> (digit: &'static str)
    requires
        d < 10,
    ensures
        digit@ == seq![digit_char(d as nat)],
{
    proof {
        reveal_strlit("0");
        reveal_strlit("1");
        reveal_strlit("2");
        reveal_strlit("3");
        reveal_strlit("4");
        reveal_strlit("5");
        reveal_strlit("6");
        reveal_strlit("7");
        reveal_strlit("8");
        reveal_strlit("9");
    }
    let digit = match d {
        0 => "0",
        1 => "1",
        2 => "2",
        3 => "3",
        4 => "4",
        5 => "5",
        6 => "6",
        7 => "7",
        8 => "8",
        _ => "9",
    };
    assert(digit@ =~= seq![digit_char(d as nat)]);
    digit
}

/// Writes `n` in base ten.
pub fn decimal_string(n: u64) -> (written: String)
    ensures
        written@ == decimal(n as nat),
    decreases n,
{
    if n < 10 {
        String::from_str(digit_str(n as u8))
    } else {
        let mut written = decimal_string(n / 10);
        written.append(digit_str((n % 10) as u8));
        written
    }
}

/// What `decimal` writes, `parse_unsigned` reads back.
pub proof fn lemma_decimal_reads_back(n: nat, max: nat)
    requires
        n <= max,
    ensures
        parse_unsigned(decimal(n), max) == Some(n),
{
    lemma_decimal_digits(n);
}

/// `decimal` writes at least one digit, digits only, and they write `n`.
pub proof fn lemma_decimal_digits(n: nat)
    ensures
        decimal(n).len() > 0,
        all_digits(decimal(n)),
        digits_value(decimal(n)) == n,
    decreases n,
{
    if n < 10 {
        assert(decimal(n).drop_last() == Seq::<char>::empty());
        assert(digits_value(decimal(n).drop_last()) == 0);
    } else {
        lemma_decimal_digits(n / 10);
        assert(decimal(n).drop_last() == decimal(n / 10));
    }
}

/// The character sequences that the strings of `v` hold.
pub open spec fn texts(v: Seq<String>) -> Seq<Seq<char>> {
    v.map_values(|line: String| line@)
}

/// Adds one line at the end of `lines`.
pub fn push_line(lines: &mut Vec<String>, line: String)
    ensures
        texts(final(lines)@) == texts(old(lines)@).push(line@),
        final(lines)@.len() == old(lines)@.len() + 1,
{
    lines.push(line);
    assert(texts(lines@) =~= texts(old(lines)@).push(line@));
}

/// Adds the line that `text` holds at the end of `lines`.
pub fn push_text(lines: &mut Vec<String>, text: &str)
    ensures
        texts(final(lines)@) == texts(old(lines)@).push(text@),
        final(lines)@.len() == old(lines)@.len() + 1,
{
    push_line(lines, String::from_str(text));
}

/// Moves the lines of `more` to the end of `lines`.
pub fn push_lines(lines: &mut Vec<String>, more: Vec<String>)
    ensures
        texts(final(lines)@) == texts(old(lines)@) + texts(more@),
        final(lines)@.len() == old(lines)@.len() + more@.len(),
{
    let mut more = more;
    let ghost added = more@;
    lines.append(&mut more);
    assert(texts(lines@) =~= texts(old(lines)@) + texts(added));
}

/// Whether the character right before place `i` of `s` belongs to a word.
spec fn in_word(s: Seq<char>, i: int) -> bool {
    0 < i <= s.len() && !is_whitespace(s[i - 1])
}

} // verus!
