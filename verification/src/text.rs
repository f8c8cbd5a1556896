//! Plain text helpers: the characters of a string, decimal numbers, and the
//! places of separators.

use vstd::prelude::*;

verus! {

/// The characters of `text`, in order.
pub fn chars_of(text: &str) -> (chars: Vec<char>)
    ensures
        chars@ == text@,
{
    let mut chars: Vec<char> = Vec::new();
    let it = text.chars();
    for c in iter: it
        invariant
            chars@ == iter.seq().take(iter.index()),
    {
        chars.push(c);
    }
    chars
}

/// Whether `c` is one of the digits `0` to `9`.
pub open spec fn is_digit(c: char) -> bool {
    '0' <= c && c <= '9'
}

/// The value of the digit `c`.
pub open spec fn digit_value(c: char) -> nat {
    (c as int - '0' as int) as nat
}

/// The digit for a value below ten.
pub open spec fn digit_char(value: nat) -> char {
    (value + '0' as nat) as char
}

/// Whether `s` holds digits only.
pub open spec fn all_digits(s: Seq<char>) -> bool {
    forall|i: int| 0 <= i < s.len() ==> is_digit(#[trigger] s[i])
}

/// The number that the digits `s` write in base ten.
pub open spec fn decimal_value(s: Seq<char>) -> nat
    decreases s.len(),
{
    if s.len() == 0 {
        0
    } else {
        decimal_value(s.drop_last()) * 10 + digit_value(s.last())
    }
}

/// The number that `s` writes, where `s` is one digit or more and the
/// number is no greater than `limit`. Leading zeros are allowed.
pub open spec fn number_of(s: Seq<char>, limit: nat) -> Option<nat> {
    if s.len() >= 1 && all_digits(s) && decimal_value(s) <= limit {
        Some(decimal_value(s))
    } else {
        None
    }
}

/// The digits of `n` in base ten, without leading zeros.
pub open spec fn decimal_text(n: nat) -> Seq<char>
    decreases n,
{
    if n < 10 {
        seq![digit_char(n)]
    } else {
        decimal_text(n / 10).push(digit_char(n % 10))
    }
}

/// A longer run of digits writes a number at least as great as what its
/// head writes.
pub proof fn lemma_decimal_value_grows(s: Seq<char>, head: int)
    requires
        0 <= head <= s.len(),
    ensures
        decimal_value(s.take(head)) <= decimal_value(s),
    decreases s.len() - head,
{
    if head < s.len() {
        lemma_decimal_value_grows(s, head + 1);
        assert(s.take(head + 1).drop_last() =~= s.take(head));
    } else {
        assert(s.take(head) =~= s);
    }
}

/// The digits of a number write that number, are digits, and start with a
/// zero only where the number is below ten.
pub proof fn lemma_decimal_text(n: nat)
    ensures
        decimal_text(n).len() >= 1,
        all_digits(decimal_text(n)),
        decimal_value(decimal_text(n)) == n,
        n >= 10 ==> decimal_text(n).len() >= 2 && decimal_text(n)[0] != '0',
        n < 10 ==> decimal_text(n).len() == 1,
        n < 100 ==> decimal_text(n).len() <= 2,
        n < 1000 ==> decimal_text(n).len() <= 3,
    decreases n,
{
    if n < 10 {
        let s = decimal_text(n);
        assert(s.drop_last() =~= Seq::<char>::empty());
        assert(decimal_value(s.drop_last()) == 0);
    } else {
        lemma_decimal_text(n / 10);
        let s = decimal_text(n);
        assert(s.drop_last() =~= decimal_text(n / 10));
        assert(s[0] == decimal_text(n / 10)[0]);
    }
}

/// The number that the characters of `chars` from `from` up to `to` write,
/// where it is no greater than `limit`.
pub fn parse_number(chars: &Vec<char>, from: usize, to: usize, limit: u64) -> (number: Option<u64>)
    requires
        from <= to <= chars.len(),
    ensures
        match number {
            Some(n) => number_of(chars@.subrange(from as int, to as int), limit as nat) == Some(
                n as nat,
            ),
            None => number_of(chars@.subrange(from as int, to as int), limit as nat) is None,
        },
{
    let ghost s = chars@.subrange(from as int, to as int);
    if from == to {
        return None;
    }
    let mut value: u64 = 0;
    let mut i: usize = from;
    while i < to
        invariant
            from <= i <= to <= chars.len(),
            s == chars@.subrange(from as int, to as int),
            all_digits(s.take(i - from)),
            value == decimal_value(s.take(i - from)),
            value <= limit,
        decreases to - i,
    {
        let c = chars[i];
        proof {
            assert(s.take(i - from + 1).drop_last() =~= s.take(i - from));
            assert(s.take(i - from + 1).last() == c);
        }
        if !(c >= '0' && c <= '9') {
            return None;
        }
        let digit: u64 = (c as u32 - '0' as u32) as u64;
        if digit > limit || value > (limit - digit) / 10 {
            proof {
                lemma_decimal_value_grows(s, i - from + 1);
                if digit <= limit {
                    assert(value * 10 + digit > limit) by (nonlinear_arith)
                        requires
                            value > (limit - digit) / 10,
                            digit <= limit,
                    {}
                }
            }
            return None;
        }
        proof {
            assert(value * 10 + digit <= limit) by (nonlinear_arith)
                requires
                    value <= (limit - digit) / 10,
                    digit <= limit,
            {}
        }
        value = value * 10 + digit;
        i += 1;
    }
    proof {
        assert(s.take(to - from) =~= s);
    }
    Some(value)
}

/// The digit for `value`, as a string of one character.
pub fn digit_str(value: u64) -> (digit: &'static str)
    requires
        value < 10,
    ensures
        digit@ == seq![digit_char(value as nat)],
{
    proof {
        reveal_strlit("0");
        reveal_strlit("1");
        reveal_strlit("2");
        reveal_strlit("3");
        reveal_strlit("4");
        reveal_strlit("5");
        reveal_strlit("6");
        reveal_strlit("7");
        reveal_strlit("8");
        reveal_strlit("9");
    }
    if value == 0 {
        "0"
    } else if value == 1 {
        "1"
    } else if value == 2 {
        "2"
    } else if value == 3 {
        "3"
    } else if value == 4 {
        "4"
    } else if value == 5 {
        "5"
    } else if value == 6 {
        "6"
    } else if value == 7 {
        "7"
    } else if value == 8 {
        "8"
    } else {
        "9"
    }
}

/// Writes `n` in base ten at the end of `out`.
pub fn push_decimal(out: &mut String, n: u64)
    ensures
        final(out)@ == old(out)@ + decimal_text(n as nat),
    decreases n,
{
    if n < 10 {
        out.append(digit_str(n));
    } else {
        push_decimal(out, n / 10);
        out.append(digit_str(n % 10));
    }
}

/// The place of the first `mark` in `s`, or the length of `s` where it
/// holds none.
pub open spec fn index_of(s: Seq<char>, mark: char) -> int
    decreases s.len(),
{
    if s.len() == 0 {
        0
    } else if s[0] == mark {
        0
    } else {
        1 + index_of(s.drop_first(), mark)
    }
}

/// `index_of` is the first place that holds the mark.
pub proof fn lemma_index_of(s: Seq<char>, mark: char)
    ensures
        0 <= index_of(s, mark) <= s.len(),
        index_of(s, mark) < s.len() ==> s[index_of(s, mark)] == mark,
        forall|i: int| 0 <= i < index_of(s, mark) ==> #[trigger] s[i] != mark,
    decreases s.len(),
{
    if s.len() > 0 && s[0] != mark {
        lemma_index_of(s.drop_first(), mark);
        assert forall|i: int| 0 <= i < index_of(s, mark) implies #[trigger] s[i] != mark by {
            if i > 0 {
                assert(s.drop_first()[i - 1] == s[i]);
            }
        }
    }
}

/// A place that holds the mark, after places that do not, is `index_of`.
pub proof fn lemma_index_of_is(s: Seq<char>, mark: char, place: int)
    requires
        0 <= place <= s.len(),
        place < s.len() ==> s[place] == mark,
        forall|i: int| 0 <= i < place ==> #[trigger] s[i] != mark,
    ensures
        index_of(s, mark) == place,
{
    lemma_index_of(s, mark);
    let found = index_of(s, mark);
    if found < place {
        assert(s[found] != mark);
    } else if found > place {
        assert(s[place] != mark);
    }
}

/// The place of the first `mark` in `chars` from `from` up to `to`, or `to`
/// where there is none.
pub fn find(chars: &Vec<char>, from: usize, to: usize, mark: char) -> (place: usize)
    requires
        from <= to <= chars.len(),
    ensures
        place == from + index_of(chars@.subrange(from as int, to as int), mark),
        from <= place <= to,
{
    let ghost part = chars@.subrange(from as int, to as int);
    let mut i: usize = from;
    while i < to && chars[i] != mark
        invariant
            from <= i <= to <= chars.len(),
            part == chars@.subrange(from as int, to as int),
            forall|k: int| 0 <= k < i - from ==> #[trigger] part[k] != mark,
        decreases to - i,
    {
        i += 1;
    }
    proof {
        lemma_index_of_is(part, mark, i - from);
    }
    i
}

/// Where `head` holds no `mark`, the first `mark` of `head`, `mark`, `tail`
/// is the one between them.
pub proof fn lemma_index_of_joined(head: Seq<char>, mark: char, tail: Seq<char>)
    requires
        forall|i: int| 0 <= i < head.len() ==> #[trigger] head[i] != mark,
    ensures
        index_of(head + seq![mark] + tail, mark) == head.len(),
        (head + seq![mark] + tail).take(head.len() as int) == head,
        (head + seq![mark] + tail).skip(head.len() as int + 1) == tail,
{
    let joined = head + seq![mark] + tail;
    assert forall|i: int| 0 <= i < head.len() implies #[trigger] joined[i] != mark by {
        assert(joined[i] == head[i]);
    }
    lemma_index_of_is(joined, mark, head.len() as int);
    assert(joined.take(head.len() as int) =~= head);
    assert(joined.skip(head.len() as int + 1) =~= tail);
}

/// A run of digits holds nothing but digits.
pub proof fn lemma_digits_hold_no(s: Seq<char>, mark: char)
    requires
        all_digits(s),
        !is_digit(mark),
    ensures
        forall|i: int| 0 <= i < s.len() ==> #[trigger] s[i] != mark,
        index_of(s, mark) == s.len(),
{
    assert forall|i: int| 0 <= i < s.len() implies #[trigger] s[i] != mark by {
        assert(is_digit(s[i]));
    }
    lemma_index_of_is(s, mark, s.len() as int);
}

/// The lower-case form of an ASCII letter; any other character as it is.
pub open spec fn lower(c: char) -> char {
    if 'A' <= c && c <= 'Z' {
        ((c as u8) + 32u8) as char
    } else {
        c
    }
}

/// Whether `a` and `b` are the same but for the case of ASCII letters.
pub open spec fn same_ignoring_case(a: Seq<char>, b: Seq<char>) -> bool {
    a.len() == b.len() && forall|i: int| 0 <= i < a.len() ==> lower(#[trigger] a[i]) == lower(b[i])
}

/// The lower-case form of an ASCII letter; any other character as it is.
pub fn to_lower(c: char) -> (l: char)
    ensures
        l == lower(c),
{
    if c >= 'A' && c <= 'Z' {
        ((c as u8) + 32u8) as char
    } else {
        c
    }
}

/// Whether `text` is `word` but for the case of ASCII letters.
pub fn eq_ignoring_case(text: &Vec<char>, word: &str) -> (same: bool)
    ensures
        same == same_ignoring_case(text@, word@),
{
    let other = chars_of(word);
    if text.len() != other.len() {
        return false;
    }
    let mut i: usize = 0;
    while i < text.len()
        invariant
            i <= text.len(),
            text.len() == other.len(),
            other@ == word@,
            forall|k: int| 0 <= k < i ==> lower(#[trigger] text@[k]) == lower(other@[k]),
        decreases text.len() - i,
    {
        if to_lower(text[i]) != to_lower(other[i]) {
            return false;
        }
        i += 1;
    }
    true
}

/// Whether `text` from `from` up to `to` is `word`, character for character.
pub fn eq_range(text: &Vec<char>, from: usize, to: usize, word: &str) -> (same: bool)
    requires
        from <= to <= text.len(),
    ensures
        same == (text@.subrange(from as int, to as int) == word@),
{
    let other = chars_of(word);
    let ghost part = text@.subrange(from as int, to as int);
    if to - from != other.len() {
        return false;
    }
    let mut i: usize = 0;
    while i < other.len()
        invariant
            i <= other.len(),
            from <= to <= text.len(),
            to - from == other.len(),
            other@ == word@,
            part == text@.subrange(from as int, to as int),
            forall|k: int| 0 <= k < i ==> #[trigger] part[k] == other@[k],
        decreases other.len() - i,
    {
        if text[from + i] != other[i] {
            return false;
        }
        i += 1;
    }
    assert(part =~= word@);
    true
}

/// Whether `a` and `b` are the same text.
pub fn eq_str(a: &str, b: &str) -> (same: bool)
    ensures
        same == (a@ == b@),
{
    let chars = chars_of(a);
    assert(chars@.subrange(0, chars@.len() as int) =~= chars@);
    eq_range(&chars, 0, chars.len(), b)
}

} // verus!
