use vstd::prelude::*;
use vstd::std_specs::iter::IteratorSpec;
use vstd::string::StringExecFns;

verus! {

broadcast use vstd::string::group_string_axioms;

/// The value of the decimal digit `c`, if `c` is one.
pub open spec fn digit_of(c: char) -> Option<int> {
    if c == '0' {
        Some(0)
    } else if c == '1' {
        Some(1)
    } else if c == '2' {
        Some(2)
    } else if c == '3' {
        Some(3)
    } else if c == '4' {
        Some(4)
    } else if c == '5' {
        Some(5)
    } else if c == '6' {
        Some(6)
    } else if c == '7' {
        Some(7)
    } else if c == '8' {
        Some(8)
    } else if c == '9' {
        Some(9)
    } else {
        None
    }
}

/// Whether `c` is one of the ten decimal digits.
pub open spec fn is_digit(c: char) -> bool {
    digit_of(c) is Some
}

/// The decimal digit that stands for `d`.
pub open spec fn digit_char(d: int) -> char {
    if d == 0 {
        '0'
    } else if d == 1 {
        '1'
    } else if d == 2 {
        '2'
    } else if d == 3 {
        '3'
    } else if d == 4 {
        '4'
    } else if d == 5 {
        '5'
    } else if d == 6 {
        '6'
    } else if d == 7 {
        '7'
    } else if d == 8 {
        '8'
    } else {
        '9'
    }
}

/// The number that a run of decimal digits stands for.
pub open spec fn digits_value(s: Seq<char>) -> int
    decreases s.len(),
{
    if s.len() == 0 {
        0
    } else {
        digits_value(s.drop_last()) * 10 + digit_of(s.last()).unwrap_or(0)
    }
}

/// What is left of a field when the `+` that may stand at its head is taken
/// away.
pub open spec fn unsigned_part(field: Seq<char>) -> Seq<char> {
    if field.len() > 0 && field[0] == '+' {
        field.skip(1)
    } else {
        field
    }
}

/// Whether `s` is made of decimal digits alone.
pub open spec fn all_digits(s: Seq<char>) -> bool {
    forall|i: int| 0 <= i < s.len() ==> is_digit(#[trigger] s[i])
}

/// The type id that a field of a key stands for: decimal digits, at least
/// one, after at most one `+`, and no more than 65535 in value.
pub open spec fn number_of(field: Seq<char>) -> Option<u16> {
    let digits = unsigned_part(field);
    if digits.len() > 0 && all_digits(digits) && digits_value(digits) <= 0xffff {
        Some(digits_value(digits) as u16)
    } else {
        None
    }
}

/// Place of the first comma in `s`, or the length of `s` if it has none.
pub open spec fn first_comma(s: Seq<char>) -> int
    decreases s.len(),
{
    if s.len() == 0 || s[0] == ',' {
        0
    } else {
        1 + first_comma(s.drop_first())
    }
}

/// The fields of `s`: what stands before, between and after its commas.
pub open spec fn fields(s: Seq<char>) -> Seq<Seq<char>>
    decreases s.len(),
{
    let i = first_comma(s);
    if 0 <= i < s.len() {
        seq![s.take(i)] + fields(s.skip(i + 1))
    } else {
        seq![s]
    }
}

/// Whether every one of the fields `f` stands for a type id.
pub open spec fn all_numbers(f: Seq<Seq<char>>) -> bool {
    forall|i: int| 0 <= i < f.len() ==> number_of(#[trigger] f[i]) is Some
}

/// The pair of type ids that the text of a key stands for. The text has at
/// least two fields, every field is a type id, and the first two make the
/// pair.
pub open spec fn parse_key_text(s: Seq<char>) -> Option<(u16, u16)> {
    let f = fields(s);
    if f.len() >= 2 && all_numbers(f) {
        Some((number_of(f[0])->0, number_of(f[1])->0))
    } else {
        None
    }
}

/// The decimal digits of `n`, without leading zeros.
pub open spec fn decimal(n: nat) -> Seq<char>
    decreases n,
{
    if n < 10 {
        seq![digit_char(n as int)]
    } else {
        decimal(n / 10).push(digit_char((n % 10) as int))
    }
}

/// The text of the key of the pair `(id0, id1)`: the two ids in decimal with
/// a comma between them.
pub open spec fn key_text(id0: u16, id1: u16) -> Seq<char> {
    decimal(id0 as nat) + seq![','] + decimal(id1 as nat)
}

/// The characters of `text`, one by one.
pub(crate) fn characters(text: &str) -> (chars: Vec<char>)
    ensures
        chars@ == text@,
{
    let mut chars: Vec<char> = Vec::new();
    for c in it: text.chars()
        invariant
            it.seq() == text@,
            chars@ == it.seq().take(it.index() as int),
            it.index() == it.seq().len() ==> chars@ == text@,
    {
        chars.push(c);
    }
    chars
}

/// The value of the decimal digit `c`, if `c` is one.
pub(crate) fn digit(c: char) -> (d: Option<u32>)
    ensures
        d is Some <==> digit_of(c) is Some,
        d is Some ==> d->0 == digit_of(c)->0 && d->0 <= 9,
{
    if c == '0' {
        Some(0)
    } else if c == '1' {
        Some(1)
    } else if c == '2' {
        Some(2)
    } else if c == '3' {
        Some(3)
    } else if c == '4' {
        Some(4)
    } else if c == '5' {
        Some(5)
    } else if c == '6' {
        Some(6)
    } else if c == '7' {
        Some(7)
    } else if c == '8' {
        Some(8)
    } else if c == '9' {
        Some(9)
    } else {
        None
    }
}

/// The type id that the characters from `start` up to `end` stand for.
fn parse_number(chars: &Vec<char>, start: usize, end: usize) -> (r: Option<u16>)
    requires
        start <= end <= chars.len(),
    ensures
        r == number_of(chars@.subrange(start as int, end as int)),
{
    let ghost field = chars@.subrange(start as int, end as int);
    let signed = start < end && chars[start] == '+';
    let first = if signed {
        start + 1
    } else {
        start
    };
    let mut i = first;
    let ghost digits = chars@.subrange(first as int, end as int);
    if i == end {
        return None;
    }
    let mut value: u32 = 0;
    let mut overflow = false;
    while i < end
        invariant
            start <= first <= i <= end <= chars.len(),
            digits == chars@.subrange(first as int, end as int),
            field == chars@.subrange(start as int, end as int),
            digits == unsigned_part(field),
            forall|j: int| 0 <= j < i - first ==> is_digit(#[trigger] digits[j]),
            !overflow ==> value == digits_value(digits.take(i - first)) && value <= 0xffff,
            overflow ==> digits_value(digits.take(i - first)) > 0xffff,
        decreases end - i,
    {
        let d = match digit(chars[i]) {
            Some(d) => d,
            None => {
                assert(!is_digit(digits[i - first]));
                return None;
            },
        };
        assert(digits.take(i - first + 1).drop_last() =~= digits.take(i - first));
        if !overflow {
            value = value * 10 + d;
            if value > 0xffff {
                overflow = true;
            }
        }
        i += 1;
    }
    assert(digits.take(i - first) =~= digits);
    if overflow {
        None
    } else {
        Some(value as u16)
    }
}

/// The first comma of `s` stands at `k` if none stands before `k` and either
/// one stands at `k` or `s` ends there.
proof fn lemma_first_comma(s: Seq<char>, k: int)
    requires
        0 <= k <= s.len(),
        forall|j: int| 0 <= j < k ==> s[j] != ',',
        k == s.len() || s[k] == ',',
    ensures
        first_comma(s) == k,
    decreases k,
{
    if k > 0 {
        let t = s.drop_first();
        lemma_first_comma(t, k - 1);
    }
}

/// The pair of type ids that `text` stands for as a key, if it is the text
/// of a key.
pub fn parse_key(text: &str) -> (r: Option<(u16, u16)>)
    ensures
        r == parse_key_text(text@),
{
    let chars = characters(text);
    let n = chars.len();
    let mut start: usize = 0;
    let mut count: usize = 0;
    let mut first: u16 = 0;
    let mut second: u16 = 0;
    let mut finished = false;
    let ghost mut done: Seq<Seq<char>> = Seq::empty();
    assert(chars@.skip(0) =~= chars@);
    while !finished
        invariant
            n == chars.len(),
            start <= n,
            chars@ == text@,
            !finished ==> fields(chars@) == done + fields(chars@.skip(start as int)),
            finished ==> fields(chars@) == done,
            all_numbers(done),
            count == (if done.len() < 2 {
                done.len()
            } else {
                2
            }),
            count >= 1 ==> number_of(done[0]) == Some(first),
            count >= 2 ==> number_of(done[1]) == Some(second),
        decreases n - start + (if finished { 0int } else { 1int }),
    {
        let mut end = start;
        while end < n && chars[end] != ','
            invariant
                n == chars.len(),
                start <= end <= n,
                forall|j: int| start <= j < end ==> chars[j] != ',',
            decreases n - end,
        {
            end += 1;
        }
        let ghost rest = chars@.skip(start as int);
        let ghost field = chars@.subrange(start as int, end as int);
        proof {
            lemma_first_comma(rest, end - start);
            assert(rest.take(end - start) =~= field);
            if end < n {
                assert(rest.skip(end - start + 1) =~= chars@.skip(end + 1));
            }
            assert(fields(chars@)[done.len() as int] == field);
        }
        let number = match parse_number(&chars, start, end) {
            Some(number) => number,
            None => {
                return None;
            },
        };
        if count == 0 {
            first = number;
            count = 1;
        } else if count == 1 {
            second = number;
            count = 2;
        }
        proof {
            done = done.push(field);
        }
        if end == n {
            finished = true;
        } else {
            start = end + 1;
        }
    }
    if count >= 2 {
        Some((first, second))
    } else {
        None
    }
}

/// The decimal digit that stands for `d`, as a text of one character.
fn digit_text(d: usize) -> (text: &'static str)
    requires
        d <= 9,
    ensures
        text@ == seq![digit_char(d as int)],
{
    proof {
        reveal_strlit("0");
        reveal_strlit("1");
        reveal_strlit("2");
        reveal_strlit("3");
        reveal_strlit("4");
        reveal_strlit("5");
        reveal_strlit("6");
        reveal_strlit("7");
        reveal_strlit("8");
        reveal_strlit("9");
    }
    let text = if d == 0 {
        "0"
    } else if d == 1 {
        "1"
    } else if d == 2 {
        "2"
    } else if d == 3 {
        "3"
    } else if d == 4 {
        "4"
    } else if d == 5 {
        "5"
    } else if d == 6 {
        "6"
    } else if d == 7 {
        "7"
    } else if d == 8 {
        "8"
    } else {
        "9"
    };
    text
}

/// Writes `n` in decimal at the end of `text`.
pub(crate) fn push_decimal(text: &mut String, n: usize)
    ensures
        final(text)@ == old(text)@ + decimal(n as nat),
    decreases n,
{
    if n >= 10 {
        push_decimal(text, n / 10);
    }
    text.append(digit_text(n % 10));
}

/// The text of the key of the pair `(id0, id1)`.
pub fn format_key(id0: u16, id1: u16) -> (text: String)
    ensures
        text@ == key_text(id0, id1),
{
    let mut text = String::new();
    push_decimal(&mut text, id0 as usize);
    proof {
        reveal_strlit(",");
    }
    text.append(",");
    push_decimal(&mut text, id1 as usize);
    text
}

/// The decimal form of a number is made of digits, at least one, and stands
/// for that number.
pub proof fn lemma_decimal(n: nat)
    ensures
        decimal(n).len() > 0,
        all_digits(decimal(n)),
        digits_value(decimal(n)) == n,
    decreases n,
{
    if n >= 10 {
        lemma_decimal(n / 10);
        let init = decimal(n / 10);
        assert(decimal(n).drop_last() =~= init);
    } else {
        assert(decimal(n).drop_last() =~= Seq::<char>::empty());
        assert(digits_value(Seq::<char>::empty()) == 0);
    }
}

/// Writing a pair of type ids as the text of a key and reading that text
/// gives the pair back.
pub proof fn lemma_key_round_trip(id0: u16, id1: u16)
    ensures
        parse_key_text(key_text(id0, id1)) == Some((id0, id1)),
{
    let a = decimal(id0 as nat);
    let b = decimal(id1 as nat);
    let s = key_text(id0, id1);
    lemma_decimal(id0 as nat);
    lemma_decimal(id1 as nat);
    lemma_first_comma(s, a.len() as int);
    assert(s.take(a.len() as int) =~= a);
    assert(s.skip(a.len() as int + 1) =~= b);
    lemma_first_comma(b, b.len() as int);
    assert(fields(b) == seq![b]);
}

} // verus!
