//! Decimal numbers as text: printing them and reading them back.
use vstd::prelude::*;
use vstd::string::*;

verus! {

/// The character of a decimal digit.
pub open spec fn digit_char(d: nat) -> char
    recommends
        d < 10,
{
    (d + '0' as nat) as char
}

/// The decimal notation of `n`, without leading zeros.
pub open spec fn decimal(n: nat) -> Seq<char>
    decreases n,
{
    if n < 10 {
        seq![digit_char(n)]
    } else {
        decimal(n / 10).push(digit_char(n % 10))
    }
}

/// Whether `c` is one of the ten ASCII digits.
pub open spec fn is_digit(c: char) -> bool {
    '0' <= c <= '9'
}

/// Whether `s` is made of ASCII digits only.
pub open spec fn all_digits(s: Seq<char>) -> bool {
    forall|i: int| 0 <= i < s.len() ==> is_digit(#[trigger] s[i])
}

/// The number that a sequence of decimal digits stands for.
pub open spec fn digits_value(s: Seq<char>) -> nat
    decreases s.len(),
{
    if s.len() == 0 {
        0
    } else {
        10 * digits_value(s.drop_last()) + (s.last() as nat - '0' as nat) as nat
    }
}

/// `s` without one leading plus sign.
pub open spec fn without_plus(s: Seq<char>) -> Seq<char> {
    if s.len() > 0 && s[0] == '+' {
        s.skip(1)
    } else {
        s
    }
}

/// The number that `s` denotes: an optional plus sign, then at least one
/// digit and nothing else, with a value that fits in `usize`.
pub open spec fn number(s: Seq<char>) -> Option<usize> {
    let digits = without_plus(s);
    if digits.len() > 0 && all_digits(digits) && digits_value(digits) <= usize::MAX {
        Some(digits_value(digits) as usize)
    } else {
        None
    }
}

/// The characters of `s`.
pub fn chars_of(s: &str) -> (chars: Vec<char>)
    ensures
        chars@ == s@,
{
    let mut chars: Vec<char> = Vec::new();
    for c in it: s.chars()
        invariant
            it.seq() == s@,
            chars@ == s@.take(it.index()),
    {
        chars.push(c);
    }
    chars
}

fn digit_text(d: u64) -> (text: &'static str)
    requires
        d < 10,
    ensures
        text@ == seq![digit_char(d as nat)],
{
    proof {
        reveal_strlit("0");
        reveal_strlit("1");
        reveal_strlit("2");
        reveal_strlit("3");
        reveal_strlit("4");
        reveal_strlit("5");
        reveal_strlit("6");
        reveal_strlit("7");
        reveal_strlit("8");
        reveal_strlit("9");
    }
    match d {
        0 => "0",
        1 => "1",
        2 => "2",
        3 => "3",
        4 => "4",
        5 => "5",
        6 => "6",
        7 => "7",
        8 => "8",
        _ => "9",
    }
}

/// Appends the decimal notation of `n` to `out`.
pub fn append_decimal(out: &mut String, n: u64)
    ensures
        final(out)@ == old(out)@ + decimal(n as nat),
    decreases n,
{
    if n >= 10 {
        append_decimal(out, n / 10);
    }
    out.append(digit_text(n % 10));
}

/// Reads the number written in `chars[from..to]`.
pub fn parse_number(chars: &Vec<char>, from: usize, to: usize) -> (value: Option<usize>)
    requires
        from <= to <= chars@.len(),
    ensures
        value == number(chars@.subrange(from as int, to as int)),
{
    let ghost field = chars@.subrange(from as int, to as int);
    let ghost digits = without_plus(field);
    let first: usize = if from < to && chars[from] == '+' {
        from + 1
    } else {
        from
    };
    assert(digits =~= chars@.subrange(first as int, to as int));
    if first == to {
        return None;
    }
    let mut value: usize = 0;
    let mut i: usize = first;
    while i < to
        invariant
            first <= i <= to <= chars@.len(),
            digits == chars@.subrange(first as int, to as int),
            digits == without_plus(field),
            field == chars@.subrange(from as int, to as int),
            all_digits(digits.take(i - first)),
            value == digits_value(digits.take(i - first)),
        decreases to - i,
    {
        let c: char = chars[i];
        let ghost read = digits.take(i - first);
        assert(digits[i - first] == c);
        assert(digits.take(i - first + 1) =~= read.push(c));
        assert(read.push(c).drop_last() =~= read);
        if c < '0' || c > '9' {
            return None;
        }
        let d: usize = (c as u32 - '0' as u32) as usize;
        proof {
            lemma_value_grows(digits, i - first + 1);
            assert(digits_value(read.push(c)) == 10 * value + d);
            assert forall|j: int| 0 <= j < read.push(c).len() implies is_digit(
                #[trigger] read.push(c)[j],
            ) by {
                if j < read.len() {
                    assert(is_digit(read[j]));
                }
            }
        }
        if value > (usize::MAX - d) / 10 {
            return None;
        }
        value = 10 * value + d;
        i = i + 1;
    }
    assert(digits.take(to - first) =~= digits);
    Some(value)
}

/// Reading on never makes the value smaller.
proof fn lemma_value_grows(s: Seq<char>, k: int)
    requires
        0 <= k <= s.len(),
    ensures
        digits_value(s.take(k)) <= digits_value(s),
    decreases s.len() - k,
{
    if k == s.len() {
        assert(s.take(k) =~= s);
    } else {
        lemma_value_grows(s, k + 1);
        assert(s.take(k + 1).drop_last() =~= s.take(k));
    }
}

/// The decimal notation of a number consists of digits, and they stand for it.
pub proof fn lemma_decimal_digits(n: nat)
    ensures
        decimal(n).len() > 0,
        all_digits(decimal(n)),
        digits_value(decimal(n)) == n,
    decreases n,
{
    if n < 10 {
        let s = decimal(n);
        assert(s.drop_last() =~= Seq::<char>::empty());
        assert(digits_value(s.drop_last()) == 0);
    } else {
        lemma_decimal_digits(n / 10);
        let s = decimal(n);
        assert(s.drop_last() =~= decimal(n / 10));
        assert forall|i: int| 0 <= i < s.len() implies is_digit(#[trigger] s[i]) by {
            if i < s.len() - 1 {
                assert(is_digit(decimal(n / 10)[i]));
            }
        }
    }
}

/// Reading back the decimal notation of a number gives the number.
pub proof fn law_decimal_round_trip(n: usize)
    ensures
        number(decimal(n as nat)) == Some(n),
{
    lemma_decimal_digits(n as nat);
    assert(is_digit(decimal(n as nat)[0]));
}

/// A number below ten is shown as one digit; appending a digit to a larger
/// number multiplies it by ten and adds the digit. No two numbers are shown
/// alike.
pub proof fn law_decimal_by_digits(n: nat, d: nat, c: char)
    requires
        d < 10,
        c as nat == 48 + d,
    ensures
        decimal(d) == seq![c],
        n > 0 ==> decimal(10 * n + d) == decimal(n).push(c),
        forall|m: nat| m != n ==> #[trigger] decimal(m) != decimal(n),
{
    assert(digit_char(d) == c);
    assert((10 * n + d) / 10 == n && (10 * n + d) % 10 == d);
    lemma_decimal_digits(n);
    assert forall|m: nat| m != n implies #[trigger] decimal(m) != decimal(n) by {
        lemma_decimal_digits(m);
    }
}

/// Digits are read from left to right: one digit stands for itself, and each
/// further one multiplies what was read by ten and adds itself, unless the
/// result is too large for `usize`.
pub proof fn law_number_by_digits(s: Seq<char>, c: char)
    requires
        '0' <= c <= '9',
        forall|i: int| 0 <= i < s.len() ==> '0' <= #[trigger] s[i] <= '9',
    ensures
        number(seq![c]) == Some((c as int - 48) as usize),
        s.len() > 0 ==> match number(s) {
            Some(v) => if 10 * v + (c as int - 48) <= usize::MAX {
                number(s.push(c)) == Some((10 * v + (c as int - 48)) as usize)
            } else {
                number(s.push(c)) is None
            },
            None => number(s.push(c)) is None,
        },
{
    let one = seq![c];
    assert(one.drop_last() =~= Seq::<char>::empty());
    assert(digits_value(one.drop_last()) == 0);
    assert(digits_value(one) == c as nat - 48);
    assert(all_digits(one));
    if s.len() > 0 {
        let t = s.push(c);
        assert(is_digit(s[0]));
        assert(t[0] == s[0]);
        assert(t.drop_last() =~= s);
        assert(digits_value(t) == 10 * digits_value(s) + (c as nat - 48));
        assert(all_digits(s));
        assert forall|i: int| 0 <= i < t.len() implies is_digit(#[trigger] t[i]) by {
            if i < s.len() {
                assert('0' <= s[i] <= '9');
            }
        }
    }
}

/// One plus sign may stand before the digits. Nothing else is a number: not
/// the empty text, not a sign alone or twice, not a text with any other
/// character in it.
pub proof fn law_number_form(s: Seq<char>)
    ensures
        number(Seq::empty()) is None,
        number(seq!['+'] + s) == if s.len() > 0 && s[0] == '+' {
            None
        } else {
            number(s)
        },
        forall|i: int|
            0 <= i < s.len() && !('0' <= #[trigger] s[i] <= '9') && !(i == 0 && s[i] == '+')
                ==> number(s) is None,
{
    let t = seq!['+'] + s;
    assert(without_plus(t) =~= s);
    if s.len() > 0 && s[0] == '+' {
        assert(!is_digit(s[0]));
    }
    assert forall|i: int|
        0 <= i < s.len() && !('0' <= #[trigger] s[i] <= '9') && !(i == 0 && s[i] == '+') implies number(
        s,
    ) is None by {
        let digits = without_plus(s);
        if s[0] == '+' {
            assert(digits[i - 1] == s[i]);
            assert(!is_digit(digits[i - 1]));
        } else {
            assert(!is_digit(digits[i]));
        }
    }
}

} // verus!
