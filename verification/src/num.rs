//! Decimal numbers in text.

use vstd::prelude::*;
use crate::text::{digit, digit_value, is_digit, to_chars};

verus! {

/// The decimal form of `n`, without leading zeros.
pub open spec fn decimal(n: nat) -> Seq<char>
    decreases n,
{
    if n < 10 {
        seq![digit(n)]
    } else {
        decimal(n / 10).push(digit(n % 10))
    }
}

fn digit_char(d: u8) -> (c: char)
    requires
        d < 10,
    ensures
        c == digit(d as nat),
{
    (48 + d) as char
}

/// The decimal form of `n`, without leading zeros.
pub fn to_decimal(n: u64) -> (r: String)
    ensures
        r@ == decimal(n as nat),
    decreases n,
{
    if n < 10 {
        let mut out: String = String::new();
        out.push(digit_char(n as u8));
        assert(out@ =~= seq![digit(n as nat)]);
        out
    } else {
        let mut out: String = to_decimal(n / 10);
        out.push(digit_char((n % 10) as u8));
        out
    }
}

/// The decimal form of an integer, with a sign if it is negative.
pub open spec fn signed_decimal(n: int) -> Seq<char> {
    if n < 0 {
        seq!['-'] + decimal((-n) as nat)
    } else {
        decimal(n as nat)
    }
}

/// The decimal form of `n`, with a sign if it is negative.
pub fn to_signed_decimal(n: i64) -> (r: String)
    ensures
        r@ == signed_decimal(n as int),
{
    if n >= 0 {
        return to_decimal(n as u64);
    }
    let magnitude: u64 = (-(n as i128)) as u64;
    let mut out: String = String::new();
    out.push('-');
    let digits = to_decimal(magnitude);
    assert(out@ =~= seq!['-']);
    out.append(digits.as_str());
    out
}

/// The decimal form of `n` with at least two digits.
pub open spec fn two_digits(n: nat) -> Seq<char> {
    if n < 10 {
        seq!['0', digit(n)]
    } else {
        decimal(n)
    }
}

/// The decimal form of `n` with at least two digits.
pub fn to_two_digits(n: u64) -> (r: String)
    ensures
        r@ == two_digits(n as nat),
{
    if n < 10 {
        let mut out: String = String::new();
        out.push('0');
        out.push(digit_char(n as u8));
        assert(out@ =~= seq!['0', digit(n as nat)]);
        out
    } else {
        to_decimal(n)
    }
}

/// Whether `s` consists of decimal digits.
pub open spec fn all_digits(s: Seq<char>) -> bool {
    forall|i: int| 0 <= i < s.len() ==> is_digit(#[trigger] s[i])
}

/// The number that the digits of `s` write.
pub open spec fn digits_value(s: Seq<char>) -> int
    decreases s.len(),
{
    if s.len() == 0 {
        0
    } else {
        digits_value(s.drop_last()) * 10 + digit_value(s.last())
    }
}

/// `s` without one leading plus sign.
pub open spec fn without_plus(s: Seq<char>) -> Seq<char> {
    if s.len() > 0 && s[0] == '+' {
        s.skip(1)
    } else {
        s
    }
}

/// The number that `s` writes: an optional plus sign and at least one digit,
/// with a value of at most `max`.
pub open spec fn unsigned_value(s: Seq<char>, max: int) -> Option<int> {
    let d = without_plus(s);
    if d.len() > 0 && all_digits(d) && digits_value(d) <= max {
        Some(digits_value(d))
    } else {
        None
    }
}

proof fn lemma_prefix_value(s: Seq<char>, k: int)
    requires
        all_digits(s),
        0 <= k <= s.len(),
    ensures
        0 <= digits_value(s.take(k)) <= digits_value(s),
    decreases s.len(),
{
    if k == s.len() {
        assert(s.take(k) =~= s);
        if k > 0 {
            assert(s.drop_last() =~= s.take(k - 1));
            assert(all_digits(s.drop_last()));
            lemma_prefix_value(s.drop_last(), k - 1);
            assert(is_digit(s[k - 1]));
            assert(s.drop_last().take(k - 1) =~= s.drop_last());
        }
    } else {
        assert(all_digits(s.drop_last()));
        assert(s.drop_last().take(k) =~= s.take(k));
        lemma_prefix_value(s.drop_last(), k);
        assert(is_digit(s.last()));
    }
}

/// The number that a text writes is not negative.
pub proof fn lemma_unsigned_not_negative(s: Seq<char>, max: int)
    ensures
        unsigned_value(s, max) matches Some(n) ==> n >= 0,
{
    let d = without_plus(s);
    if all_digits(d) {
        lemma_prefix_value(d, d.len() as int);
    }
}

/// The number that `s` writes, if it is at most `max`.
pub fn parse_unsigned(s: &str, max: u64) -> (r: Option<u64>)
    ensures
        match r {
            Some(v) => unsigned_value(s@, max as int) == Some(v as int),
            None => unsigned_value(s@, max as int) is None,
        },
{
    let cs = to_chars(s);
    let n: usize = cs.len();
    let from: usize = if n > 0 && cs[0] == '+' {
        1
    } else {
        0
    };
    let ghost d = without_plus(s@);
    assert(d =~= cs@.skip(from as int));
    if from == n {
        return None;
    }
    let mut value: u64 = 0;
    let mut over: bool = false;
    let mut i: usize = from;
    assert(d.take(0) =~= Seq::<char>::empty());
    while i < n
        invariant
            from <= i <= n == cs@.len(),
            cs@ == s@,
            d == cs@.skip(from as int),
            d == without_plus(s@),
            forall|j: int| 0 <= j < i - from ==> is_digit(#[trigger] d[j]),
            over ==> digits_value(d.take(i - from)) > max,
            !over ==> value == digits_value(d.take(i - from)) && value <= max,
        decreases n - i,
    {
        let c = cs[i];
        if !(c >= '0' && c <= '9') {
            assert(!is_digit(d[i - from]));
            return None;
        }
        let x: u64 = (c as u8 - 48) as u64;
        proof {
            assert(d.take(i + 1 - from).drop_last() =~= d.take(i - from));
            assert(d[i - from] == c);
            assert(all_digits(d.take(i - from)));
            lemma_prefix_value(d.take(i - from), 0);
        }
        if !over {
            if x > max || value > (max - x) / 10 {
                over = true;
            } else {
                value = value * 10 + x;
            }
        }
        i = i + 1;
    }
    assert(d.take(n - from) =~= d);
    if over {
        None
    } else {
        Some(value)
    }
}

proof fn lemma_decimal_digits(n: nat)
    ensures
        decimal(n).len() > 0,
        all_digits(decimal(n)),
        digits_value(decimal(n)) == n,
    decreases n,
{
    if n < 10 {
        let s = decimal(n);
        assert(s.drop_last() =~= Seq::<char>::empty());
        assert(digits_value(s.drop_last()) == 0);
        assert(is_digit(digit(n)));
    } else {
        lemma_decimal_digits(n / 10);
        let s = decimal(n);
        assert(s.drop_last() =~= decimal(n / 10));
        assert(is_digit(digit(n % 10)));
        assert forall|i: int| 0 <= i < s.len() implies is_digit(#[trigger] s[i]) by {
            if i < s.len() - 1 {
                assert(s[i] == decimal(n / 10)[i]);
            }
        }
    }
}

/// Reading the decimal form of a number gives the number back.
pub proof fn decimal_reads_back(n: nat, max: int)
    requires
        n <= max,
    ensures
        unsigned_value(decimal(n), max) == Some(n as int),
{
    lemma_decimal_digits(n);
    assert(is_digit(decimal(n)[0]));
}

/// The decimal form of a number is a word of digits.
pub proof fn decimal_is_digits(n: nat)
    ensures
        decimal(n).len() > 0,
        all_digits(decimal(n)),
{
    lemma_decimal_digits(n);
}

/// How many digits `s` starts with.
pub open spec fn digit_run(s: Seq<char>) -> int
    decreases s.len(),
{
    if s.len() == 0 || !is_digit(s[0]) {
        0
    } else {
        1 + digit_run(s.skip(1))
    }
}

/// What is wrong with a text that is no number of at most `max`.
pub open spec fn unsigned_fault(s: Seq<char>, max: int) -> Seq<char> {
    let d = without_plus(s);
    if s.len() == 0 {
        "cannot parse integer from empty string"@
    } else if digits_value(d.take(digit_run(d))) > max {
        "number too large to fit in target type"@
    } else {
        "invalid digit found in string"@
    }
}

proof fn lemma_digit_run(s: Seq<char>, k: int)
    requires
        0 <= k <= s.len(),
        forall|j: int| 0 <= j < k ==> is_digit(#[trigger] s[j]),
        k < s.len() ==> !is_digit(s[k]),
    ensures
        digit_run(s) == k,
    decreases s.len(),
{
    if k > 0 {
        assert forall|j: int| 0 <= j < k - 1 implies is_digit(#[trigger] s.skip(1)[j]) by {
            assert(s.skip(1)[j] == s[j + 1]);
        }
        assert(is_digit(s[0]));
        lemma_digit_run(s.skip(1), k - 1);
    }
}

/// What is wrong with a text that is no number of at most `max`.
pub fn explain_unsigned(s: &str, max: u64) -> (r: String)
    ensures
        r@ == unsigned_fault(s@, max as int),
{
    let cs = to_chars(s);
    let n: usize = cs.len();
    if n == 0 {
        return "cannot parse integer from empty string".to_owned();
    }
    let from: usize = if cs[0] == '+' {
        1
    } else {
        0
    };
    let ghost d = without_plus(s@);
    assert(d =~= cs@.skip(from as int));
    let mut value: u64 = 0;
    let mut over: bool = false;
    let mut i: usize = from;
    assert(d.take(0) =~= Seq::<char>::empty());
    while i < n && cs[i] >= '0' && cs[i] <= '9'
        invariant
            from <= i <= n == cs@.len(),
            cs@ == s@,
            d == cs@.skip(from as int),
            forall|j: int| 0 <= j < i - from ==> is_digit(#[trigger] d[j]),
            over ==> digits_value(d.take(i - from)) > max,
            !over ==> value == digits_value(d.take(i - from)) && value <= max,
        decreases n - i,
    {
        let c = cs[i];
        let x: u64 = (c as u8 - 48) as u64;
        proof {
            assert(d.take(i + 1 - from).drop_last() =~= d.take(i - from));
            assert(d[i - from] == c);
            assert(all_digits(d.take(i - from)));
            lemma_prefix_value(d.take(i - from), 0);
        }
        if !over {
            if x > max || value > (max - x) / 10 {
                over = true;
            } else {
                value = value * 10 + x;
            }
        }
        i = i + 1;
    }
    proof {
        if i < n {
            assert(d[i - from] == cs@[i as int]);
        }
        lemma_digit_run(d, i - from);
    }
    if over {
        "number too large to fit in target type".to_owned()
    } else {
        "invalid digit found in string".to_owned()
    }
}

// ---------------------------------------------------------------------------
// Laws

/// A number that was written is read back where it may be so large, and not where it
/// may not; two digits are two, and read as the number too.
pub proof fn written_numbers_are_read(
    n: u64,
    text: String,
    s: &str,
    max: u64,
    r: Option<u64>,
    small: u64,
    two: String,
    t: &str,
    q: Option<u64>,
)
    requires
        call_ensures(to_decimal, (n,), text),
        s@ == text@,
        call_ensures(parse_unsigned, (s, max), r),
        small < 100,
        call_ensures(to_two_digits, (small,), two),
        t@ == two@,
        call_ensures(parse_unsigned, (t, 99), q),
    ensures
        n <= max ==> r == Some(n),
        n > max ==> r is None,
        two@.len() == 2,
        q == Some(small),
{
    lemma_decimal_digits(n as nat);
    assert(is_digit(decimal(n as nat)[0]));
    lemma_decimal_digits(small as nat);
    assert(is_digit(decimal(small as nat)[0]));
    reveal_with_fuel(decimal, 3);
    if small < 10 {
        let d = two@;
        assert(d.drop_last() =~= seq!['0']);
        assert(d.drop_last().drop_last() =~= Seq::<char>::empty());
        reveal_with_fuel(digits_value, 3);
        assert(all_digits(d)) by {
            assert forall|i: int| 0 <= i < d.len() implies is_digit(#[trigger] d[i]) by {
                assert(i == 0 || i == 1);
            }
        }
    } else {
        assert(decimal(small as nat / 10).len() == 1);
    }
}

/// A negative number is written with a sign, and any other as it is.
pub proof fn signs_are_written(n: i64, r: String, m: u64, plain: String)
    requires
        m == (if n < 0 {
            -n
        } else {
            n as int
        }),
        call_ensures(to_signed_decimal, (n,), r),
        call_ensures(to_decimal, (m,), plain),
    ensures
        n < 0 ==> r@ == seq!['-'] + plain@,
        n >= 0 ==> r@ == plain@,
{
}

/// Only digits are read as a number, with a plus before them or not.
pub proof fn only_digits_are_numbers(s: &str, max: u64, i: int, r: Option<u64>)
    requires
        call_ensures(parse_unsigned, (s, max), r),
        0 <= i < s@.len(),
    ensures
        i > 0 && !('0' <= s@[i] && s@[i] <= '9') ==> r is None,
        !('0' <= s@[0] && s@[0] <= '9') && s@[0] != '+' ==> r is None,
        r matches Some(n) ==> n <= max,
{
    let d = without_plus(s@);
    if i > 0 && !('0' <= s@[i] && s@[i] <= '9') {
        if s@[0] == '+' {
            assert(d[i - 1] == s@[i]);
        } else {
            assert(d[i] == s@[i]);
        }
    }
    if !('0' <= s@[0] && s@[0] <= '9') && s@[0] != '+' {
        assert(d[0] == s@[0]);
    }
}

/// The decimal form of a small number has no zero before it.
pub proof fn lemma_octet(n: nat)
    requires
        n < 256,
    ensures
        1 <= decimal(n).len() <= 3,
        decimal(n).len() > 1 ==> decimal(n)[0] != '0',
        all_digits(decimal(n)),
        digits_value(decimal(n)) == n,
{
    lemma_decimal_digits(n);
    reveal_with_fuel(decimal, 4);
    if n >= 100 {
        assert(decimal(n)[0] == digit(n / 10 / 10));
    } else if n >= 10 {
        assert(decimal(n)[0] == digit(n / 10));
    }
}

} // verus!
