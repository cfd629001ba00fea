//! Decimal text for integers: formatting (as `Display` prints them) and
//! parsing (as `str::parse::<i64>` accepts them).
use vstd::prelude::*;

verus! {

/// The character of a decimal digit `0 <= d < 10`.
pub open spec fn digit_char(d: int) -> char {
    (d + 48) as char
}

pub open spec fn is_digit(c: char) -> bool {
    '0' <= c && c <= '9'
}

pub open spec fn digit_value(c: char) -> int {
    c as int - 48
}

/// Decimal digits of a natural number, most significant first, no leading zeros.
pub open spec fn decimal_nat(n: nat) -> Seq<char>
    decreases n,
{
    if n < 10 {
        seq![digit_char(n as int)]
    } else {
        decimal_nat(n / 10) + seq![digit_char((n % 10) as int)]
    }
}

/// Decimal text of an integer: a `-` before the digits of a negative number.
pub open spec fn decimal_int(i: int) -> Seq<char> {
    if i < 0 {
        seq!['-'] + decimal_nat((-i) as nat)
    } else {
        decimal_nat(i as nat)
    }
}

pub open spec fn all_digits(s: Seq<char>) -> bool {
    forall|k: int| 0 <= k < s.len() ==> is_digit(#[trigger] s[k])
}

/// The number that a string of digits denotes.
pub open spec fn digits_value(s: Seq<char>) -> int
    decreases s.len(),
{
    if s.len() == 0 {
        0
    } else {
        digits_value(s.drop_last()) * 10 + digit_value(s.last())
    }
}

/// What `str::parse::<i64>` accepts: an optional `+` or `-`, then one or more
/// ASCII digits, denoting a value in the range of `i64`.
pub open spec fn parse_i64_spec(s: Seq<char>) -> Option<i64> {
    let neg = s.len() > 0 && s[0] == '-';
    let body = if s.len() > 0 && (s[0] == '-' || s[0] == '+') { s.skip(1) } else { s };
    if body.len() == 0 || !all_digits(body) {
        None
    } else {
        let v: int = if neg { -digits_value(body) } else { digits_value(body) };
        if i64::MIN <= v && v <= i64::MAX {
            Some(v as i64)
        } else {
            None
        }
    }
}

/// `String::push`: appends one character.
#[verifier::external_body]
pub(crate) fn push_char(s: &mut String, c: char)
    ensures
        final(s)@ == old(s)@.push(c),
{
    s.push(c);
}

pub fn append_u64_decimal(out: &mut String, n: u64)
    ensures
        final(out)@ == old(out)@ + decimal_nat(n as nat),
    decreases n,
{
    if n >= 10 {
        append_u64_decimal(out, n / 10);
    }
    let d: u8 = (n % 10) as u8;
    let c: char = (48u8 + d) as char;
    push_char(out, c);
    proof {
        assert(c == digit_char((n % 10) as int));
        if n >= 10 {
            assert(decimal_nat(n as nat) == decimal_nat((n / 10) as nat) + seq![digit_char((n % 10) as int)]);
        }
    }
}

/// Appends the decimal text of `v` to `out`.
pub fn append_i64_decimal(out: &mut String, v: i64)
    ensures
        final(out)@ == old(out)@ + decimal_int(v as int),
{
    if v < 0 {
        push_char(out, '-');
        let m: u64 = if v == i64::MIN { 9223372036854775808u64 } else { (-v) as u64 };
        append_u64_decimal(out, m);
        assert(old(out)@.push('-') + decimal_nat(m as nat) =~= old(out)@ + (seq!['-'] + decimal_nat(m as nat)));
    } else {
        append_u64_decimal(out, v as u64);
    }
}

/// The decimal text of `v`, as `v.to_string()` gives it.
pub fn i64_to_decimal(v: i64) -> (s: String)
    ensures
        s@ == decimal_int(v as int),
{
    let mut s = String::new();
    append_i64_decimal(&mut s, v);
    assert(s@ =~= decimal_int(v as int));
    s
}

proof fn lemma_digits_value_prefix_nonneg(s: Seq<char>, j: int)
    requires
        0 <= j <= s.len(),
        all_digits(s),
    ensures
        0 <= digits_value(s.subrange(0, j)),
    decreases j,
{
    if j > 0 {
        lemma_digits_value_prefix_nonneg(s, j - 1);
        assert(s.subrange(0, j).drop_last() =~= s.subrange(0, j - 1));
        assert(is_digit(s[j - 1]));
    }
}

proof fn lemma_digits_value_prefix_grows(s: Seq<char>, j: int, k: int)
    requires
        0 <= j <= k <= s.len(),
        all_digits(s),
    ensures
        digits_value(s.subrange(0, j)) <= digits_value(s.subrange(0, k)),
    decreases k - j,
{
    if j < k {
        lemma_digits_value_prefix_grows(s, j, k - 1);
        lemma_digits_value_prefix_nonneg(s, k - 1);
        assert(s.subrange(0, k).drop_last() =~= s.subrange(0, k - 1));
        assert(is_digit(s[k - 1]));
    }
}

proof fn lemma_decimal_nat_digits(n: nat)
    ensures
        decimal_nat(n).len() >= 1,
        all_digits(decimal_nat(n)),
        digits_value(decimal_nat(n)) == n,
    decreases n,
{
    let d = digit_char((n % 10) as int);
    assert(digit_value(d) == n % 10);
    if n < 10 {
        assert(decimal_nat(n).drop_last() =~= Seq::<char>::empty());
        assert(decimal_nat(n).last() == d);
        assert(digits_value(Seq::<char>::empty()) == 0);
    } else {
        lemma_decimal_nat_digits(n / 10);
        let s = decimal_nat(n);
        assert(s.drop_last() =~= decimal_nat(n / 10));
        assert(s.last() == d);
        assert((n / 10) * 10 + n % 10 == n);
        assert forall|k: int| 0 <= k < s.len() implies is_digit(#[trigger] s[k]) by {
            if k < s.len() - 1 {
                assert(s[k] == decimal_nat(n / 10)[k]);
            }
        }
    }
}

/// Decimal text read back: for every `i64`, parsing the text that formatting
/// gives yields the same number.
pub proof fn lemma_parse_decimal_roundtrip(i: i64)
    ensures
        parse_i64_spec(decimal_int(i as int)) == Some(i),
{
    let t = decimal_int(i as int);
    if i < 0 {
        lemma_decimal_nat_digits((-i) as nat);
        assert(t.skip(1) =~= decimal_nat((-i) as nat));
    } else {
        lemma_decimal_nat_digits(i as nat);
        assert(is_digit(t[0]));
    }
}

/// Parses decimal text as `str::parse::<i64>` does; `None` where it gives an error.
pub fn parse_i64(s: &str) -> (r: Option<i64>)
    ensures
        r == parse_i64_spec(s@),
{
    let n = s.unicode_len();
    if n == 0 {
        return None;
    }
    let first = s.get_char(0);
    let neg = first == '-';
    let start: usize = if first == '-' || first == '+' { 1 } else { 0 };
    let ghost body = if s@.len() > 0 && (s@[0] == '-' || s@[0] == '+') { s@.skip(1) } else { s@ };
    assert(body =~= s@.subrange(start as int, n as int));
    if start == n {
        return None;
    }
    let mut acc: u64 = 0;
    let mut i: usize = start;
    while i < n
        invariant
            start <= i <= n,
            n == s@.len(),
            start < n,
            body =~= s@.subrange(start as int, n as int),
            body == (if s@.len() > 0 && (s@[0] == '-' || s@[0] == '+') { s@.skip(1) } else { s@ }),
            all_digits(body.subrange(0, i - start)),
            acc as int == digits_value(body.subrange(0, i - start)),
            acc <= 9223372036854775808u64,
        decreases n - i,
    {
        let c = s.get_char(i);
        if !(c >= '0' && c <= '9') {
            assert(!is_digit(body[i - start]));
            assert(!all_digits(body));
            assert(body.len() > 0);
            assert(parse_i64_spec(s@) is None);
            return None;
        }
        let d: u64 = (c as u32 - 48u32) as u64;
        assert(body.subrange(0, i - start + 1).drop_last() =~= body.subrange(0, i - start));
        assert(body.subrange(0, i - start + 1).last() == c);
        if acc > (9223372036854775808u64 - d) / 10 {
            proof {
                if all_digits(body) {
                    lemma_digits_value_prefix_grows(body, i - start + 1, body.len() as int);
                    assert(body.subrange(0, body.len() as int) =~= body);
                    assert(digits_value(body) > 9223372036854775808u64);
                }
                assert(parse_i64_spec(s@) is None);
            }
            return None;
        }
        acc = acc * 10 + d;
        i = i + 1;
        assert forall|k: int| 0 <= k < body.subrange(0, i - start).len() implies is_digit(
            #[trigger] body.subrange(0, i - start)[k],
        ) by {
            if k < i - start - 1 {
                assert(body.subrange(0, i - start)[k] == body.subrange(0, i - start - 1)[k]);
            }
        }
    }
    assert(body.subrange(0, n - start) =~= body);
    if neg {
        if acc == 9223372036854775808u64 {
            Some(i64::MIN)
        } else {
            Some(-(acc as i64))
        }
    } else {
        if acc > 9223372036854775807u64 {
            None
        } else {
            Some(acc as i64)
        }
    }
}

} // verus!
