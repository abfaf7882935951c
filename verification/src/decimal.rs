use vstd::prelude::*;
use crate::text::string_from_chars;

verus! {

/// The ASCII character of the decimal digit `d`.
pub open spec fn digit_char(d: nat) -> char {
    (d + 48) as char
}

/// The decimal numeral of `n`: no sign, no leading zeros, "0" for zero.
pub open spec fn decimal_chars(n: nat) -> Seq<char>
    decreases n,
{
    if n < 10 {
        seq![digit_char(n)]
    } else {
        decimal_chars(n / 10).push(digit_char(n % 10))
    }
}

/// An ASCII decimal digit.
pub open spec fn is_digit(c: char) -> bool {
    '0' <= c && c <= '9'
}

/// Every character of `s` is an ASCII decimal digit.
pub open spec fn all_digits(s: Seq<char>) -> bool {
    forall|i: int| 0 <= i < s.len() ==> is_digit(#[trigger] s[i])
}

/// The value of the digit character `c`.
pub open spec fn digit_value(c: char) -> int {
    c as int - 48
}

/// The value of a string of digits read in base ten (leading zeros allowed).
pub open spec fn digits_value(s: Seq<char>) -> int
    decreases s.len(),
{
    if s.len() == 0 {
        0
    } else {
        digits_value(s.drop_last()) * 10 + digit_value(s.last())
    }
}

/// What `str::parse::<i64>` gives: an optional `+` or `-`, then at least one
/// ASCII digit and nothing else, with the value in the range of `i64`.
pub open spec fn parse_i64_spec(s: Seq<char>) -> Option<i64> {
    let signed = s.len() > 0 && (s[0] == '-' || s[0] == '+');
    let body = if signed { s.drop_first() } else { s };
    let magnitude = digits_value(body);
    let value = if s.len() > 0 && s[0] == '-' { -magnitude } else { magnitude };
    if body.len() == 0 || !all_digits(body) {
        None
    } else if i64::MIN <= value <= i64::MAX {
        Some(value as i64)
    } else {
        None
    }
}

/// A digit string is worth at least as much as any of its prefixes.
pub proof fn lemma_digits_value_prefix(s: Seq<char>, k: int)
    requires
        0 <= k <= s.len(),
        all_digits(s),
    ensures
        0 <= digits_value(s.take(k)) <= digits_value(s),
    decreases s.len(),
{
    if s.len() > 0 {
        let t = s.drop_last();
        assert(all_digits(t)) by {
            assert forall|i: int| 0 <= i < t.len() implies is_digit(#[trigger] t[i]) by {
                assert(t[i] == s[i]);
            }
        }
        assert(is_digit(s[s.len() - 1]));
        if k == s.len() {
            assert(s.take(k) =~= s);
            lemma_digits_value_prefix(t, 0);
            assert(t.take(0) =~= Seq::<char>::empty());
        } else {
            lemma_digits_value_prefix(t, k);
            assert(t.take(k) =~= s.take(k));
        }
    }
}

/// The numeral of `n` is made of digits, begins with a digit, and reads back as `n`.
pub proof fn lemma_decimal_chars(n: nat)
    ensures
        decimal_chars(n).len() >= 1,
        all_digits(decimal_chars(n)),
        digits_value(decimal_chars(n)) == n,
    decreases n,
{
    if n < 10 {
        let s = decimal_chars(n);
        assert(s.drop_last() =~= Seq::<char>::empty());
        assert(digits_value(s.drop_last()) == 0);
        assert(digit_char(n) as int == n + 48);
        assert(digits_value(s) == digit_value(s.last()));
    } else {
        lemma_decimal_chars(n / 10);
        assert(digit_char(n % 10) as int == n % 10 + 48);
        assert((n / 10) * 10 + n % 10 == n);
        let s = decimal_chars(n);
        assert(s.drop_last() =~= decimal_chars(n / 10));
        assert(s.last() == digit_char(n % 10));
        assert(digits_value(s) == digits_value(decimal_chars(n / 10)) * 10 + digit_value(digit_char(n % 10)));
        assert forall|i: int| 0 <= i < s.len() implies is_digit(#[trigger] s[i]) by {
            if i < s.len() - 1 {
                assert(s[i] == decimal_chars(n / 10)[i]);
            }
        }
    }
}

/// A digit string is canonical: it is "0" or begins with a nonzero digit.
pub open spec fn no_leading_zero(s: Seq<char>) -> bool {
    s.len() == 1 || (s.len() > 1 && s[0] != '0')
}

/// The numeral of `n` is the decimal writing of `n` with no leading zero: made of
/// digits, worth `n`, "0" for zero, and starting with a nonzero digit otherwise.
pub proof fn lemma_decimal_canonical(n: nat)
    ensures
        decimal_chars(n).len() >= 1,
        all_digits(decimal_chars(n)),
        digits_value(decimal_chars(n)) == n,
        n == 0 ==> decimal_chars(n) == seq!['0'],
        n >= 1 ==> decimal_chars(n)[0] != '0',
        no_leading_zero(decimal_chars(n)),
    decreases n,
{
    lemma_decimal_chars(n);
    if n < 10 {
        assert(digit_char(n) as int == n + 48);
        if n == 0 {
            assert(decimal_chars(n) =~= seq!['0']);
        }
    } else {
        lemma_decimal_canonical(n / 10);
        let s = decimal_chars(n);
        assert(s[0] == decimal_chars(n / 10)[0]);
    }
}

/// The numeral of `n` is the only canonical digit string worth `n`.
pub proof fn lemma_decimal_unique(s: Seq<char>, n: nat)
    requires
        all_digits(s),
        no_leading_zero(s),
        digits_value(s) == n,
    ensures
        s == decimal_chars(n),
    decreases s.len(),
{
    let c = s.last();
    assert(is_digit(s[s.len() - 1]));
    assert(c == s[s.len() - 1]);
    let t = s.drop_last();
    if s.len() == 1 {
        assert(t =~= Seq::<char>::empty());
        assert(digits_value(t) == 0);
        assert(n == c as int - 48);
        assert(digit_char(n) == c);
        assert(s =~= seq![digit_char(n)]);
    } else {
        assert(all_digits(t)) by {
            assert forall|i: int| 0 <= i < t.len() implies is_digit(#[trigger] t[i]) by {
                assert(t[i] == s[i]);
            }
        }
        assert(t[0] == s[0]);
        assert(no_leading_zero(t));
        lemma_digits_value_prefix(t, 1);
        let t1 = t.take(1);
        assert(t1.drop_last() =~= Seq::<char>::empty());
        assert(digits_value(t1.drop_last()) == 0);
        assert(t1.last() == t[0]);
        assert(is_digit(t[0]));
        assert(digits_value(t1) == digit_value(t[0]));
        assert(digits_value(t) >= 1);
        let m = digits_value(t);
        assert(n == m * 10 + (c as int - 48));
        assert(n / 10 == m);
        assert(n % 10 == c as int - 48);
        lemma_decimal_unique(t, m as nat);
        assert(digit_char((n % 10) as nat) == c);
        assert(s =~= t.push(c));
    }
}

/// A decimal numeral parses back to its value when that fits in `i64`, and
/// fails to parse when it does not.
pub proof fn lemma_parse_decimal(n: nat)
    ensures
        parse_i64_spec(decimal_chars(n)) == (if n <= i64::MAX {
            Some(n as i64)
        } else {
            None::<i64>
        }),
{
    lemma_decimal_chars(n);
    let s = decimal_chars(n);
    assert(is_digit(s[0]));
}

/// Appends the decimal numeral of `n` to `out`.
fn push_decimal(n: u64, out: &mut Vec<char>)
    ensures
        final(out)@ == old(out)@ + decimal_chars(n as nat),
    decreases n,
{
    if n < 10 {
        out.push(((n as u8) + 48) as char);
        assert(old(out)@.push(digit_char(n as nat)) =~= old(out)@ + decimal_chars(n as nat));
    } else {
        push_decimal(n / 10, out);
        let d = (n % 10) as u8;
        out.push((d + 48) as char);
        assert(old(out)@ + decimal_chars((n / 10) as nat).push(digit_char((n % 10) as nat))
            =~= old(out)@ + decimal_chars(n as nat));
    }
}

/// The decimal numeral of `n` as characters.
pub fn decimal_vec(n: u64) -> (v: Vec<char>)
    ensures
        v@ == decimal_chars(n as nat),
{
    let mut v: Vec<char> = Vec::new();
    push_decimal(n, &mut v);
    assert(Seq::<char>::empty() + decimal_chars(n as nat) =~= decimal_chars(n as nat));
    v
}

/// The decimal numeral of `n`, as `n.to_string()` gives it.
pub fn u64_to_decimal(n: u64) -> (s: String)
    ensures
        s@ == decimal_chars(n as nat),
{
    let v = decimal_vec(n);
    string_from_chars(v.as_slice())
}

/// Reads a signed decimal integer as `str::parse::<i64>` does; `None` where it
/// would return an error.
pub fn parse_i64(s: &Vec<char>) -> (r: Option<i64>)
    ensures
        r == parse_i64_spec(s@),
{
    let n = s.len();
    let neg = n > 0 && s[0] == '-';
    let signed = n > 0 && (s[0] == '-' || s[0] == '+');
    let start: usize = if signed { 1 } else { 0 };
    let ghost body = if signed { s@.drop_first() } else { s@ };
    assert(body =~= s@.subrange(start as int, n as int));
    if start == n {
        return None;
    }
    let limit: u128 = 0x8000_0000_0000_0000;
    let mut acc: u128 = 0;
    let mut i: usize = start;
    while i < n
        invariant
            n == s@.len(),
            start <= i <= n,
            body == s@.subrange(start as int, n as int),
            signed == (s@.len() > 0 && (s@[0] == '-' || s@[0] == '+')),
            body == (if signed { s@.drop_first() } else { s@ }),
            acc <= limit,
            limit == 0x8000_0000_0000_0000,
            all_digits(body.take(i - start)),
            acc == digits_value(body.take(i - start)),
        decreases n - i,
    {
        let c = s[i];
        let ghost k = i - start;
        if !('0' <= c && c <= '9') {
            assert(body[k] == c);
            assert(!is_digit(body[k]));
            return None;
        }
        acc = acc * 10 + ((c as u32 - 48) as u128);
        proof {
            let t = body.take(k + 1);
            assert(t.drop_last() =~= body.take(k));
            assert(t.last() == c);
            assert forall|j: int| 0 <= j < t.len() implies is_digit(#[trigger] t[j]) by {
                if j < k {
                    assert(t[j] == body.take(k)[j]);
                }
            }
            assert(acc == digits_value(t));
        }
        if acc > limit {
            proof {
                if all_digits(body) {
                    lemma_digits_value_prefix(body, k + 1);
                    assert(digits_value(body) > limit);
                }
            }
            return None;
        }
        i = i + 1;
    }
    assert(body.take(n - start) =~= body);
    if neg {
        if acc == limit {
            Some(i64::MIN)
        } else {
            Some(-(acc as i64))
        }
    } else if acc < limit {
        Some(acc as i64)
    } else {
        None
    }
}

} // verus!
