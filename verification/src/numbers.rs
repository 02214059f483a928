//! Decimal numbers: parsing integer literal text, validating the shape of
//! fractional/exponent number text, and rendering integers back to text.
use vstd::prelude::*;

verus! {

/// `c` is a decimal digit (codepoints 48 through 57).
pub open spec fn is_digit(c: char) -> bool {
    48 <= c as u32 && c as u32 <= 57
}

pub open spec fn digit_val(c: char) -> int {
    c as u32 - 48
}

pub open spec fn all_digits(s: Seq<char>) -> bool {
    forall|i: int| 0 <= i < s.len() ==> is_digit(#[trigger] s[i])
}

/// The number denoted by a sequence of digits, most significant first.
pub open spec fn digits_value(s: Seq<char>) -> int
    decreases s,
{
    if s.len() == 0 {
        0
    } else {
        digits_value(s.drop_last()) * 10 + digit_val(s.last())
    }
}

pub open spec fn pow10(n: nat) -> int
    decreases n,
{
    if n == 0 {
        1
    } else {
        10 * pow10((n - 1) as nat)
    }
}

/// The digits of `s` after an optional leading minus sign.
pub open spec fn int_body(s: Seq<char>) -> Seq<char> {
    if s.len() > 0 && s[0] == '-' {
        s.skip(1)
    } else {
        s
    }
}

/// `s` is an integer literal: an optional minus sign, then either a single
/// zero or a nonzero digit followed by digits.
pub open spec fn is_int_token(s: Seq<char>) -> bool {
    let b = int_body(s);
    &&& b.len() > 0
    &&& all_digits(b)
    &&& (b.len() == 1 || b[0] != '0')
}

pub open spec fn int_token_value(s: Seq<char>) -> int {
    if s.len() > 0 && s[0] == '-' {
        -digits_value(int_body(s))
    } else {
        digits_value(int_body(s))
    }
}

/// What parsing an integer literal yields: its value when the text is a
/// well-formed integer literal whose value fits in 64 signed bits, absent
/// otherwise.
pub open spec fn spec_parse_int(s: Seq<char>) -> Option<i64> {
    if is_int_token(s) && i64::MIN <= int_token_value(s) <= i64::MAX {
        Option::Some(int_token_value(s) as i64)
    } else {
        Option::None
    }
}

pub proof fn lemma_digits_value_bounds(s: Seq<char>)
    requires
        all_digits(s),
    ensures
        0 <= digits_value(s) < pow10(s.len()),
    decreases s,
{
    if s.len() > 0 {
        assert(all_digits(s.drop_last())) by {
            assert(forall|i: int| 0 <= i < s.len() - 1 ==> s.drop_last()[i] == s[i]);
        }
        lemma_digits_value_bounds(s.drop_last());
    }
}

pub proof fn lemma_digits_value_lower(s: Seq<char>)
    requires
        all_digits(s),
        s.len() > 0,
        s[0] != '0',
    ensures
        digits_value(s) >= pow10((s.len() - 1) as nat),
    decreases s,
{
    if s.len() == 1 {
        let c = s[0];
        assert(is_digit(c));
        crate::chars::lemma_char_eq_u32(c, '0');
        assert(digit_val(c) >= 1);
    } else {
        assert(all_digits(s.drop_last())) by {
            assert(forall|i: int| 0 <= i < s.len() - 1 ==> s.drop_last()[i] == s[i]);
        }
        assert(s.drop_last()[0] == s[0]);
        lemma_digits_value_lower(s.drop_last());
        assert(pow10((s.len() - 1) as nat) == 10 * pow10((s.len() - 2) as nat));
        assert(is_digit(s[s.len() - 1]));
        assert(digit_val(s.last()) >= 0);
        assert(digits_value(s.drop_last()) * 10 >= pow10((s.len() - 2) as nat) * 10)
            by (nonlinear_arith)
            requires
                digits_value(s.drop_last()) >= pow10((s.len() - 2) as nat),
        ;
    }
}

/// Parses `s` as an integer literal; yields the value exactly when the text
/// is well-formed and the value fits in an `i64`.
#[verifier::loop_isolation(false)]
pub fn parse_int_chars(s: &Vec<char>) -> (r: Option<i64>)
    ensures
        r == spec_parse_int(s@),
{
    let neg = s.len() > 0 && s[0] == '-';
    let start: usize = if neg {
        1
    } else {
        0
    };
    let ghost body = int_body(s@);
    proof {
        if neg {
            assert(body =~= s@.skip(1));
        } else {
            assert(body =~= s@);
        }
    }
    if s.len() == start {
        return Option::None;
    }
    // every remaining character must be a digit
    let mut j: usize = start;
    while j < s.len()
        invariant
            start <= j <= s@.len(),
            forall|k: int| start <= k < j ==> is_digit(#[trigger] s@[k]),
        decreases s@.len() - j,
    {
        let c = s[j];
        if !(c as u32 >= 48 && c as u32 <= 57) {
            proof {
                assert(body[j - start] == s@[j as int]);
                assert(!all_digits(body));
            }
            return Option::None;
        }
        j = j + 1;
    }
    proof {
        assert(forall|k: int| 0 <= k < body.len() ==> body[k] == s@[k + start]);
        assert(all_digits(body));
    }
    // a multi-digit body must not begin with zero
    if s.len() - start > 1 && s[start] == '0' {
        return Option::None;
    }
    // twenty or more digits always overflow a 64-bit integer
    if s.len() - start > 19 {
        proof {
            lemma_digits_value_lower(body);
            assert(pow10(19) == 10_000_000_000_000_000_000) by {
                reveal_with_fuel(pow10, 20);
            }
            assert(digits_value(body) >= pow10((body.len() - 1) as nat));
            assert(pow10((body.len() - 1) as nat) >= pow10(19)) by {
                lemma_pow10_mono(19, (body.len() - 1) as nat);
            }
        }
        return Option::None;
    }
    // accumulate the magnitude; at most nineteen digits fit well inside u128
    let mut acc: u128 = 0;
    let mut i: usize = start;
    while i < s.len()
        invariant
            start <= i <= s@.len(),
            acc == digits_value(s@.subrange(start as int, i as int)),
            0 <= acc < pow10((i - start) as nat),
            i - start <= 19,
        decreases s@.len() - i,
    {
        let c = s[i];
        let d: u128 = (c as u32 - 48) as u128;
        proof {
            let prefix = s@.subrange(start as int, i as int);
            let next = s@.subrange(start as int, i as int + 1);
            assert(next.drop_last() =~= prefix);
            assert(next.last() == s@[i as int]);
            assert(pow10(((i + 1) - start) as nat) == 10 * pow10((i - start) as nat));
            assert(pow10(19) == 10_000_000_000_000_000_000) by {
                reveal_with_fuel(pow10, 20);
            }
            lemma_pow10_mono((i - start) as nat, 19);
            assert(acc * 10 + d < 10 * pow10((i - start) as nat)) by (nonlinear_arith)
                requires
                    0 <= acc < pow10((i - start) as nat),
                    0 <= d <= 9,
            ;
        }
        acc = acc * 10 + d;
        i = i + 1;
    }
    proof {
        assert(s@.subrange(start as int, s@.len() as int) =~= body);
    }
    if neg {
        if acc > 9_223_372_036_854_775_808u128 {
            return Option::None;
        }
        if acc == 9_223_372_036_854_775_808u128 {
            return Option::Some(i64::MIN);
        }
        Option::Some(-(acc as i64))
    } else {
        if acc > 9_223_372_036_854_775_807u128 {
            return Option::None;
        }
        Option::Some(acc as i64)
    }
}

pub proof fn lemma_pow10_mono(m: nat, n: nat)
    requires
        m <= n,
    ensures
        pow10(m) <= pow10(n),
        pow10(m) >= 1,
    decreases n,
{
    if n > 0 {
        if m == n {
            lemma_pow10_mono((m - 1) as nat, (n - 1) as nat);
        } else {
            lemma_pow10_mono(m, (n - 1) as nat);
        }
    }
}

/// The first position at or after `i` holding no digit.
pub open spec fn skip_digits(s: Seq<char>, i: int) -> int
    decreases s.len() - i
        when 0 <= i <= s.len()
{
    if i < s.len() && is_digit(s[i]) {
        skip_digits(s, i + 1)
    } else {
        i
    }
}

pub proof fn lemma_skip_digits_bounds(s: Seq<char>, i: int)
    requires
        0 <= i <= s.len(),
    ensures
        i <= skip_digits(s, i) <= s.len(),
    decreases s.len() - i,
{
    if i < s.len() && is_digit(s[i]) {
        lemma_skip_digits_bounds(s, i + 1);
    }
}

/// `s` is a well-formed decimal number: an optional minus sign, an integer
/// part without superfluous leading zero, then an optional fraction part
/// and an optional exponent part, with nothing trailing.
pub open spec fn is_number(s: Seq<char>) -> bool {
    let i0: int = if s.len() > 0 && s[0] == '-' {
        1
    } else {
        0
    };
    if i0 >= s.len() || !is_digit(s[i0]) {
        false
    } else {
        let i1 = if s[i0] == '0' {
            i0 + 1
        } else {
            skip_digits(s, i0)
        };
        let i2 = if i1 < s.len() && s[i1] == '.' {
            if i1 + 1 < s.len() && is_digit(s[i1 + 1]) {
                skip_digits(s, i1 + 1)
            } else {
                -1
            }
        } else {
            i1
        };
        if i2 < 0 {
            false
        } else {
            let i3 = if i2 < s.len() && (s[i2] == 'e' || s[i2] == 'E') {
                let ex = if i2 + 1 < s.len() && (s[i2 + 1] == '+' || s[i2 + 1] == '-') {
                    i2 + 2
                } else {
                    i2 + 1
                };
                if ex < s.len() && is_digit(s[ex]) {
                    skip_digits(s, ex)
                } else {
                    -1
                }
            } else {
                i2
            };
            i3 == s.len()
        }
    }
}

/// Advances past consecutive digits starting at `i`.
fn skip_digits_exec(s: &Vec<char>, i: usize) -> (r: usize)
    requires
        i <= s@.len(),
    ensures
        r == skip_digits(s@, i as int),
        i <= r <= s@.len(),
{
    let mut j: usize = i;
    loop
        invariant
            i <= j <= s@.len(),
            skip_digits(s@, i as int) == skip_digits(s@, j as int),
        ensures
            j == skip_digits(s@, i as int),
        decreases s@.len() - j,
    {
        if j == s.len() {
            break ;
        }
        let c = s[j];
        if !(c as u32 >= 48 && c as u32 <= 57) {
            break ;
        }
        j = j + 1;
    }
    j
}

/// Decides whether `s` has the shape of a well-formed decimal number.
pub fn is_number_chars(s: &Vec<char>) -> (r: bool)
    ensures
        r == is_number(s@),
{
    let neg = s.len() > 0 && s[0] == '-';
    let i0: usize = if neg {
        1
    } else {
        0
    };
    if i0 >= s.len() {
        return false;
    }
    let c0 = s[i0];
    if !(c0 as u32 >= 48 && c0 as u32 <= 57) {
        return false;
    }
    let i1: usize = if c0 == '0' {
        i0 + 1
    } else {
        skip_digits_exec(s, i0)
    };
    let mut i2: usize = i1;
    if i1 < s.len() && s[i1] == '.' {
        if i1 + 1 < s.len() && {
            let c = s[i1 + 1];
            c as u32 >= 48 && c as u32 <= 57
        } {
            i2 = skip_digits_exec(s, i1 + 1);
        } else {
            return false;
        }
    }
    let mut i3: usize = i2;
    if i2 < s.len() && (s[i2] == 'e' || s[i2] == 'E') {
        let ex: usize = if i2 + 1 < s.len() && (s[i2 + 1] == '+' || s[i2 + 1]
            == '-') {
            i2 + 2
        } else {
            i2 + 1
        };
        if ex < s.len() && {
            let c = s[ex];
            c as u32 >= 48 && c as u32 <= 57
        } {
            i3 = skip_digits_exec(s, ex);
        } else {
            return false;
        }
    }
    i3 == s.len()
}

/// The decimal text of a nonnegative number, most significant digit first.
pub open spec fn nat_text(n: int) -> Seq<char>
    decreases n
        when n >= 0
{
    if 0 <= n < 10 {
        seq![(48 + n) as char]
    } else if n >= 10 {
        nat_text(n / 10).push((48 + n % 10) as char)
    } else {
        Seq::empty()
    }
}

/// The decimal text of an integer: a minus sign for negative values, then
/// the digits of the magnitude.
pub open spec fn int_text(i: int) -> Seq<char> {
    if i < 0 {
        seq!['-'] + nat_text(-i)
    } else {
        nat_text(i)
    }
}

/// Appends the decimal text of `n` to `out`.
pub fn render_u64(n: u64, out: &mut Vec<char>)
    ensures
        final(out)@ == old(out)@ + nat_text(n as int),
    decreases n,
{
    if n >= 10 {
        render_u64(n / 10, out);
    }
    let d: u32 = 48 + (n % 10) as u32;
    let c: u8 = d as u8;
    out.push(c as char);
    proof {
        assert(out@ =~= old(out)@ + nat_text(n as int));
    }
}

/// Appends the decimal text of `i` to `out`.
pub fn render_i64(i: i64, out: &mut Vec<char>)
    ensures
        final(out)@ == old(out)@ + int_text(i as int),
{
    if i < 0 {
        out.push('-');
        let m: u64 = if i == i64::MIN {
            9_223_372_036_854_775_808u64
        } else {
            (-i) as u64
        };
        render_u64(m, out);
        proof {
            assert(out@ =~= old(out)@ + int_text(i as int));
        }
    } else {
        render_u64(i as u64, out);
    }
}

} // verus!
