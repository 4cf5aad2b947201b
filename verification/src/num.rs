use vstd::prelude::*;
use vstd::string::StrSliceExecFns;

verus! {

/// The character for one decimal digit value.
pub open spec fn digit_char(d: int) -> char {
    if d == 0 {
        '0'
    } else if d == 1 {
        '1'
    } else if d == 2 {
        '2'
    } else if d == 3 {
        '3'
    } else if d == 4 {
        '4'
    } else if d == 5 {
        '5'
    } else if d == 6 {
        '6'
    } else if d == 7 {
        '7'
    } else if d == 8 {
        '8'
    } else {
        '9'
    }
}

/// Decimal rendering of a nonnegative integer, without sign or leading zeros
/// (zero itself renders as "0").
pub open spec fn dec_str_nat(n: int) -> Seq<char>
    decreases n,
{
    if n < 10 {
        seq![digit_char(n)]
    } else {
        dec_str_nat(n / 10).push(digit_char(n % 10))
    }
}

/// Decimal rendering of an integer: a leading '-' for negative values.
pub open spec fn dec_str(n: int) -> Seq<char> {
    if n < 0 {
        seq!['-'] + dec_str_nat(-n)
    } else {
        dec_str_nat(n)
    }
}

fn digit_to_char(d: u32) -> (c: char)
    requires
        d < 10,
    ensures
        c == digit_char(d as int),
{
    if d == 0 {
        '0'
    } else if d == 1 {
        '1'
    } else if d == 2 {
        '2'
    } else if d == 3 {
        '3'
    } else if d == 4 {
        '4'
    } else if d == 5 {
        '5'
    } else if d == 6 {
        '6'
    } else if d == 7 {
        '7'
    } else if d == 8 {
        '8'
    } else {
        '9'
    }
}

fn push_dec_u32(out: &mut String, m: u32)
    ensures
        final(out)@ == old(out)@ + dec_str_nat(m as int),
    decreases m,
{
    if m < 10 {
        out.push(digit_to_char(m));
        proof {
            assert(final(out)@ =~= old(out)@ + dec_str_nat(m as int));
        }
    } else {
        push_dec_u32(out, m / 10);
        out.push(digit_to_char(m % 10));
        proof {
            assert(final(out)@ =~= old(out)@ + dec_str_nat(m as int));
        }
    }
}

/// Renders an `i32` in decimal, exactly as std's `Display` for `i32` does.
pub fn i32_to_string(n: i32) -> (r: String)
    ensures
        r@ == dec_str(n as int),
{
    let mut out = String::new();
    if n >= 0 {
        push_dec_u32(&mut out, n as u32);
        proof {
            assert(out@ =~= dec_str(n as int));
        }
    } else {
        out.push('-');
        let m: u32 = (-(n as i64)) as u32;
        push_dec_u32(&mut out, m);
        proof {
            assert(out@ =~= dec_str(n as int));
        }
    }
    out
}

/// Whether the character is a decimal digit.
pub open spec fn is_digit(c: char) -> bool {
    48 <= (c as u32) <= 57
}

/// The value of one decimal digit character.
pub open spec fn digit_val(c: char) -> int {
    (c as u32) - 48
}

/// Whether every character of the sequence is a decimal digit.
pub open spec fn all_digits(s: Seq<char>) -> bool {
    forall|i: int| 0 <= i < s.len() ==> is_digit(#[trigger] s[i])
}

/// The integer value of a sequence of decimal digit characters.
pub open spec fn dec_val(s: Seq<char>) -> int
    decreases s.len(),
{
    if s.len() == 0 {
        0
    } else {
        dec_val(s.drop_last()) * 10 + digit_val(s.last())
    }
}

/// The digit part of an integer literal: everything after an optional sign.
pub open spec fn dec_digits_of(s: Seq<char>) -> Seq<char> {
    if s.len() > 0 && (s[0] == '-' || s[0] == '+') {
        s.drop_first()
    } else {
        s
    }
}

/// Whether the text is an optional sign followed by at least one digit:
/// the texts std's integer parsing accepts, apart from range.
pub open spec fn int_text_format(s: Seq<char>) -> bool {
    dec_digits_of(s).len() > 0 && all_digits(dec_digits_of(s))
}

/// The integer value of a signed decimal text.
pub open spec fn text_val(s: Seq<char>) -> int {
    if s.len() > 0 && s[0] == '-' {
        -dec_val(s.drop_first())
    } else if s.len() > 0 && s[0] == '+' {
        dec_val(s.drop_first())
    } else {
        dec_val(s)
    }
}

proof fn lemma_dec_val_nonneg(s: Seq<char>)
    requires
        all_digits(s),
    ensures
        dec_val(s) >= 0,
    decreases s.len(),
{
    if s.len() > 0 {
        assert(all_digits(s.drop_last()));
        lemma_dec_val_nonneg(s.drop_last());
    }
}

proof fn lemma_dec_val_step(s: Seq<char>, j: int)
    requires
        0 <= j < s.len(),
    ensures
        dec_val(s.take(j + 1)) == dec_val(s.take(j)) * 10 + digit_val(s[j]),
{
    assert(s.take(j + 1).drop_last() =~= s.take(j));
    assert(s.take(j + 1).last() == s[j]);
}

proof fn lemma_dec_val_prefix(s: Seq<char>, j: int)
    requires
        all_digits(s),
        0 <= j <= s.len(),
    ensures
        dec_val(s) >= dec_val(s.take(j)),
    decreases s.len() - j,
{
    if j == s.len() {
        assert(s.take(j) =~= s);
    } else {
        assert(all_digits(s.take(j)));
        lemma_dec_val_nonneg(s.take(j));
        lemma_dec_val_step(s, j);
        lemma_dec_val_prefix(s, j + 1);
    }
}

/// Parses a signed decimal integer, exactly as std's `i32::from_str` does:
/// an optional sign, then one or more digits, the value within `i32` range.
pub fn parse_i32(s: &str) -> (r: Option<i32>)
    ensures
        r is Some <==> int_text_format(s@) && i32::MIN <= text_val(s@) <= i32::MAX,
        r is Some ==> r.unwrap() as int == text_val(s@),
{
    let n = s.unicode_len();
    if n == 0 {
        return None;
    }
    let c0 = s.get_char(0);
    let mut i: usize = 0;
    let mut neg: bool = false;
    if c0 == '-' {
        neg = true;
        i = 1;
    } else if c0 == '+' {
        i = 1;
    }
    if i == n {
        return None;
    }
    let ghost ds = dec_digits_of(s@);
    let ghost start = i as int;
    proof {
        assert(ds =~= s@.subrange(start, n as int));
    }
    let mut acc: u64 = 0;
    while i < n
        invariant
            start <= i <= n,
            n == s@.len(),
            1 <= n,
            start == (if s@[0] == '-' || s@[0] == '+' { 1int } else { 0int }),
            start < n,
            neg == (s@[0] == '-'),
            ds == dec_digits_of(s@),
            ds =~= s@.subrange(start, n as int),
            all_digits(ds.take(i - start)),
            acc == dec_val(ds.take(i - start)),
            acc <= 2147483648,
        decreases n - i,
    {
        let c = s.get_char(i);
        let cu = c as u32;
        if cu < 48 || cu > 57 {
            proof {
                assert(ds[i - start] == s@[i as int]);
                assert(!is_digit(ds[i - start]));
                assert(!all_digits(ds));
            }
            return None;
        }
        let d: u64 = (cu - 48) as u64;
        proof {
            lemma_dec_val_step(ds, i - start);
        }
        acc = acc * 10 + d;
        if acc > 2147483648 {
            proof {
                if all_digits(ds) {
                    lemma_dec_val_prefix(ds, i + 1 - start);
                    assert(dec_val(ds) >= acc);
                }
            }
            return None;
        }
        i += 1;
    }
    proof {
        assert(ds.take(n - start) =~= ds);
        assert(all_digits(ds));
        assert(acc == dec_val(ds));
        assert(int_text_format(s@));
    }
    if neg {
        let v: i64 = -(acc as i64);
        Some(v as i32)
    } else {
        if acc > 2147483647 {
            return None;
        }
        Some(acc as i32)
    }
}

} // verus!
