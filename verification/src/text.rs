//! Small verified text utilities: decimal numerals and ASCII case folding.
use vstd::prelude::*;

verus! {

/// `s` when `b` holds, else nothing.
pub open spec fn text_if(b: bool, s: Seq<char>) -> Seq<char> {
    if b {
        s
    } else {
        Seq::empty()
    }
}

/// The numeral of a single decimal digit.
pub open spec fn digit_text(d: int) -> Seq<char> {
    if d == 0 {
        "0"@
    } else if d == 1 {
        "1"@
    } else if d == 2 {
        "2"@
    } else if d == 3 {
        "3"@
    } else if d == 4 {
        "4"@
    } else if d == 5 {
        "5"@
    } else if d == 6 {
        "6"@
    } else if d == 7 {
        "7"@
    } else if d == 8 {
        "8"@
    } else {
        "9"@
    }
}

/// The decimal numeral of a natural number, without leading zeros.
pub open spec fn nat_decimal(n: nat) -> Seq<char>
    decreases n,
{
    if n < 10 {
        digit_text(n as int)
    } else {
        nat_decimal(n / 10) + digit_text((n % 10) as int)
    }
}

/// The decimal numeral of an integer, with a leading `-` when negative.
pub open spec fn int_decimal(n: int) -> Seq<char> {
    if n < 0 {
        "-"@ + nat_decimal((-n) as nat)
    } else {
        nat_decimal(n as nat)
    }
}

fn digit_str(d: u64) -> (s: &'static str)
    requires
        d < 10,
    ensures
        s@ == digit_text(d as int),
{
    if d == 0 {
        "0"
    } else if d == 1 {
        "1"
    } else if d == 2 {
        "2"
    } else if d == 3 {
        "3"
    } else if d == 4 {
        "4"
    } else if d == 5 {
        "5"
    } else if d == 6 {
        "6"
    } else if d == 7 {
        "7"
    } else if d == 8 {
        "8"
    } else {
        "9"
    }
}

/// Appends the decimal numeral of `n` to `out`.
pub fn append_nat_decimal(out: &mut String, n: u64)
    ensures
        final(out)@ == old(out)@ + nat_decimal(n as nat),
    decreases n,
{
    if n >= 10 {
        append_nat_decimal(out, n / 10);
    }
    out.append(digit_str(n % 10));
    proof {
        if n >= 10 {
            assert(old(out)@ + nat_decimal((n / 10) as nat) + digit_text((n % 10) as int)
                =~= old(out)@ + nat_decimal(n as nat));
        }
    }
}

/// Appends the decimal numeral of `n` (with `-` when negative) to `out`.
pub fn append_int_decimal(out: &mut String, n: i32)
    ensures
        final(out)@ == old(out)@ + int_decimal(n as int),
{
    if n < 0 {
        out.append("-");
        let m: i64 = n as i64;
        let magnitude: u64 = (-m) as u64;
        append_nat_decimal(out, magnitude);
        assert(final(out)@ =~= old(out)@ + int_decimal(n as int));
    } else {
        append_nat_decimal(out, n as u64);
    }
}

/// ASCII lower-casing of one character; other characters are unchanged.
pub open spec fn ascii_lower(c: char) -> char {
    if 'A' <= c <= 'Z' {
        ((c as int) + 32) as char
    } else {
        c
    }
}

/// ASCII lower-casing of a text.
pub open spec fn ascii_lower_text(s: Seq<char>) -> Seq<char> {
    s.map_values(|c: char| ascii_lower(c))
}

fn lower_char(c: char) -> (r: char)
    ensures
        r == ascii_lower(c),
{
    if 'A' <= c && c <= 'Z' {
        let b: u8 = c as u8;
        (b + 32) as char
    } else {
        c
    }
}

/// Whether `s`, lower-cased in ASCII, is exactly `word`.
pub fn lower_equals(s: &str, word: &str) -> (r: bool)
    ensures
        r == (ascii_lower_text(s@) == word@),
{
    let n = s.unicode_len();
    let m = word.unicode_len();
    if n != m {
        assert(ascii_lower_text(s@).len() != word@.len());
        return false;
    }
    let mut i: usize = 0;
    while i < n
        invariant
            n == s@.len(),
            m == word@.len(),
            n == m,
            0 <= i <= n,
            forall|j: int| 0 <= j < i ==> ascii_lower(#[trigger] s@[j]) == word@[j],
        decreases n - i,
    {
        let c = s.get_char(i);
        let w = word.get_char(i);
        if lower_char(c) != w {
            assert(ascii_lower_text(s@)[i as int] != word@[i as int]);
            return false;
        }
        i = i + 1;
    }
    assert(ascii_lower_text(s@) =~= word@);
    true
}

proof fn lemma_digit_text(d: int)
    requires
        0 <= d < 10,
    ensures
        digit_text(d).len() == 1,
        '0' <= digit_text(d)[0] <= '9',
{
    reveal_strlit("0");
    reveal_strlit("1");
    reveal_strlit("2");
    reveal_strlit("3");
    reveal_strlit("4");
    reveal_strlit("5");
    reveal_strlit("6");
    reveal_strlit("7");
    reveal_strlit("8");
    reveal_strlit("9");
}

/// The numeral of a natural number is made of ASCII digits.
pub proof fn lemma_nat_decimal_digits(n: nat)
    ensures
        forall|k: int| 0 <= k < nat_decimal(n).len() ==> '0' <= #[trigger] nat_decimal(n)[k] <= '9',
    decreases n,
{
    lemma_digit_text((n % 10) as int);
    if n >= 10 {
        lemma_nat_decimal_digits(n / 10);
        let a = nat_decimal(n / 10);
        let b = digit_text((n % 10) as int);
        assert forall|k: int| 0 <= k < nat_decimal(n).len() implies '0' <= #[trigger] nat_decimal(
            n,
        )[k] <= '9' by {
            if k < a.len() {
                assert(nat_decimal(n)[k] == a[k]);
            } else {
                assert(nat_decimal(n)[k] == b[k - a.len()]);
            }
        }
    } else {
        lemma_digit_text(n as int);
    }
}

/// The numeral of an integer is made of ASCII digits and `-`.
pub proof fn lemma_int_decimal_chars(n: int)
    ensures
        forall|k: int|
            0 <= k < int_decimal(n).len() ==> #[trigger] int_decimal(n)[k] == '-' || '0'
                <= int_decimal(n)[k] <= '9',
{
    reveal_strlit("-");
    if n < 0 {
        lemma_nat_decimal_digits((-n) as nat);
    } else {
        lemma_nat_decimal_digits(n as nat);
    }
}

} // verus!
