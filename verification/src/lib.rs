//! Library backing the `cmake-init` command-line tool.
//!
//! It scaffolds a CMake C++ project: the source tree (`src/main.cpp`, kernels
//! and `.gitignore`, [`sources`]), `CMakeLists.txt` ([`cmakelists`]), the targets a set of
//! capabilities implies ([`features`]), and the validation of the
//! command-line inputs: [`parse_bool_flag`], [`validate_project_name`] and
//! [`parse_cxx_std`].
use vstd::prelude::*;

pub mod cmakelists;
pub mod features;
pub mod occurrences;
pub mod sources;
pub mod text;

use crate::text::{
    ascii_lower, ascii_lower_text, int_decimal, lower_equals, append_int_decimal, nat_decimal,
    digit_text, lemma_nat_decimal_digits,
};

verus! {

// ---------------------------------------------------------------------------
// Boolean flags
// ---------------------------------------------------------------------------

/// The value a flag spelling denotes, compared case-insensitively:
/// `true`/`yes`/`on`/`1` and `false`/`no`/`off`/`0`.
pub open spec fn spec_bool_flag(s: Seq<char>) -> Option<bool> {
    let l = ascii_lower_text(s);
    if l == "true"@ || l == "yes"@ || l == "on"@ || l == "1"@ {
        Some(true)
    } else if l == "false"@ || l == "no"@ || l == "off"@ || l == "0"@ {
        Some(false)
    } else {
        None
    }
}

/// The message for a flag value that is not a boolean spelling.
pub open spec fn bool_flag_error(s: Seq<char>) -> Seq<char> {
    "invalid boolean value '"@ + s + "': expected true/false, yes/no, on/off, or 1/0"@
}

/// Parses a boolean flag value, accepting common truthy/falsy spellings
/// case-insensitively: `true`/`false`, `yes`/`no`, `on`/`off`, `1`/`0`.
pub fn parse_bool_flag(s: &str) -> (r: Result<bool, String>)
    ensures
        match r {
            Ok(b) => spec_bool_flag(s@) == Some(b),
            Err(e) => spec_bool_flag(s@) is None && e@ == bool_flag_error(s@),
        },
{
    if lower_equals(s, "true") || lower_equals(s, "yes") || lower_equals(s, "on") || lower_equals(
        s,
        "1",
    ) {
        Ok(true)
    } else if lower_equals(s, "false") || lower_equals(s, "no") || lower_equals(s, "off")
        || lower_equals(s, "0") {
        Ok(false)
    } else {
        let mut e = String::from_str("invalid boolean value '");
        e.append(s);
        e.append("': expected true/false, yes/no, on/off, or 1/0");
        Err(e)
    }
}

/// A flag is read the same way whatever the case of its ASCII letters.
pub proof fn lemma_bool_flag_case_insensitive(s: Seq<char>, t: Seq<char>)
    requires
        ascii_lower_text(s) == ascii_lower_text(t),
    ensures
        spec_bool_flag(s) == spec_bool_flag(t),
{
}

// ---------------------------------------------------------------------------
// Project names
// ---------------------------------------------------------------------------

/// ASCII letters, digits, `-` and `_`.
pub open spec fn is_project_name_char(c: char) -> bool {
    ||| '0' <= c <= '9'
    ||| 'A' <= c <= 'Z'
    ||| 'a' <= c <= 'z'
    ||| c == '_'
    ||| c == '-'
}

/// A valid CMake project identifier: not empty, and made of
/// [`is_project_name_char`] characters only.
pub open spec fn valid_project_name(name: Seq<char>) -> bool {
    name.len() > 0 && forall|i: int| 0 <= i < name.len() ==> is_project_name_char(#[trigger] name[i])
}

/// The message for a rejected project name.
pub open spec fn project_name_error(name: Seq<char>) -> Seq<char> {
    if name.len() == 0 {
        "Project name must not be empty."@
    } else {
        "Invalid project name '"@ + name
            + "'. Accepted characters: ASCII letters, digits, hyphens (-), and underscores (_)."@
    }
}

fn is_name_char(c: char) -> (r: bool)
    ensures
        r == is_project_name_char(c),
{
    ('0' <= c && c <= '9') || ('A' <= c && c <= 'Z') || ('a' <= c && c <= 'z') || c == '_' || c
        == '-'
}

/// Returns `Ok(())` when `name` is a valid CMake project identifier.
///
/// Accepted characters: ASCII letters (`A–Z`, `a–z`), digits (`0–9`),
/// hyphens (`-`), and underscores (`_`).  Spaces, parentheses, semicolons,
/// quotes, and other shell/CMake special characters are rejected because
/// CMake parses the `project(...)` argument list as whitespace-separated
/// tokens and treats several punctuation characters as syntax.
pub fn validate_project_name(name: &str) -> (r: Result<(), String>)
    ensures
        r is Ok <==> valid_project_name(name@),
        r matches Err(e) ==> e@ == project_name_error(name@),
{
    let n = name.unicode_len();
    if n == 0 {
        return Err(String::from_str("Project name must not be empty."));
    }
    let mut i: usize = 0;
    while i < n
        invariant
            n == name@.len(),
            0 <= i <= n,
            forall|j: int| 0 <= j < i ==> is_project_name_char(#[trigger] name@[j]),
        decreases n - i,
    {
        if !is_name_char(name.get_char(i)) {
            let mut e = String::from_str("Invalid project name '");
            e.append(name);
            e.append(
                "'. Accepted characters: ASCII letters, digits, hyphens (-), and underscores (_).",
            );
            return Err(e);
        }
        i = i + 1;
    }
    Ok(())
}

// ---------------------------------------------------------------------------
// C++ standard
// ---------------------------------------------------------------------------

/// An ASCII decimal digit.
pub open spec fn is_digit(c: char) -> bool {
    '0' <= c <= '9'
}

/// The value of a string of decimal digits (most significant first).
pub open spec fn digits_value(d: Seq<char>) -> int
    decreases d.len(),
{
    if d.len() == 0 {
        0
    } else {
        10 * digits_value(d.drop_last()) + (d.last() as int - '0' as int)
    }
}

/// A non-empty string of decimal digits.
pub open spec fn all_digits(d: Seq<char>) -> bool {
    d.len() > 0 && forall|i: int| 0 <= i < d.len() ==> is_digit(#[trigger] d[i])
}

/// The integer a text denotes in the syntax of Rust's integer parsing: an
/// optional `+` or `-`, then one or more decimal digits.
pub open spec fn spec_parse_int(s: Seq<char>) -> Option<int> {
    if s.len() > 0 && (s[0] == '+' || s[0] == '-') {
        let d = s.drop_first();
        if all_digits(d) {
            Some(if s[0] == '-' { -digits_value(d) } else { digits_value(d) })
        } else {
            None
        }
    } else if all_digits(s) {
        Some(digits_value(s))
    } else {
        None
    }
}

/// The C++ standards a project can select.
pub open spec fn supported_cxx_std(v: int) -> bool {
    v == 11 || v == 14 || v == 17 || v == 20 || v == 23 || v == 26
}

/// The message for a `--cxx-std` value that is not a supported standard.
pub open spec fn cxx_std_error(raw: Seq<char>) -> Seq<char> {
    "Invalid C++ standard '"@ + raw + "'. Please select 11, 14, 17, 20, 23, or 26."@
}

/// The message for a standard older than C++17 combined with Kokkos.
pub open spec fn kokkos_cxx_std_error(v: int) -> Seq<char> {
    "Kokkos requires C++17 or later; C++"@ + int_decimal(v) + " is not supported with --kokkos."@
}

/// The C++ standard that the `--cxx-std` text `raw` selects, or the message
/// that rejects it. Kokkos 4.x needs C++17 or later.
pub open spec fn spec_cxx_std(raw: Seq<char>, kokkos: bool) -> Result<int, Seq<char>> {
    match spec_parse_int(raw) {
        Some(v) => if !supported_cxx_std(v) {
            Err(cxx_std_error(raw))
        } else if kokkos && v < 17 {
            Err(kokkos_cxx_std_error(v))
        } else {
            Ok(v)
        },
        None => Err(cxx_std_error(raw)),
    }
}

/// `x`, or 1000 where `x` is larger.
pub open spec fn capped(x: int) -> int {
    if x < 1000 {
        x
    } else {
        1000
    }
}

proof fn lemma_digits_value_nonneg(d: Seq<char>)
    requires
        forall|i: int| 0 <= i < d.len() ==> is_digit(#[trigger] d[i]),
    ensures
        digits_value(d) >= 0,
    decreases d.len(),
{
    if d.len() > 0 {
        let p = d.drop_last();
        assert forall|i: int| 0 <= i < p.len() implies is_digit(#[trigger] p[i]) by {
            assert(p[i] == d[i]);
        }
        lemma_digits_value_nonneg(p);
        assert(is_digit(d[d.len() - 1]));
    }
}

/// The value of `raw` as a decimal integer, capped at 1000, where it is a
/// non-negative one.
fn capped_decimal(raw: &str) -> (r: Option<u32>)
    ensures
        r matches Some(v) ==> spec_parse_int(raw@) matches Some(x) && x >= 0 && v == capped(x),
        r is None ==> (spec_parse_int(raw@) matches Some(x) ==> x <= 0),
{
    let n = raw.unicode_len();
    let mut start: usize = 0;
    if n > 0 {
        let c0 = raw.get_char(0);
        if c0 == '-' {
            proof {
                let d = raw@.drop_first();
                if all_digits(d) {
                    lemma_digits_value_nonneg(d);
                }
            }
            return None;
        }
        if c0 == '+' {
            start = 1;
        }
    }
    if start >= n {
        return None;
    }
    let ghost ds = raw@.subrange(start as int, n as int);
    assert(spec_parse_int(raw@) == (if all_digits(ds) { Some(digits_value(ds)) } else { None::<int> })) by {
        if start == 1 {
            assert(ds =~= raw@.drop_first());
        } else {
            assert(ds =~= raw@);
        }
    }
    let mut acc: u32 = 0;
    let mut i: usize = start;
    while i < n
        invariant
            n == raw@.len(),
            start < n,
            start <= i <= n,
            ds == raw@.subrange(start as int, n as int),
            spec_parse_int(raw@) == (if all_digits(ds) { Some(digits_value(ds)) } else { None::<int> }),
            forall|j: int| start <= j < i ==> is_digit(#[trigger] raw@[j]),
            digits_value(raw@.subrange(start as int, i as int)) >= 0,
            acc == capped(digits_value(raw@.subrange(start as int, i as int))),
        decreases n - i,
    {
        let c = raw.get_char(i);
        if !('0' <= c && c <= '9') {
            assert(ds[i - start] == c);
            assert(!is_digit(ds[i - start]));
            return None;
        }
        let d: u32 = (c as u32) - ('0' as u32);
        let ghost prev = raw@.subrange(start as int, i as int);
        let ghost next = raw@.subrange(start as int, i + 1);
        assert(next.drop_last() =~= prev);
        assert(digits_value(next) == 10 * digits_value(prev) + d);
        if acc < 1000 {
            let v = 10 * acc + d;
            acc = if v < 1000 { v } else { 1000 };
        }
        i = i + 1;
    }
    assert(raw@.subrange(start as int, n as int) =~= ds);
    assert forall|j: int| 0 <= j < ds.len() implies is_digit(#[trigger] ds[j]) by {
        assert(ds[j] == raw@[j + start]);
    }
    Some(acc)
}

/// Reads the `--cxx-std` value: one of 11, 14, 17, 20, 23, 26, written as
/// Rust reads an integer. Combined with Kokkos, which needs C++17 or later,
/// 11 and 14 are rejected.
pub fn parse_cxx_std(raw: &str, kokkos: bool) -> (r: Result<i32, String>)
    ensures
        match r {
            Ok(v) => spec_cxx_std(raw@, kokkos) == Ok::<int, Seq<char>>(v as int),
            Err(e) => spec_cxx_std(raw@, kokkos) == Err::<int, Seq<char>>(e@),
        },
{
    let parsed = capped_decimal(raw);
    let v: i32 = match parsed {
        Some(v) if v == 11 || v == 14 || v == 17 || v == 20 || v == 23 || v == 26 => v as i32,
        _ => {
            let mut e = String::from_str("Invalid C++ standard '");
            e.append(raw);
            e.append("'. Please select 11, 14, 17, 20, 23, or 26.");
            return Err(e);
        },
    };
    if kokkos && v < 17 {
        let mut e = String::from_str("Kokkos requires C++17 or later; C++");
        append_int_decimal(&mut e, v);
        e.append(" is not supported with --kokkos.");
        return Err(e);
    }
    Ok(v)
}

// ---------------------------------------------------------------------------
// Laws of the input checks
// ---------------------------------------------------------------------------

/// Two texts that differ at most in the case of ASCII letters: at each
/// position the characters are equal, or one is an uppercase ASCII letter
/// (code 65 to 90) and the other the letter 32 codes above it.
pub open spec fn same_up_to_ascii_case(s: Seq<char>, t: Seq<char>) -> bool {
    s.len() == t.len() && forall|i: int|
        0 <= i < s.len() ==> {
            let a = #[trigger] s[i] as int;
            let b = t[i] as int;
            a == b || (65 <= a <= 90 && b == a + 32) || (65 <= b <= 90 && a == b + 32)
        }
}

/// ASCII lower-casing moves the uppercase letters 32 codes up and leaves
/// every other character alone.
pub proof fn lemma_ascii_lower_char(c: char)
    ensures
        65 <= c as int <= 90 ==> ascii_lower(c) as int == c as int + 32,
        !(65 <= c as int <= 90) ==> ascii_lower(c) == c,
{
}

proof fn lemma_lower_word(s: Seq<char>, w: Seq<char>)
    requires
        forall|i: int| 0 <= i < w.len() ==> !(65 <= #[trigger] w[i] as int <= 90),
    ensures
        ascii_lower_text(s) == w <==> same_up_to_ascii_case(s, w),
{
    if ascii_lower_text(s) == w {
        assert forall|i: int| 0 <= i < s.len() implies {
            let a = #[trigger] s[i] as int;
            let b = w[i] as int;
            a == b || (65 <= a <= 90 && b == a + 32) || (65 <= b <= 90 && a == b + 32)
        } by {
            assert(ascii_lower_text(s)[i] == ascii_lower(s[i]));
            lemma_ascii_lower_char(s[i]);
        }
    }
    if same_up_to_ascii_case(s, w) {
        assert forall|i: int| 0 <= i < s.len() implies ascii_lower_text(s)[i] == w[i] by {
            lemma_ascii_lower_char(s[i]);
            assert(s[i] as int == w[i] as int || (65 <= s[i] as int <= 90 && w[i] as int
                == s[i] as int + 32));
        }
        assert(ascii_lower_text(s) =~= w);
    }
}

/// A flag reads `true` exactly for the spellings `true`, `yes`, `on` and
/// `1`, and `false` exactly for `false`, `no`, `off` and `0`, in any mix of
/// ASCII upper and lower case; any other text is rejected.
pub proof fn lemma_bool_flag_spellings(s: Seq<char>)
    ensures
        spec_bool_flag(s) == Some(true) <==> (same_up_to_ascii_case(s, "true"@)
            || same_up_to_ascii_case(s, "yes"@) || same_up_to_ascii_case(s, "on"@)
            || same_up_to_ascii_case(s, "1"@)),
        spec_bool_flag(s) == Some(false) <==> (same_up_to_ascii_case(s, "false"@)
            || same_up_to_ascii_case(s, "no"@) || same_up_to_ascii_case(s, "off"@)
            || same_up_to_ascii_case(s, "0"@)),
{
    reveal_strlit("true");
    reveal_strlit("yes");
    reveal_strlit("on");
    reveal_strlit("1");
    reveal_strlit("false");
    reveal_strlit("no");
    reveal_strlit("off");
    reveal_strlit("0");
    lemma_lower_word(s, "true"@);
    lemma_lower_word(s, "yes"@);
    lemma_lower_word(s, "on"@);
    lemma_lower_word(s, "1"@);
    lemma_lower_word(s, "false"@);
    lemma_lower_word(s, "no"@);
    lemma_lower_word(s, "off"@);
    lemma_lower_word(s, "0"@);
    assert("on"@[0] != "no"@[0]);
    assert("1"@[0] != "0"@[0]);
    assert("yes"@[0] != "off"@[0]);
}

/// Texts that differ only in the case of ASCII letters are read as the same
/// flag value.
pub proof fn lemma_bool_flag_ignores_ascii_case(s: Seq<char>, t: Seq<char>)
    requires
        same_up_to_ascii_case(s, t),
    ensures
        spec_bool_flag(s) == spec_bool_flag(t),
{
    assert forall|i: int| 0 <= i < s.len() implies ascii_lower_text(s)[i] == ascii_lower_text(t)[i] by {
        lemma_ascii_lower_char(s[i]);
        lemma_ascii_lower_char(t[i]);
    }
    assert(ascii_lower_text(s) =~= ascii_lower_text(t));
}

/// The project-name characters are exactly the ASCII digits (codes 48 to 57),
/// uppercase letters (65 to 90), lowercase letters (97 to 122), `_` (95) and
/// `-` (45).
pub proof fn lemma_project_name_chars(c: char)
    ensures
        is_project_name_char(c) <==> (48 <= c as int <= 57 || 65 <= c as int <= 90 || 97 <= c as int
            <= 122 || c as int == 95 || c as int == 45),
{
}

/// A name is accepted exactly when it is not empty and each of its
/// characters is an ASCII letter or digit, `_` or `-`.
pub proof fn lemma_project_name_accepted(name: Seq<char>)
    ensures
        valid_project_name(name) <==> (name.len() > 0 && forall|i: int|
            0 <= i < name.len() ==> {
                let c = #[trigger] name[i] as int;
                48 <= c <= 57 || 65 <= c <= 90 || 97 <= c <= 122 || c == 95 || c == 45
            }),
{
    assert forall|i: int| 0 <= i < name.len() implies (is_project_name_char(#[trigger] name[i]) <==> {
        let c = name[i] as int;
        48 <= c <= 57 || 65 <= c <= 90 || 97 <= c <= 122 || c == 95 || c == 45
    }) by {
        lemma_project_name_chars(name[i]);
    }
}

/// The decimal numeral of a natural number reads back as that number.
pub proof fn lemma_decimal_reads_back(n: nat)
    ensures
        all_digits(nat_decimal(n)),
        digits_value(nat_decimal(n)) == n,
        spec_parse_int(nat_decimal(n)) == Some(n as int),
    decreases n,
{
    reveal_strlit("0");
    reveal_strlit("1");
    reveal_strlit("2");
    reveal_strlit("3");
    reveal_strlit("4");
    reveal_strlit("5");
    reveal_strlit("6");
    reveal_strlit("7");
    reveal_strlit("8");
    reveal_strlit("9");
    lemma_nat_decimal_digits(n);
    let s = nat_decimal(n);
    let d = digit_text((n % 10) as int);
    assert(d.len() == 1 && d[0] as int - '0' as int == n % 10);
    if n >= 10 {
        lemma_decimal_reads_back(n / 10);
        let a = nat_decimal(n / 10);
        assert(s == a + d);
        assert(s.drop_last() =~= a);
        assert(s.last() == d[0]);
        assert(10 * (n / 10) + n % 10 == n);
        assert(digits_value(s) == 10 * digits_value(a) + (d[0] as int - '0' as int));
    } else {
        assert(s == d);
        assert(s.drop_last() =~= Seq::<char>::empty());
        assert(digits_value(s.drop_last()) == 0);
        assert(digits_value(s) == 10 * digits_value(s.drop_last()) + (d[0] as int - '0' as int));
    }
    assert forall|i: int| 0 <= i < s.len() implies is_digit(#[trigger] s[i]) by {}
    assert(s.len() > 0);
    if s[0] == '+' || s[0] == '-' {
        assert(is_digit(s[0]));
    }
}

/// A sign in front of a decimal numeral is read as such: `+` keeps the
/// number and `-` negates it.
pub proof fn lemma_signed_decimal_reads_back(n: nat)
    ensures
        spec_parse_int("+"@ + nat_decimal(n)) == Some(n as int),
        spec_parse_int("-"@ + nat_decimal(n)) == Some(-(n as int)),
{
    reveal_strlit("+");
    reveal_strlit("-");
    lemma_decimal_reads_back(n);
    assert(("+"@ + nat_decimal(n)).drop_first() =~= nat_decimal(n));
    assert(("-"@ + nat_decimal(n)).drop_first() =~= nat_decimal(n));
}

/// The standards accepted: 17, 20, 23 and 26 always; 11 and 14 only without
/// Kokkos; nothing else. An accepted text is the standard it denotes.
pub proof fn lemma_cxx_std_accepted(raw: Seq<char>, kokkos: bool)
    ensures
        spec_cxx_std(raw, kokkos) is Ok <==> (spec_parse_int(raw) matches Some(v) && (v == 17 || v
            == 20 || v == 23 || v == 26 || (!kokkos && (v == 11 || v == 14)))),
        spec_cxx_std(raw, kokkos) matches Ok(v) ==> spec_parse_int(raw) == Some(v),
{
}

/// Each supported standard, written in decimal, is accepted with and
/// without Kokkos from C++17 on; C++11 and C++14 only without Kokkos.
pub proof fn lemma_cxx_std_numerals(v: nat, kokkos: bool)
    requires
        v == 11 || v == 14 || v == 17 || v == 20 || v == 23 || v == 26,
    ensures
        spec_cxx_std(nat_decimal(v), kokkos) == Ok::<int, Seq<char>>(v as int) <==> !(kokkos && v
            < 17),
{
    lemma_decimal_reads_back(v);
}

} // verus!
