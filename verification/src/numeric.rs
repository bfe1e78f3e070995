//! Numbers on the command line.

use vstd::prelude::*;
use vstd::slice::slice_subrange;

use crate::text::{chars_of, dec, digit_char, digits, hex, oct, string_of};

verus! {

/// The value of a digit, where the base has it.
pub open spec fn digit_value(c: char, radix: int) -> Option<int> {
    let v = if '0' <= c <= '9' {
        c as u32 - '0' as u32
    } else if 'a' <= c <= 'z' {
        c as u32 - 'a' as u32 + 10
    } else if 'A' <= c <= 'Z' {
        c as u32 - 'A' as u32 + 10
    } else {
        radix
    };
    if v < radix {
        Some(v)
    } else {
        None
    }
}

/// The number that a row of digits stands for, where all are digits.
pub open spec fn digits_value(s: Seq<char>, radix: int) -> Option<int>
    decreases s.len(),
{
    if s.len() == 0 {
        Some(0)
    } else {
        match (digits_value(s.drop_last(), radix), digit_value(s.last(), radix)) {
            (Some(n), Some(d)) => Some(n * radix + d),
            _ => None,
        }
    }
}

/// The `u32` that a text stands for: digits, at least one, with or without a
/// plus sign in front.
pub open spec fn u32_value(s: Seq<char>, radix: int) -> Option<u32> {
    let digits = if s.len() > 0 && s[0] == '+' {
        s.skip(1)
    } else {
        s
    };
    match digits_value(digits, radix) {
        Some(n) => if digits.len() > 0 && n <= u32::MAX {
            Some(n as u32)
        } else {
            None
        },
        None => None,
    }
}

/// What std says of a text that `u32::from_str_radix` refuses.
pub uninterp spec fn radix_error(s: Seq<char>, radix: u32) -> Seq<char>;

/// Trusted: `u32::from_str_radix` of std. The contract claims that it accepts
/// an optional plus sign and then only digits of the base, at least one, whose
/// value fits; the words of the refusal are only named.
#[verifier::external_body]
fn u32_in_base(s: &str, radix: u32) -> (out: Result<u32, String>)
    requires
        2 <= radix <= 36,
    ensures
        match u32_value(s@, radix as int) {
            Some(n) => out == Ok::<u32, String>(n),
            None => out matches Err(e) && e@ == radix_error(s@, radix),
        },
{
    u32::from_str_radix(s, radix).map_err(|e| e.to_string())
}

/// What std says of a text that it does not parse as a `u32`.
pub uninterp spec fn parse_error(s: Seq<char>) -> Seq<char>;

/// Trusted: `str::parse` of std for `u32`. The contract claims that it accepts
/// an optional plus sign and then only decimal digits, at least one, whose
/// value fits; the words of the refusal are only named.
#[verifier::external_body]
fn u32_decimal(s: &str) -> (out: Result<u32, String>)
    ensures
        match u32_value(s@, 10) {
            Some(n) => out == Ok::<u32, String>(n),
            None => out matches Err(e) && e@ == parse_error(s@),
        },
{
    s.parse::<u32>().map_err(|e| e.to_string())
}

/// Whether a text starts like a hexadecimal number.
pub open spec fn hex_prefixed(s: Seq<char>) -> bool {
    s.len() >= 2 && s[0] == '0' && (s[1] == 'x' || s[1] == 'X')
}

/// The number that a text stands for: hexadecimal behind `0x`, else decimal.
pub open spec fn flag_value(s: Seq<char>) -> Option<u32> {
    if hex_prefixed(s) {
        u32_value(s.skip(2), 16)
    } else {
        u32_value(s, 10)
    }
}

/// Parses a hexadecimal number behind `0x`, or a decimal one.
pub fn parse_hex_or_dec(s: &str) -> (out: Result<u32, String>)
    ensures
        match flag_value(s@) {
            Some(n) => out == Ok::<u32, String>(n),
            None => out matches Err(e) && e@ == if hex_prefixed(s@) {
                radix_error(s@.skip(2), 16)
            } else {
                parse_error(s@)
            },
        },
{
    let chars = chars_of(s);
    if chars.len() >= 2 && chars[0] == '0' && (chars[1] == 'x' || chars[1] == 'X') {
        let digits = string_of(slice_subrange(chars.as_slice(), 2, chars.len()));
        proof {
            assert(digits@ =~= s@.skip(2));
        }
        u32_in_base(digits.as_str(), 16)
    } else {
        u32_decimal(s)
    }
}

/// Whether a text starts like an octal number.
pub open spec fn octal_prefixed(s: Seq<char>) -> bool {
    s.len() >= 2 && s[0] == '0' && s[1] == 'o'
}

/// The mode that a text stands for: octal behind `0o`, else as any number.
pub open spec fn mode_value(s: Seq<char>) -> Option<u32> {
    if octal_prefixed(s) {
        u32_value(s.skip(2), 8)
    } else {
        flag_value(s)
    }
}

/// The number that a text stands for: octal behind `0o`, else decimal.
pub open spec fn octal_value(s: Seq<char>) -> Option<u32> {
    if octal_prefixed(s) {
        u32_value(s.skip(2), 8)
    } else {
        u32_value(s, 10)
    }
}

/// Parses an octal number behind `0o`, or a decimal one.
pub fn parse_octal_or_dec(s: &str) -> (out: Result<u32, String>)
    ensures
        match octal_value(s@) {
            Some(n) => out == Ok::<u32, String>(n),
            None => out matches Err(e) && e@ == if octal_prefixed(s@) {
                radix_error(s@.skip(2), 8)
            } else {
                parse_error(s@)
            },
        },
{
    let chars = chars_of(s);
    if chars.len() >= 2 && chars[0] == '0' && chars[1] == 'o' {
        let digits = string_of(slice_subrange(chars.as_slice(), 2, chars.len()));
        proof {
            assert(digits@ =~= s@.skip(2));
        }
        u32_in_base(digits.as_str(), 8)
    } else {
        u32_decimal(s)
    }
}

/// Parses a mode: an octal number behind `0o`, a hexadecimal one behind `0x`, or
/// a decimal one.
pub fn parse_mode(s: &str) -> (out: Result<u32, String>)
    ensures
        match mode_value(s@) {
            Some(n) => out == Ok::<u32, String>(n),
            None => out matches Err(e) && e@ == if octal_prefixed(s@) {
                radix_error(s@.skip(2), 8)
            } else if hex_prefixed(s@) {
                radix_error(s@.skip(2), 16)
            } else {
                parse_error(s@)
            },
        },
{
    let chars = chars_of(s);
    if chars.len() >= 2 && chars[0] == '0' && (chars[1] == 'x' || chars[1] == 'X') {
        parse_hex_or_dec(s)
    } else {
        parse_octal_or_dec(s)
    }
}

pub(crate) proof fn lemma_digits_read_back(n: nat, base: nat)
    requires
        base == 8 || base == 10 || base == 16,
    ensures
        digits_value(digits(n, base), base as int) == Some(n as int),
        digits(n, base).len() > 0,
        forall|i: int|
            0 <= i < digits(n, base).len() ==> {
                let c = #[trigger] digits(n, base)[i];
                ('0' <= c <= '9') || ('a' <= c <= 'f')
            },
    decreases n,
{
    reveal_with_fuel(digits_value, 2);
    let s = digits(n, base);
    assert(s.len() > 0);
    if n < base {
        assert(s.drop_last() =~= Seq::empty());
        assert(digit_value(digit_char(n), base as int) == Some(n as int));
    } else {
        assert(n / base < n && n % base < base && n == (n / base) * base + n % base)
            by (nonlinear_arith)
            requires
                2 <= base <= n,
        ;
        lemma_digits_read_back(n / base, base);
        assert(s.drop_last() =~= digits(n / base, base));
        assert(digit_value(digit_char(n % base), base as int) == Some((n % base) as int));
        assert forall|i: int| 0 <= i < s.len() implies {
            let c = #[trigger] s[i];
            ('0' <= c <= '9') || ('a' <= c <= 'f')
        } by {
            if i < s.len() - 1 {
                assert(s[i] == digits(n / base, base)[i]);
            }
        }
    }
}

/// A letter from `A` to `Z` in lower case; any other character as it is.
pub open spec fn lowered_char(c: char) -> char {
    if 'A' <= c <= 'Z' {
        (c as u32 + 32) as char
    } else {
        c
    }
}

/// A text with its letters from `A` to `Z` in lower case.
pub open spec fn lowered(s: Seq<char>) -> Seq<char> {
    s.map_values(|c: char| lowered_char(c))
}

/// `n` in upper-case hexadecimal.
pub open spec fn upper_hex(n: nat) -> Seq<char> {
    hex(n).map_values(
        |c: char|
            if 'a' <= c <= 'f' {
                (c as u32 - 32) as char
            } else {
                c
            },
    )
}

proof fn lemma_case_keeps_value(s: Seq<char>)
    ensures
        digits_value(s, 16) == digits_value(lowered(s), 16),
    decreases s.len(),
{
    if s.len() > 0 {
        lemma_case_keeps_value(s.drop_last());
        assert(lowered(s).drop_last() =~= lowered(s.drop_last()));
        assert(lowered(s).last() == lowered_char(s.last()));
        assert(digit_value(s.last(), 16) == digit_value(lowered_char(s.last()), 16));
    }
}

proof fn lemma_upper_lowers_back(n: nat)
    ensures
        lowered(upper_hex(n)) == hex(n),
{
    lemma_digits_read_back(n, 16);
    assert forall|i: int| 0 <= i < hex(n).len() implies #[trigger] lowered(upper_hex(n))[i]
        == hex(n)[i] by {
        let c = hex(n)[i];
        assert(('0' <= c <= '9') || ('a' <= c <= 'f'));
    }
    assert(lowered(upper_hex(n)) =~= hex(n));
}

/// Hexadecimal digits read the same in either case, also where the cases are
/// mixed, and behind `0x` as behind `0X`.
pub proof fn law_hex_reads_back_in_any_case(n: u32, s: Seq<char>)
    requires
        lowered(s) == hex(n as nat),
    ensures
        flag_value("0x"@ + s) == Some(n),
        flag_value("0X"@ + s) == Some(n),
        mode_value("0x"@ + s) == Some(n),
        mode_value("0X"@ + s) == Some(n),
{
    lemma_digits_read_back(n as nat, 16);
    lemma_case_keeps_value(s);
    reveal_strlit("0x");
    reveal_strlit("0X");
    let small = "0x"@ + s;
    let large = "0X"@ + s;
    assert(small[0] == '0' && small[1] == 'x');
    assert(small.skip(2) =~= s);
    assert(large[0] == '0' && large[1] == 'X');
    assert(large.skip(2) =~= s);
    assert(s[0] != '+') by {
        assert(lowered(s)[0] == lowered_char(s[0]));
        assert(hex(n as nat)[0] != '+');
    }
}

/// Every number reads back from its decimal form, and from its hexadecimal
/// form, in lower or upper case, behind `0x` or `0X`. A mode reads back from
/// these forms too, and from its octal form behind `0o`.
pub proof fn law_numbers_read_back(n: u32)
    ensures
        flag_value(dec(n as nat)) == Some(n),
        flag_value("0x"@ + hex(n as nat)) == Some(n),
        flag_value("0X"@ + hex(n as nat)) == Some(n),
        flag_value("0x"@ + upper_hex(n as nat)) == Some(n),
        flag_value("0X"@ + upper_hex(n as nat)) == Some(n),
        mode_value(dec(n as nat)) == Some(n),
        mode_value("0x"@ + hex(n as nat)) == Some(n),
        mode_value("0X"@ + hex(n as nat)) == Some(n),
        mode_value("0x"@ + upper_hex(n as nat)) == Some(n),
        mode_value("0X"@ + upper_hex(n as nat)) == Some(n),
        mode_value("0o"@ + oct(n as nat)) == Some(n),
        octal_value(dec(n as nat)) == Some(n),
        octal_value("0o"@ + oct(n as nat)) == Some(n),
{
    lemma_digits_read_back(n as nat, 8);
    lemma_digits_read_back(n as nat, 10);
    lemma_digits_read_back(n as nat, 16);
    lemma_upper_lowers_back(n as nat);
    assert(lowered(hex(n as nat)) =~= hex(n as nat)) by {
        assert forall|i: int| 0 <= i < hex(n as nat).len() implies #[trigger] lowered(
            hex(n as nat),
        )[i] == hex(n as nat)[i] by {
            let c = hex(n as nat)[i];
            assert(('0' <= c <= '9') || ('a' <= c <= 'f'));
        }
    }
    law_hex_reads_back_in_any_case(n, hex(n as nat));
    law_hex_reads_back_in_any_case(n, upper_hex(n as nat));
    reveal_strlit("0o");
    let d = dec(n as nat);
    let o = "0o"@ + oct(n as nat);
    assert(d[0] != '+');
    if d.len() >= 2 {
        assert(d[1] != 'x' && d[1] != 'X' && d[1] != 'o');
    }
    assert(o[0] == '0' && o[1] == 'o');
    assert(o.skip(2) =~= oct(n as nat));
    assert(oct(n as nat)[0] != '+');
}

proof fn lemma_leading_zeros(count: nat, s: Seq<char>, radix: int)
    requires
        2 <= radix <= 36,
    ensures
        digits_value(Seq::new(count, |i: int| '0') + s, radix) == digits_value(s, radix),
    decreases count + s.len(),
{
    let all = Seq::new(count, |i: int| '0') + s;
    if s.len() > 0 {
        lemma_leading_zeros(count, s.drop_last(), radix);
        assert(all.drop_last() =~= Seq::new(count, |i: int| '0') + s.drop_last());
        assert(all.last() == s.last());
    } else if count > 0 {
        lemma_leading_zeros((count - 1) as nat, s, radix);
        assert(all.drop_last() =~= Seq::new((count - 1) as nat, |i: int| '0') + s);
        assert(all.last() == '0');
        assert(0 * radix + 0 == 0) by (nonlinear_arith);
    } else {
        assert(all =~= s);
    }
}

proof fn lemma_no_stray_characters(s: Seq<char>, radix: int, i: int)
    requires
        0 <= i < s.len(),
        digit_value(s[i], radix) is None,
    ensures
        digits_value(s, radix) is None,
    decreases s.len(),
{
    if i < s.len() - 1 {
        lemma_no_stray_characters(s.drop_last(), radix, i);
    }
}

/// A number is read whatever zeros and plus sign stand in front of it. It is
/// refused where it does not fit, where it has no digit, and where any other
/// character stands in it.
#[verifier::rlimit(40)]
pub proof fn law_numbers_are_read_or_refused(n: nat, zeros: nat, s: Seq<char>, i: int)
    ensures
        ({
            let number = Seq::new(zeros, |k: int| '0') + digits(n, 10);
            let want = if n <= 0xFFFF_FFFF {
                Some(n as u32)
            } else {
                None::<u32>
            };
            &&& u32_value(number, 10) == want
            &&& u32_value(seq!['+'] + number, 10) == want
        }),
        ({
            let number = Seq::new(zeros, |k: int| '0') + digits(n, 16);
            let want = if n <= 0xFFFF_FFFF {
                Some(n as u32)
            } else {
                None::<u32>
            };
            &&& u32_value(number, 16) == want
            &&& u32_value(seq!['+'] + number, 16) == want
        }),
        ({
            let number = Seq::new(zeros, |k: int| '0') + digits(n, 8);
            let want = if n <= 0xFFFF_FFFF {
                Some(n as u32)
            } else {
                None::<u32>
            };
            &&& u32_value(number, 8) == want
            &&& u32_value(seq!['+'] + number, 8) == want
        }),
        u32_value(Seq::empty(), 8) is None,
        u32_value(Seq::empty(), 10) is None,
        u32_value(Seq::empty(), 16) is None,
        u32_value(seq!['+'], 8) is None,
        u32_value(seq!['+'], 10) is None,
        u32_value(seq!['+'], 16) is None,
        0 <= i < s.len() && (i > 0 || s[0] != '+') ==> {
            &&& !('0' <= s[i] <= '7') ==> u32_value(s, 8) is None
            &&& !('0' <= s[i] <= '9') ==> u32_value(s, 10) is None
            &&& !('0' <= s[i] <= '9' || 'a' <= s[i] <= 'f' || 'A' <= s[i] <= 'F') ==> u32_value(
                s,
                16,
            ) is None
        },
{
    lemma_read_or_refused(n, zeros, 8);
    lemma_read_or_refused(n, zeros, 10);
    lemma_read_or_refused(n, zeros, 16);
    assert(seq!['+'].skip(1) =~= Seq::empty());
    if 0 <= i < s.len() && (i > 0 || s[0] != '+') {
        lemma_stray_refused(s, i, 8);
        lemma_stray_refused(s, i, 10);
        lemma_stray_refused(s, i, 16);
    }
}

proof fn lemma_stray_refused(s: Seq<char>, i: int, radix: int)
    requires
        0 <= i < s.len(),
        i > 0 || s[0] != '+',
    ensures
        digit_value(s[i], radix) is None ==> u32_value(s, radix) is None,
{
    if digit_value(s[i], radix) is None {
        if s[0] == '+' {
            assert(s.skip(1)[i - 1] == s[i]);
            lemma_no_stray_characters(s.skip(1), radix, i - 1);
        } else {
            lemma_no_stray_characters(s, radix, i);
        }
    }
}

proof fn lemma_read_or_refused(n: nat, zeros: nat, base: nat)
    requires
        base == 8 || base == 10 || base == 16,
    ensures
        ({
            let number = Seq::new(zeros, |k: int| '0') + digits(n, base);
            let want = if n <= 0xFFFF_FFFF {
                Some(n as u32)
            } else {
                None::<u32>
            };
            &&& u32_value(number, base as int) == want
            &&& u32_value(seq!['+'] + number, base as int) == want
        }),
{
    let number = Seq::new(zeros, |k: int| '0') + digits(n, base);
    lemma_digits_read_back(n, base);
    lemma_leading_zeros(zeros, digits(n, base), base as int);
    assert(number[0] != '+') by {
        if zeros == 0 {
            assert(number[0] == digits(n, base)[0]);
        }
    }
    assert((seq!['+'] + number).skip(1) =~= number);
}

/// A prefix says the base: sixteen behind `0x` or `0X`, eight behind `0o` where
/// octal is understood, and ten otherwise.
pub proof fn law_prefixes_say_the_base(s: Seq<char>)
    ensures
        flag_value(seq!['0', 'x'] + s) == u32_value(s, 16),
        flag_value(seq!['0', 'X'] + s) == u32_value(s, 16),
        mode_value(seq!['0', 'x'] + s) == u32_value(s, 16),
        mode_value(seq!['0', 'X'] + s) == u32_value(s, 16),
        mode_value(seq!['0', 'o'] + s) == u32_value(s, 8),
        octal_value(seq!['0', 'o'] + s) == u32_value(s, 8),
        !(s.len() >= 2 && s[0] == '0' && (s[1] == 'x' || s[1] == 'X')) ==> flag_value(s)
            == u32_value(s, 10),
        !(s.len() >= 2 && s[0] == '0' && s[1] == 'o') ==> octal_value(s) == u32_value(s, 10),
        !(s.len() >= 2 && s[0] == '0' && (s[1] == 'x' || s[1] == 'X' || s[1] == 'o'))
            ==> mode_value(s) == u32_value(s, 10),
{
    assert((seq!['0', 'x'] + s).skip(2) =~= s);
    assert((seq!['0', 'X'] + s).skip(2) =~= s);
    assert((seq!['0', 'o'] + s).skip(2) =~= s);
}

}
