//! Text building blocks: digits, padding, and the UTF-8 views of raw bytes.

use vstd::prelude::*;
use vstd::utf8::{decode_utf8, valid_utf8};

verus! {

/// Trusted: `String::push` of std. The contract claims that it appends the
/// given character and changes nothing else.
pub assume_specification[ String::push ](s: &mut String, c: char)
    ensures
        final(s)@ == old(s)@.push(c),
;

/// What `{:?}` prints for a string: quoted, with std's escapes.
pub uninterp spec fn debug_text(s: Seq<char>) -> Seq<char>;

/// Trusted: `format!` of std with `{:?}` on a `str`. The contract names the
/// result; it does not say which characters are escaped.
#[verifier::external_body]
pub(crate) fn debug_str(s: &str) -> (out: String)
    ensures
        out@ == debug_text(s@),
{
    format!("{:?}", s)
}

/// What std makes of bytes that may not be UTF-8.
pub uninterp spec fn utf8_lossy(bytes: Seq<u8>) -> Seq<char>;

/// Trusted: `String::from_utf8_lossy` of std. The contract names the result
/// and claims that valid UTF-8 decodes to itself; what stands in for invalid
/// bytes is left to the name.
#[verifier::external_body]
pub(crate) fn lossy_str(bytes: &[u8]) -> (out: String)
    ensures
        out@ == utf8_lossy(bytes@),
        valid_utf8(bytes@) ==> out@ == decode_utf8(bytes@),
{
    String::from_utf8_lossy(bytes).into_owned()
}

/// The text of bytes that may not be UTF-8: valid UTF-8 as it decodes, other
/// bytes as std shows them.
pub open spec fn lossy_text(bytes: Seq<u8>) -> Seq<char> {
    if valid_utf8(bytes) {
        decode_utf8(bytes)
    } else {
        utf8_lossy(bytes)
    }
}

/// Trusted: `std::str::from_utf8`. The contract claims that it accepts
/// exactly the valid UTF-8 sequences and decodes them.
#[verifier::external_body]
pub(crate) fn strict_str(bytes: &[u8]) -> (out: Option<&str>)
    ensures
        out is Some <==> valid_utf8(bytes@),
        out matches Some(s) ==> s@ == decode_utf8(bytes@),
{
    std::str::from_utf8(bytes).ok()
}

/// The digit `d` in bases up to sixteen, in lower case.
pub open spec fn digit_char(d: nat) -> char {
    if d < 10 {
        ('0' as u32 + d) as char
    } else {
        ('a' as u32 + (d - 10)) as char
    }
}

/// `n` written in the given base, without leading zeros.
pub open spec fn digits(n: nat, base: nat) -> Seq<char>
    decreases n,
{
    if base < 2 || n < base {
        seq![digit_char(n)]
    } else {
        proof {
            assert(n / base < n) by (nonlinear_arith)
                requires
                    2 <= base <= n,
            ;
        }
        digits(n / base, base).push(digit_char(n % base))
    }
}

/// `n` in decimal.
pub open spec fn dec(n: nat) -> Seq<char> {
    digits(n, 10)
}

/// `n` in lower-case hexadecimal.
pub open spec fn hex(n: nat) -> Seq<char> {
    digits(n, 16)
}

/// `n` in octal.
pub open spec fn oct(n: nat) -> Seq<char> {
    digits(n, 8)
}

/// `count` copies of `c`.
pub open spec fn repeated(c: char, count: nat) -> Seq<char> {
    Seq::new(count, |i: int| c)
}

/// `s` moved right to at least `width` characters, `fill` in front.
pub open spec fn pad_left(s: Seq<char>, width: nat, fill: char) -> Seq<char> {
    if s.len() < width {
        repeated(fill, (width - s.len()) as nat) + s
    } else {
        s
    }
}

/// `s` followed by spaces up to at least `width` characters.
pub open spec fn pad_right(s: Seq<char>, width: nat) -> Seq<char> {
    if s.len() < width {
        s + repeated(' ', (width - s.len()) as nat)
    } else {
        s
    }
}

/// The views of a list of strings.
pub open spec fn views(list: Seq<String>) -> Seq<Seq<char>> {
    list.map_values(|s: String| s@)
}

/// `items` with `sep` between each two.
pub open spec fn join(items: Seq<Seq<char>>, sep: Seq<char>) -> Seq<char>
    decreases items.len(),
{
    if items.len() == 0 {
        Seq::empty()
    } else if items.len() == 1 {
        items[0]
    } else {
        join(items.drop_last(), sep) + sep + items.last()
    }
}

fn digit(d: u64) -> (c: char)
    requires
        d < 16,
    ensures
        c == digit_char(d as nat),
{
    if d < 10 {
        (48u8 + d as u8) as char
    } else {
        (97u8 + (d as u8 - 10)) as char
    }
}

/// `n` written in `base`.
pub(crate) fn radix_text(n: u64, base: u64) -> (out: String)
    requires
        2 <= base <= 16,
    ensures
        out@ == digits(n as nat, base as nat),
    decreases n,
{
    if n < base {
        let mut out = String::new();
        out.push(digit(n));
        proof {
            assert(out@ =~= seq![digit_char(n as nat)]);
        }
        out
    } else {
        proof {
            assert(n / base < n) by (nonlinear_arith)
                requires
                    2 <= base,
                    n >= base,
            ;
            assert(n % base < base) by (nonlinear_arith)
                requires
                    2 <= base,
            ;
        }
        let mut out = radix_text(n / base, base);
        out.push(digit(n % base));
        out
    }
}

/// `n` in decimal.
pub(crate) fn dec_text(n: u64) -> (out: String)
    ensures
        out@ == dec(n as nat),
{
    radix_text(n, 10)
}

/// The characters of a string.
pub(crate) fn chars_of(s: &str) -> (out: Vec<char>)
    ensures
        out@ == s@,
{
    let mut out: Vec<char> = Vec::new();
    for c in it: s.chars()
        invariant
            out@ == it.seq().take(it.index()),
            it.seq() == s@,
    {
        out.push(c);
    }
    out
}

/// The string made of the given characters.
pub(crate) fn string_of(chars: &[char]) -> (out: String)
    ensures
        out@ == chars@,
{
    let mut out = String::new();
    for i in 0..chars.len()
        invariant
            out@ == chars@.take(i as int),
    {
        out.push(chars[i]);
    }
    out
}

/// `s` behind enough copies of `fill` to be at least `width` characters long.
pub(crate) fn padded_left(s: &str, width: usize, fill: char) -> (out: String)
    ensures
        out@ == pad_left(s@, width as nat, fill),
{
    let chars = chars_of(s);
    let mut out = String::new();
    if chars.len() < width {
        let gap: usize = width - chars.len();
        for i in 0..gap
            invariant
                out@ == repeated(fill, i as nat),
        {
            out.push(fill);
            proof {
                assert(out@ =~= repeated(fill, (i + 1) as nat));
            }
        }
    }
    out.append(s);
    proof {
        assert(out@ =~= pad_left(s@, width as nat, fill));
    }
    out
}

/// `s` followed by enough spaces to be at least `width` characters long.
pub(crate) fn padded_right(s: &str, width: usize) -> (out: String)
    ensures
        out@ == pad_right(s@, width as nat),
{
    let chars = chars_of(s);
    let mut out = s.to_owned();
    if chars.len() < width {
        let gap: usize = width - chars.len();
        for i in 0..gap
            invariant
                out@ == s@ + repeated(' ', i as nat),
        {
            out.push(' ');
            proof {
                assert(out@ =~= s@ + repeated(' ', (i + 1) as nat));
            }
        }
    }
    out
}

/// Whether the string holds a NUL character, which no C string can carry.
pub open spec fn has_nul(s: Seq<char>) -> bool {
    s.contains('\0')
}

/// Whether a string holds a NUL.
pub(crate) fn contains_nul(s: &str) -> (found: bool)
    ensures
        found == has_nul(s@),
{
    let chars = chars_of(s);
    for i in 0..chars.len()
        invariant
            chars@ == s@,
            forall|j: int| 0 <= j < i ==> chars@[j] != '\0',
    {
        if chars[i] == '\0' {
            return true;
        }
    }
    false
}

/// `n` in decimal, with a minus sign in front of a negative number.
pub open spec fn signed_dec(n: int) -> Seq<char> {
    if n < 0 {
        "-"@ + dec((-n) as nat)
    } else {
        dec(n as nat)
    }
}

/// `n` in decimal with its sign.
pub(crate) fn signed_dec_text(n: i64) -> (out: String)
    ensures
        out@ == signed_dec(n as int),
{
    if n < 0 {
        let mut out = "-".to_owned();
        let magnitude: u64 = if n == i64::MIN {
            0x8000_0000_0000_0000
        } else {
            (-n) as u64
        };
        out.append(dec_text(magnitude).as_str());
        out
    } else {
        dec_text(n as u64)
    }
}

/// `n` in hexadecimal with at least `width` digits.
pub(crate) fn hex_text(n: u64, width: usize) -> (out: String)
    ensures
        out@ == pad_left(hex(n as nat), width as nat, '0'),
{
    padded_left(radix_text(n, 16).as_str(), width, '0')
}

/// Whether two strings are the same.
pub(crate) fn same_str(a: &str, b: &str) -> (same: bool)
    ensures
        same == (a@ == b@),
{
    let x = chars_of(a);
    let y = chars_of(b);
    if x.len() != y.len() {
        return false;
    }
    for i in 0..x.len()
        invariant
            x@ == a@,
            y@ == b@,
            x@.len() == y@.len(),
            forall|j: int| 0 <= j < i ==> x@[j] == y@[j],
    {
        if x[i] != y[i] {
            return false;
        }
    }
    proof {
        assert(a@ =~= b@);
    }
    true
}

/// Padding adds nothing but the filling, and no more of it than the width asks
/// for: what was padded stands at the other end, whole.
pub proof fn law_padding_keeps_the_text(s: Seq<char>, width: nat, fill: char)
    ensures
        pad_left(s, width, fill).len() == if s.len() < width {
            width
        } else {
            s.len()
        },
        pad_left(s, width, fill).skip(pad_left(s, width, fill).len() - s.len()) == s,
        forall|i: int|
            0 <= i < pad_left(s, width, fill).len() - s.len() ==> #[trigger] pad_left(
                s,
                width,
                fill,
            )[i] == fill,
        pad_right(s, width).len() == pad_left(s, width, fill).len(),
        pad_right(s, width).take(s.len() as int) == s,
        forall|i: int|
            s.len() <= i < pad_right(s, width).len() ==> #[trigger] pad_right(s, width)[i] == ' ',
{
}

/// A number's last digit is its remainder by the base, and the digits before it
/// are those of the quotient. Digits above nine are the letters from `a` on, and
/// a negative number has a minus in front.
pub proof fn law_digits_are_positional(n: nat, base: nat)
    requires
        base == 8 || base == 10 || base == 16,
    ensures
        digits(n, base).len() > 0,
        digits(n, base).last() == "0123456789abcdef"@[(n % base) as int],
        n < base ==> digits(n, base).len() == 1,
        n >= base ==> digits(n, base).drop_last() == digits(n / base, base),
        dec(n) == digits(n, 10),
        hex(n) == digits(n, 16),
        oct(n) == digits(n, 8),
        signed_dec(n as int) == digits(n, 10),
        n > 0 ==> signed_dec(-(n as int)) == seq!['-'] + digits(n, 10),
{
    reveal_strlit("0123456789abcdef");
    reveal_strlit("-");
    assert("-"@ =~= seq!['-']);
    if n >= base {
        assert(digits(n, base).drop_last() =~= digits(n / base, base));
        let d = n % base;
        assert(d < base) by (nonlinear_arith)
            requires
                base > 0,
                d == n % base,
        ;
    } else {
        assert(n % base == n) by (nonlinear_arith)
            requires
                n < base,
        ;
    }
}

/// Joined items stand in their order, with a separator between neighbours and
/// none at either end.
pub proof fn law_joined_items_keep_their_order(
    items: Seq<Seq<char>>,
    sep: Seq<char>,
    item: Seq<char>,
)
    ensures
        join(Seq::empty(), sep) == Seq::<char>::empty(),
        join(seq![item], sep) == item,
        items.len() > 0 ==> join(items.push(item), sep) == join(items, sep) + sep + item,
        items.len() > 0 ==> join(seq![item] + items, sep) == item + sep + join(items, sep),
    decreases items.len(),
{
    assert(items.push(item).drop_last() =~= items);
    if items.len() == 1 {
        assert((seq![item] + items).drop_last() =~= seq![item]);
        assert((seq![item] + items).last() == items[0]);
        assert(join(seq![item], sep) == item);
        assert(join(seq![item] + items, sep) =~= item + sep + join(items, sep));
    } else if items.len() > 1 {
        law_joined_items_keep_their_order(items.drop_last(), sep, item);
        assert((seq![item] + items).drop_last() =~= seq![item] + items.drop_last());
        assert((seq![item] + items).last() == items.last());
        assert(join(seq![item] + items, sep) =~= item + sep + join(items, sep));
    }
}

/// Bytes that are UTF-8 are read as what they spell, and only others are read
/// with replacements.
pub proof fn law_utf8_is_read_as_it_is(s: Seq<char>, bytes: Seq<u8>)
    ensures
        lossy_text(vstd::utf8::encode_utf8(s)) == s,
        !valid_utf8(bytes) ==> lossy_text(bytes) == utf8_lossy(bytes),
{
    vstd::utf8::encode_utf8_valid_utf8(s);
    vstd::utf8::encode_utf8_decode_utf8(s);
}

/// A list of texts is seen text by text.
pub proof fn law_lists_are_seen_as_they_are(list: Seq<String>, i: int)
    ensures
        views(list).len() == list.len(),
        0 <= i < list.len() ==> views(list)[i] == list[i]@,
{
}

}
