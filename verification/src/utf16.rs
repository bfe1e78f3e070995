//! UTF-16, the text encoding of the Windows side.

use vstd::prelude::*;

use crate::text::chars_of;

verus! {

/// The first half of a surrogate pair.
pub open spec fn is_high(u: u16) -> bool {
    0xD800 <= u <= 0xDBFF
}

/// The second half of a surrogate pair.
pub open spec fn is_low(u: u16) -> bool {
    0xDC00 <= u <= 0xDFFF
}

/// The character that a surrogate pair stands for.
pub open spec fn pair_char(high: u16, low: u16) -> char {
    (0x1_0000 + 0x400 * (high - 0xD800) + (low - 0xDC00)) as char
}

/// How many units the first character of `u` takes up: two for a surrogate
/// pair, else one.
pub open spec fn first_units(u: Seq<u16>) -> int {
    if u.len() >= 2 && is_high(u[0]) && is_low(u[1]) {
        2
    } else {
        1
    }
}

/// The first character of `u`; a surrogate without its partner reads as the
/// replacement character.
pub open spec fn first_char(u: Seq<u16>) -> char {
    if first_units(u) == 2 {
        pair_char(u[0], u[1])
    } else if is_high(u[0]) || is_low(u[0]) {
        '\u{FFFD}'
    } else {
        u[0] as char
    }
}

/// The text that the units spell.
pub open spec fn decode16(u: Seq<u16>) -> Seq<char>
    decreases u.len(),
{
    if u.len() == 0 {
        Seq::empty()
    } else {
        seq![first_char(u)] + decode16(u.skip(first_units(u)))
    }
}

/// Whether every surrogate has its partner.
pub open spec fn valid16(u: Seq<u16>) -> bool
    decreases u.len(),
{
    if u.len() == 0 {
        true
    } else {
        &&& first_units(u) == 2 || (!is_high(u[0]) && !is_low(u[0]))
        &&& valid16(u.skip(first_units(u)))
    }
}

/// The units of one character.
pub open spec fn char_units(c: char) -> Seq<u16> {
    let v = c as u32;
    if v < 0x1_0000 {
        seq![v as u16]
    } else {
        seq![
            (0xD800 + (v - 0x1_0000) / 0x400) as u16,
            (0xDC00 + (v - 0x1_0000) % 0x400) as u16,
        ]
    }
}

/// The units of a text.
pub open spec fn encode16(s: Seq<char>) -> Seq<u16>
    decreases s.len(),
{
    if s.len() == 0 {
        Seq::empty()
    } else {
        char_units(s[0]) + encode16(s.skip(1))
    }
}

/// Trusted: `U16Str::to_string` of widestring, to which `U16CStr::to_string`
/// hands over. The contract claims that it accepts exactly the units whose
/// surrogates are all paired, and decodes them.
#[verifier::external_body]
pub(crate) fn wide_str(units: &[u16]) -> (out: Option<String>)
    ensures
        out is Some <==> valid16(units@),
        out matches Some(s) ==> s@ == decode16(units@),
{
    widestring::U16Str::from_slice(units).to_string().ok()
}

/// Trusted: `U16Str::to_string_lossy` of widestring, which does what
/// `U16CStr::to_string_lossy` does. The contract claims that every surrogate
/// without its partner becomes the replacement character and all else decodes.
#[verifier::external_body]
pub(crate) fn wide_str_lossy(units: &[u16]) -> (out: String)
    ensures
        out@ == decode16(units@),
{
    widestring::U16Str::from_slice(units).to_string_lossy()
}

/// Trusted: `String::from_utf16` of std. The contract claims that it accepts
/// exactly the units whose surrogates are all paired, and decodes them.
#[verifier::external_body]
pub(crate) fn utf16_str(units: &[u16]) -> (out: Option<String>)
    ensures
        out is Some <==> valid16(units@),
        out matches Some(s) ==> s@ == decode16(units@),
{
    String::from_utf16(units).ok()
}

proof fn lemma_encode_push(s: Seq<char>, c: char)
    ensures
        encode16(s.push(c)) == encode16(s) + char_units(c),
    decreases s.len(),
{
    if s.len() == 0 {
        reveal_with_fuel(encode16, 2);
        assert(s.push(c).skip(1) =~= Seq::empty());
        assert(encode16(s.push(c)) =~= encode16(s) + char_units(c));
    } else {
        assert(s.push(c).skip(1) =~= s.skip(1).push(c));
        lemma_encode_push(s.skip(1), c);
        assert(encode16(s.push(c)) =~= encode16(s) + char_units(c));
    }
}

/// The units of a text.
pub fn encode_wide(s: &str) -> (out: Vec<u16>)
    ensures
        out@ == encode16(s@),
{
    let chars = chars_of(s);
    let mut out: Vec<u16> = Vec::new();
    for i in 0..chars.len()
        invariant
            chars@ == s@,
            out@ == encode16(s@.take(i as int)),
    {
        let c = chars[i];
        proof {
            vstd::utf8::char_is_scalar(c);
        }
        let v: u32 = c as u32;
        let ghost before = out@;
        if v < 0x1_0000 {
            out.push(v as u16);
        } else {
            out.push((0xD800 + (v - 0x1_0000) / 0x400) as u16);
            out.push((0xDC00 + (v - 0x1_0000) % 0x400) as u16);
        }
        proof {
            assert(out@ =~= before + char_units(c));
            lemma_encode_push(s@.take(i as int), c);
            assert(s@.take(i as int).push(c) =~= s@.take(i + 1));
        }
    }
    proof {
        assert(s@.take(s@.len() as int) =~= s@);
    }
    out
}

/// The units of a text, with a NUL behind them.
pub fn wide_z(s: &str) -> (out: Vec<u16>)
    ensures
        out@ == encode16(s@).push(0),
{
    let mut out = encode_wide(s);
    out.push(0);
    out
}

/// Decoding gives back what was encoded, and what was encoded is always valid.
pub proof fn law_wide_round_trip(s: Seq<char>)
    ensures
        valid16(encode16(s)),
        decode16(encode16(s)) == s,
    decreases s.len(),
{
    if s.len() > 0 {
        let rest = s.skip(1);
        law_wide_round_trip(rest);
        let u = encode16(s);
        let c = s[0];
        vstd::utf8::char_is_scalar(c);
        assert(u.skip(char_units(c).len() as int) =~= encode16(rest));
        assert(u[0] == char_units(c)[0]);
        if (c as u32) >= 0x1_0000 {
            assert(u[1] == char_units(c)[1]);
        }
        assert(first_units(u) == char_units(c).len());
        vstd::utf8::char_u32_cast(c, c as u32);
        if (c as u32) >= 0x1_0000 {
            assert(0x1_0000 + 0x400 * (u[0] - 0xD800) + (u[1] - 0xDC00) == c as u32);
        } else {
            assert(u[0] == c as u32);
        }
        assert(first_char(u) == c);
        assert(decode16(u) =~= s);
    }
}

/// Encoding gives back what was decoded, where every surrogate is paired. So
/// no two such sequences spell the same text.
pub proof fn law_wide_is_lossless(u: Seq<u16>)
    requires
        valid16(u),
    ensures
        encode16(decode16(u)) == u,
    decreases u.len(),
{
    if u.len() > 0 {
        let n = first_units(u);
        law_wide_is_lossless(u.skip(n));
        let c = first_char(u);
        assert(decode16(u).skip(1) =~= decode16(u.skip(n)));
        assert(char_units(c) =~= u.take(n));
        assert(encode16(decode16(u)) =~= u);
    }
}

/// A character of the first plane is one unit, its own number. Any other one is
/// a high and a low surrogate that hold the upper and the lower ten bits of what
/// it is above that plane.
pub proof fn law_units_of_a_character(c: char)
    ensures
        (c as u32) < 0x1_0000 ==> encode16(seq![c]).len() == 1 && encode16(seq![c])[0] as int
            == c as u32,
        (c as u32) >= 0x1_0000 ==> {
            let u = encode16(seq![c]);
            &&& u.len() == 2
            &&& 0xD800 <= u[0] < 0xDC00
            &&& 0xDC00 <= u[1] < 0xE000
            &&& (u[0] - 0xD800) * 0x400 + (u[1] - 0xDC00) + 0x1_0000 == c as u32
        },
{
    vstd::utf8::char_is_scalar(c);
    reveal_with_fuel(encode16, 2);
    assert(seq![c].skip(1) =~= Seq::empty());
    assert(encode16(seq![c]) =~= char_units(c));
}

#[verifier::rlimit(40)]
proof fn lemma_decode_behind(s: Seq<char>, v: Seq<u16>)
    ensures
        decode16(encode16(s) + v) == s + decode16(v),
        valid16(encode16(s) + v) == valid16(v),
        encode16(s).len() > 0 ==> !is_low(encode16(s)[0]),
    decreases s.len(),
{
    let u = encode16(s) + v;
    if s.len() == 0 {
        assert(u =~= v);
        assert(s + decode16(v) =~= decode16(v));
    } else {
        let rest = s.skip(1);
        lemma_decode_behind(rest, v);
        let c = s[0];
        vstd::utf8::char_is_scalar(c);
        let n = char_units(c).len() as int;
        assert(u.skip(n) =~= encode16(rest) + v);
        assert(u[0] == char_units(c)[0]);
        if (c as u32) >= 0x1_0000 {
            assert(u[1] == char_units(c)[1]);
        }
        assert(first_units(u) == n);
        vstd::utf8::char_u32_cast(c, c as u32);
        if (c as u32) >= 0x1_0000 {
            assert(0x1_0000 + 0x400 * (u[0] - 0xD800) + (u[1] - 0xDC00) == c as u32);
        } else {
            assert(u[0] == c as u32);
        }
        assert(first_char(u) == c);
        assert(decode16(u) =~= s + decode16(v));
    }
}

/// A surrogate without its other half, and nothing else, makes a sequence
/// invalid, and stands as one replacement character between what is before it
/// and what is behind it. What is valid is exactly what some text encodes to.
#[verifier::rlimit(40)]
pub proof fn law_lone_surrogates_are_replaced(
    before: Seq<char>,
    lone: u16,
    behind: Seq<char>,
    u: Seq<u16>,
)
    requires
        0xD800 <= lone < 0xE000,
    ensures
        !valid16(encode16(before) + seq![lone] + encode16(behind)),
        decode16(encode16(before) + seq![lone] + encode16(behind)) == before + seq!['\u{FFFD}']
            + behind,
        valid16(u) <==> encode16(decode16(u)) == u,
{
    let v = seq![lone] + encode16(behind);
    assert(encode16(before) + seq![lone] + encode16(behind) =~= encode16(before) + v);
    lemma_decode_behind(before, v);
    lemma_decode_behind(behind, Seq::empty());
    assert(first_units(v) == 1) by {
        if v.len() >= 2 {
            assert(v[1] == encode16(behind)[0]);
        }
    }
    assert(v.skip(1) =~= encode16(behind));
    law_wide_round_trip(behind);
    assert(decode16(v) =~= seq!['\u{FFFD}'] + behind);
    assert(before + (seq!['\u{FFFD}'] + behind) =~= before + seq!['\u{FFFD}'] + behind);
    law_wide_round_trip(decode16(u));
    if valid16(u) {
        law_wide_is_lossless(u);
    }
}

}
