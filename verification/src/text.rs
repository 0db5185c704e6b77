//! Small verified text helpers: string equality, case-insensitive matching,
//! username normalization, and decimal numbers for the port field.

use vstd::prelude::*;
use vstd::slice::slice_to_vec;
use vstd::string::StrSliceExecFns;
use vstd::string::StringExecFns;
use vstd::utf8::{decode_utf8, encode_utf8, encode_utf8_decode_utf8, encode_utf8_valid_utf8,
    is_ascii_chars, is_ascii_chars_encode_utf8};

use crate::codec::bytes_to_string;

verus! {

/// Character-for-character string equality.
pub fn str_eq(a: &str, b: &str) -> (r: bool)
    ensures
        r == (a@ == b@),
{
    let na = a.unicode_len();
    let nb = b.unicode_len();
    if na != nb {
        proof {
            if a@ == b@ {
                assert(a@.len() == b@.len());
            }
        }
        return false;
    }
    let mut i: usize = 0;
    while i < na
        invariant
            0 <= i <= na,
            na == a@.len(),
            na == b@.len(),
            forall|j: int| 0 <= j < i ==> a@[j] == b@[j],
        decreases na - i,
    {
        if a.get_char(i) != b.get_char(i) {
            proof {
                if a@ == b@ {
                    assert(a@[i as int] == b@[i as int]);
                }
            }
            return false;
        }
        i += 1;
    }
    proof {
        assert(a@ =~= b@);
    }
    true
}

/// Two characters match up to ASCII case.
pub open spec fn chars_eq_ignore_ascii_case(a: char, b: char) -> bool {
    ||| a == b
    ||| (65 <= a as u32 <= 90 && a as u32 + 32 == b as u32)
    ||| (65 <= b as u32 <= 90 && b as u32 + 32 == a as u32)
}

/// The strings match character for character up to ASCII case.
pub open spec fn spec_eq_ignore_ascii_case(a: Seq<char>, b: Seq<char>) -> bool {
    a.len() == b.len() && (forall|i: int|
        0 <= i < a.len() ==> #[trigger] chars_eq_ignore_ascii_case(a[i], b[i]))
}

/// Compares two strings up to ASCII case, as the configuration's section
/// lookup does.
pub fn str_eq_ignore_ascii_case(a: &str, b: &str) -> (r: bool)
    ensures
        r == spec_eq_ignore_ascii_case(a@, b@),
{
    let na = a.unicode_len();
    let nb = b.unicode_len();
    if na != nb {
        return false;
    }
    let mut i: usize = 0;
    while i < na
        invariant
            0 <= i <= na,
            na == a@.len(),
            na == b@.len(),
            forall|j: int| 0 <= j < i ==> #[trigger] chars_eq_ignore_ascii_case(a@[j], b@[j]),
        decreases na - i,
    {
        let ca = a.get_char(i);
        let cb = b.get_char(i);
        let ua = ca as u32;
        let ub = cb as u32;
        let ok = ca == cb || (65 <= ua && ua <= 90 && ua + 32 == ub) || (65 <= ub && ub <= 90 && ub
            + 32 == ua);
        proof {
            assert(ok == chars_eq_ignore_ascii_case(a@[i as int], b@[i as int]));
        }
        if !ok {
            return false;
        }
        i += 1;
    }
    true
}

/// The username suffix every Portal user carries.
pub open spec fn spec_username_suffix() -> Seq<char> {
    "@portal"@
}

/// `s` already ends in the username suffix.
pub open spec fn spec_has_username_suffix(s: Seq<char>) -> bool {
    s.len() >= 7 && s.skip(s.len() - 7) == spec_username_suffix()
}

/// A stored username: the given name, with the suffix appended when it was
/// not already there.
pub open spec fn spec_normalize_username(s: Seq<char>) -> Seq<char> {
    if spec_has_username_suffix(s) {
        s
    } else {
        s + spec_username_suffix()
    }
}

/// Whether `s` already ends in the username suffix.
pub fn has_username_suffix(s: &str) -> (r: bool)
    ensures
        r == spec_has_username_suffix(s@),
{
    proof {
        reveal_strlit("@portal");
    }
    let n = s.unicode_len();
    if n < 7 {
        return false;
    }
    let tail = s.substring_char(n - 7, n);
    proof {
        assert(tail@ == s@.skip(s@.len() - 7));
    }
    str_eq(tail, "@portal")
}

/// Normalizes a username: appends the suffix unless it is already there.
pub fn normalize_username(s: &str) -> (r: String)
    ensures
        r@ == spec_normalize_username(s@),
{
    proof {
        reveal_strlit("@portal");
    }
    if has_username_suffix(s) {
        String::from_str(s)
    } else {
        let mut r = String::from_str(s);
        r.append("@portal");
        r
    }
}

/// A decimal digit byte.
pub open spec fn is_digit_byte(b: u8) -> bool {
    48 <= b <= 57
}

/// Every byte is a decimal digit.
pub open spec fn all_digit_bytes(s: Seq<u8>) -> bool {
    forall|i: int| 0 <= i < s.len() ==> #[trigger] is_digit_byte(s[i])
}

/// The number a digit string denotes, most significant digit first.
pub open spec fn spec_decimal_value(s: Seq<u8>) -> int
    decreases s.len(),
{
    if s.len() == 0 {
        0
    } else {
        spec_decimal_value(s.drop_last()) * 10 + (s.last() - 48)
    }
}

/// The text holds a `u16` written in decimal: at least one digit, digits
/// only, value in range. Leading zeros are allowed, a sign is not.
pub open spec fn is_u16_decimal(s: Seq<u8>) -> bool {
    &&& 1 <= s.len()
    &&& all_digit_bytes(s)
    &&& spec_decimal_value(s) <= u16::MAX
}

/// A digit string's value never goes negative.
pub proof fn lemma_decimal_value_nonneg(s: Seq<u8>)
    requires
        all_digit_bytes(s),
    ensures
        spec_decimal_value(s) >= 0,
    decreases s.len(),
{
    if s.len() > 0 {
        assert(is_digit_byte(s[s.len() - 1]));
        assert(all_digit_bytes(s.drop_last())) by {
            assert(forall|i: int|
                0 <= i < s.drop_last().len() ==> s.drop_last()[i] == s[i] && is_digit_byte(#[trigger] s[i]));
        }
        lemma_decimal_value_nonneg(s.drop_last());
    }
}

/// A digit string is worth at least any of its prefixes.
pub proof fn lemma_decimal_prefix_le(s: Seq<u8>, i: int)
    requires
        all_digit_bytes(s),
        0 <= i <= s.len(),
    ensures
        spec_decimal_value(s.take(i)) <= spec_decimal_value(s),
    decreases s.len() - i,
{
    if i == s.len() {
        assert(s.take(i) =~= s);
    } else {
        assert(all_digit_bytes(s.take(i + 1))) by {
            assert(forall|j: int|
                0 <= j < i + 1 ==> s.take(i + 1)[j] == s[j] && is_digit_byte(#[trigger] s[j]));
        }
        assert(s.take(i + 1).drop_last() =~= s.take(i));
        lemma_decimal_value_nonneg(s.take(i));
        assert(is_digit_byte(s[i]));
        assert(spec_decimal_value(s.take(i + 1)) == spec_decimal_value(s.take(i)) * 10 + (s[i]
            - 48));
        lemma_decimal_prefix_le(s, i + 1);
    }
}

/// Parses a decimal `u16`, exactly when the text is one: digits only, at
/// least one, value at most `u16::MAX`.
pub fn parse_u16_decimal(s: &str) -> (r: Option<u16>)
    ensures
        match r {
            Some(v) => {
                &&& is_u16_decimal(encode_utf8(s@))
                &&& v == spec_decimal_value(encode_utf8(s@))
            },
            None => !is_u16_decimal(encode_utf8(s@)),
        },
{
    let bytes = slice_to_vec(s.as_bytes());
    let ghost bs = encode_utf8(s@);
    let n = bytes.len();
    if n == 0 {
        return None;
    }
    let mut val: u32 = 0;
    let mut i: usize = 0;
    while i < n
        invariant
            0 <= i <= n,
            bs == encode_utf8(s@),
            bytes@ == bs,
            n == bs.len(),
            1 <= n,
            forall|j: int| 0 <= j < i ==> #[trigger] is_digit_byte(bs[j]),
            val == spec_decimal_value(bs.take(i as int)),
            val <= 0xffff,
        decreases n - i,
    {
        let b = bytes[i];
        proof {
            assert(bs[i as int] == b);
        }
        if b < 48 || b > 57 {
            proof {
                assert(!is_digit_byte(bs[i as int]));
            }
            return None;
        }
        val = val * 10 + (b - 48) as u32;
        proof {
            assert(bs.take(i as int + 1).drop_last() =~= bs.take(i as int));
            assert(bs.take(i as int + 1).last() == bs[i as int]);
        }
        if val > 0xffff {
            proof {
                if is_u16_decimal(bs) {
                    lemma_decimal_prefix_le(bs, i as int + 1);
                }
            }
            return None;
        }
        i += 1;
    }
    proof {
        assert(bs.take(n as int) =~= bs);
    }
    Some(val as u16)
}

/// The decimal digits of `x`, most significant first, no leading zero.
pub open spec fn spec_decimal_digits(x: int) -> Seq<u8>
    recommends
        x >= 0,
    decreases x,
{
    if x < 10 {
        seq![(48 + if x >= 0 { x } else { 0 }) as u8]
    } else {
        spec_decimal_digits(x / 10) + seq![(48 + x % 10) as u8]
    }
}

/// Appends the decimal digits of `x` to `out`.
fn push_decimal_digits(out: &mut Vec<u8>, x: u64)
    ensures
        final(out)@ == old(out)@ + spec_decimal_digits(x as int),
    decreases x,
{
    if x < 10 {
        out.push(48 + x as u8);
        proof {
            assert(out@ =~= old(out)@ + spec_decimal_digits(x as int));
        }
    } else {
        push_decimal_digits(out, x / 10);
        out.push(48 + (x % 10) as u8);
        proof {
            assert(out@ =~= old(out)@ + spec_decimal_digits(x as int));
        }
    }
}

/// Writes `x` in decimal, the way the configuration reports a port back.
pub fn format_u64(x: u64) -> (r: String)
    ensures
        encode_utf8(r@) == spec_decimal_digits(x as int),
        r@ == decode_utf8(spec_decimal_digits(x as int)),
{
    let mut digits: Vec<u8> = Vec::new();
    push_decimal_digits(&mut digits, x);
    proof {
        lemma_decimal_digits_are_digits(x as int);
        lemma_digit_bytes_utf8(digits@);
    }
    match bytes_to_string(digits.as_slice()) {
        Some(s) => {
            proof {
                encode_utf8_decode_utf8(s@);
            }
            s
        },
        None => {
            proof {
                assert(false);
            }
            String::new()
        },
    }
}

/// Every byte of a number's decimal form is a digit.
pub proof fn lemma_decimal_digits_are_digits(x: int)
    requires
        x >= 0,
    ensures
        all_digit_bytes(spec_decimal_digits(x)),
        spec_decimal_digits(x).len() >= 1,
    decreases x,
{
    if x < 10 {
    } else {
        lemma_decimal_digits_are_digits(x / 10);
        let pre = spec_decimal_digits(x / 10);
        let whole = spec_decimal_digits(x);
        assert(0 <= x % 10 < 10);
        assert forall|i: int| 0 <= i < whole.len() implies #[trigger] is_digit_byte(whole[i]) by {
            if i < pre.len() {
                assert(is_digit_byte(pre[i]));
            }
        }
    }
}

/// A sequence of digit bytes is valid UTF-8, and decodes to the matching
/// characters, whose encoding is the byte sequence itself.
pub proof fn lemma_digit_bytes_utf8(s: Seq<u8>)
    requires
        all_digit_bytes(s),
    ensures
        vstd::utf8::valid_utf8(s),
        encode_utf8(decode_utf8(s)) == s,
    decreases s.len(),
{
    let chars = Seq::new(s.len(), |i: int| s[i] as char);
    assert(is_ascii_chars(chars)) by {
        assert forall|i: int| 0 <= i < chars.len() implies '\0' <= #[trigger] chars[i]
            <= '\u{7f}' by {
            assert(is_digit_byte(s[i]));
            assert(chars[i] == s[i] as char);
        }
    }
    is_ascii_chars_encode_utf8(chars);
    assert(encode_utf8(chars) =~= s);
    encode_utf8_valid_utf8(chars);
    encode_utf8_decode_utf8(chars);
}

/// Parsing a number's decimal form yields the number back: the port a
/// configuration reports can be fed to it again.
pub proof fn lemma_decimal_round_trip(x: int)
    requires
        x >= 0,
    ensures
        spec_decimal_value(spec_decimal_digits(x)) == x,
    decreases x,
{
    if x < 10 {
        let d = spec_decimal_digits(x);
        assert(d =~= seq![(48 + x) as u8]);
        assert(d.drop_last() =~= Seq::<u8>::empty());
        assert(spec_decimal_value(Seq::<u8>::empty()) == 0);
        assert(spec_decimal_value(d) == 0 * 10 + ((48 + x) as u8 - 48));
    } else {
        lemma_decimal_round_trip(x / 10);
        let pre = spec_decimal_digits(x / 10);
        let whole = spec_decimal_digits(x);
        assert(whole =~= pre + seq![(48 + x % 10) as u8]);
        assert(whole.len() == pre.len() + 1);
        assert(whole.drop_last() =~= pre);
        assert(whole.last() == (48 + x % 10) as u8);
        assert(spec_decimal_value(whole) == spec_decimal_value(pre) * 10 + (whole.last() - 48));
        vstd::arithmetic::div_mod::lemma_fundamental_div_mod(x, 10);
    }
}

} // verus!
