//! Decimal text for integers: the parsing rules of the standard `FromStr`
//! impls for `u32` and `i32`, and the `Display` output of unsigned and
//! signed integers, with the zero padding that `{:02}` and `{:04}` give.
use vstd::prelude::*;

use crate::strings::{chars_of, push_char};
use vstd::string::{StrSliceExecFns, StringExecFns};

verus! {

pub open spec fn is_digit(c: char) -> bool {
    '0' <= c && c <= '9'
}

pub open spec fn digit_value(c: char) -> int {
    c as int - '0' as int
}

pub open spec fn all_digits(s: Seq<char>) -> bool {
    forall|i: int| 0 <= i < s.len() ==> is_digit(#[trigger] s[i])
}

/// The number that a run of decimal digits denotes.
pub open spec fn digits_value(s: Seq<char>) -> nat
    decreases s.len(),
{
    if s.len() == 0 {
        0
    } else {
        (digits_value(s.drop_last()) * 10 + digit_value(s.last())) as nat
    }
}

/// What `s.parse::<u32>().ok()` gives: an optional `+`, then one or more
/// ASCII digits and nothing else, of a value that fits in a `u32`.
pub open spec fn spec_parse_u32(s: Seq<char>) -> Option<u32> {
    let digits = if s.len() > 0 && s[0] == '+' { s.drop_first() } else { s };
    if digits.len() == 0 || !all_digits(digits) || digits_value(digits) > u32::MAX {
        None
    } else {
        Some(digits_value(digits) as u32)
    }
}

/// What `s.parse::<i32>().ok()` gives: an optional `+` or `-`, then one or
/// more ASCII digits and nothing else, of a value that fits in an `i32`.
pub open spec fn spec_parse_i32(s: Seq<char>) -> Option<i32> {
    let negative = s.len() > 0 && s[0] == '-';
    let digits = if s.len() > 0 && (s[0] == '+' || s[0] == '-') {
        s.drop_first()
    } else {
        s
    };
    let value: int = if negative {
        -digits_value(digits)
    } else {
        digits_value(digits) as int
    };
    if digits.len() == 0 || !all_digits(digits) || value < i32::MIN || value > i32::MAX {
        None
    } else {
        Some(value as i32)
    }
}

pub open spec fn digit_char(d: nat) -> char
    recommends
        d < 10,
{
    seq!['0', '1', '2', '3', '4', '5', '6', '7', '8', '9'][d as int]
}

/// The decimal digits of `n`, with no leading zero (`"0"` for zero).
pub open spec fn decimal(n: nat) -> Seq<char>
    decreases n,
{
    if n < 10 {
        seq![digit_char(n)]
    } else {
        decimal(n / 10).push(digit_char(n % 10))
    }
}

/// What `format!("{}", x)` gives for a signed integer.
pub open spec fn signed_decimal(x: int) -> Seq<char> {
    if x < 0 {
        seq!['-'] + decimal((-x) as nat)
    } else {
        decimal(x as nat)
    }
}

/// `width` zeros less the length of `s`, then `s`.
pub open spec fn zero_pad(s: Seq<char>, width: nat) -> Seq<char> {
    if s.len() < width {
        Seq::new((width - s.len()) as nat, |_i: int| '0') + s
    } else {
        s
    }
}

/// What `format!("{:02}", x)` gives for a signed integer: the sign first,
/// then zeros up to a total width of two.
pub open spec fn signed_pad2(x: int) -> Seq<char> {
    if x < 0 {
        seq!['-'] + zero_pad(decimal((-x) as nat), 1)
    } else {
        zero_pad(decimal(x as nat), 2)
    }
}

pub proof fn lemma_digits_value_prefix(s: Seq<char>, k: int)
    requires
        0 <= k <= s.len(),
        all_digits(s),
    ensures
        digits_value(s.take(k)) <= digits_value(s),
    decreases s.len(),
{
    if k < s.len() {
        assert(s.drop_last().take(k) =~= s.take(k));
        lemma_digits_value_prefix(s.drop_last(), k);
        assert(is_digit(s[s.len() - 1]));
    } else {
        assert(s.take(k) =~= s);
    }
}

pub proof fn lemma_digit_char_value(d: nat)
    requires
        d < 10,
    ensures
        is_digit(digit_char(d)),
        digit_value(digit_char(d)) == d,
{
}

pub proof fn lemma_decimal_props(n: nat)
    ensures
        decimal(n).len() >= 1,
        all_digits(decimal(n)),
        digits_value(decimal(n)) == n,
        n < 10 <==> decimal(n).len() == 1,
        n >= 10 ==> decimal(n)[0] != '0',
    decreases n,
{
    lemma_digit_char_value(n % 10);
    if n >= 10 {
        lemma_decimal_props(n / 10);
        let d = decimal(n);
        assert(d.drop_last() =~= decimal(n / 10));
        assert(d[0] == decimal(n / 10)[0]);
        assert(d.last() == digit_char(n % 10));
        assert(digits_value(d) == digits_value(d.drop_last()) * 10 + digit_value(d.last()));
        assert((n / 10) * 10 + n % 10 == n);
    } else {
        assert(decimal(n).drop_last() =~= Seq::<char>::empty());
        assert(digits_value(Seq::<char>::empty()) == 0);
        assert(n % 10 == n);
        assert(digit_value(decimal(n).last()) == n);
    }
}

proof fn lemma_zeros_value(k: nat)
    ensures
        digits_value(Seq::new(k, |_i: int| '0')) == 0,
        all_digits(Seq::new(k, |_i: int| '0')),
    decreases k,
{
    if k > 0 {
        lemma_zeros_value((k - 1) as nat);
        assert(Seq::new(k, |_i: int| '0').drop_last() =~= Seq::new((k - 1) as nat, |_i: int| '0'));
        assert(digit_value('0') == 0);
    }
}

proof fn lemma_leading_zeros_value(k: nat, s: Seq<char>)
    ensures
        digits_value(Seq::new(k, |_i: int| '0') + s) == digits_value(s),
    decreases s.len(),
{
    let z = Seq::new(k, |_i: int| '0');
    if s.len() == 0 {
        lemma_zeros_value(k);
        assert(z + s =~= z);
    } else {
        lemma_leading_zeros_value(k, s.drop_last());
        assert((z + s).drop_last() =~= z + s.drop_last());
        assert((z + s).last() == s.last());
    }
}

/// Reading back a zero-padded number: its text is digits only, at least
/// `width` of them, and they denote the number.
pub proof fn lemma_zero_pad_value(n: nat, width: nat)
    ensures
        all_digits(zero_pad(decimal(n), width)),
        digits_value(zero_pad(decimal(n), width)) == n,
        zero_pad(decimal(n), width).len() >= width,
        zero_pad(decimal(n), width).len() == (if decimal(n).len() < width { width } else { decimal(n).len() }),
{
    lemma_decimal_props(n);
    if decimal(n).len() < width {
        let k = (width - decimal(n).len()) as nat;
        lemma_zeros_value(k);
        lemma_leading_zeros_value(k, decimal(n));
        let z = Seq::new(k, |_i: int| '0');
        assert forall|i: int| 0 <= i < (z + decimal(n)).len() implies is_digit(#[trigger] (z + decimal(n))[i]) by {
            if i < k {
                assert(is_digit(z[i]));
            } else {
                assert((z + decimal(n))[i] == decimal(n)[i - k]);
            }
        }
    }
}

/// A number below 100 has at most two decimal digits.
pub proof fn lemma_decimal_len_below_100(n: nat)
    requires
        n < 100,
    ensures
        decimal(n).len() <= 2,
{
    if n >= 10 {
        lemma_decimal_props(n / 10);
    }
}

/// Reading back what was written: every `i32` written in decimal parses
/// to itself.
pub proof fn lemma_parse_i32_of_decimal(x: i32)
    ensures
        spec_parse_i32(signed_decimal(x as int)) == Some(x),
{
    if x < 0 {
        let n = (-(x as int)) as nat;
        lemma_decimal_props(n);
        let s = signed_decimal(x as int);
        assert(s.drop_first() =~= decimal(n));
    } else {
        lemma_decimal_props(x as nat);
        let s = decimal(x as nat);
        assert(is_digit(s[0]));
    }
}

/// Every `u32` written in decimal parses to itself.
pub proof fn lemma_parse_u32_of_decimal(x: u32)
    ensures
        spec_parse_u32(decimal(x as nat)) == Some(x),
{
    lemma_decimal_props(x as nat);
    let s = decimal(x as nat);
    assert(is_digit(s[0]));
}

/// Parses a `u32` as `str::parse::<u32>` does, giving `None` where it fails.
pub fn parse_u32(s: &str) -> (out: Option<u32>)
    ensures
        out == spec_parse_u32(s@),
{
    let cs = chars_of(s);
    parse_u32_chars(&cs)
}

/// `parse_u32` on the characters of a string.
pub fn parse_u32_chars(cs: &Vec<char>) -> (out: Option<u32>)
    ensures
        out == spec_parse_u32(cs@),
{
    let start: usize = if cs.len() > 0 && cs[0] == '+' { 1 } else { 0 };
    let ghost digits = cs@.skip(start as int);
    assert(digits =~= (if cs@.len() > 0 && cs@[0] == '+' { cs@.drop_first() } else { cs@ }));
    if start == cs.len() {
        return None;
    }
    match accumulate_digits(cs, start, 4294967295) {
        Some(v) => {
            Some(v as u32)
        },
        None => None,
    }
}

/// Reads the digits of `cs` from `start` on as one number no larger than
/// `bound`; `None` where a character is not a digit or the value exceeds
/// `bound`.
fn accumulate_digits(cs: &Vec<char>, start: usize, bound: u64) -> (out: Option<u64>)
    requires
        start <= cs.len(),
        bound <= 4294967296,
    ensures
        out matches Some(v) ==> all_digits(cs@.skip(start as int)) && v == digits_value(
            cs@.skip(start as int),
        ) && v <= bound,
        out is None ==> !all_digits(cs@.skip(start as int)) || digits_value(
            cs@.skip(start as int),
        ) > bound,
{
    let ghost full = cs@.skip(start as int);
    let mut acc: u64 = 0;
    let mut i: usize = start;
    while i < cs.len()
        invariant
            start <= i <= cs.len(),
            bound <= 4294967296,
            full == cs@.skip(start as int),
            all_digits(full.take(i - start)),
            acc == digits_value(full.take(i - start)),
            acc <= bound,
        decreases cs.len() - i,
    {
        let c = cs[i];
        if !('0' <= c && c <= '9') {
            assert(full[i - start] == c);
            return None;
        }
        let d = (c as u64) - ('0' as u64);
        let ghost pre = full.take(i - start);
        let ghost post = full.take(i - start + 1);
        assert(post.drop_last() =~= pre);
        assert(post.last() == c);
        assert(digits_value(post) == acc * 10 + d);
        let next = acc * 10 + d;
        if next > bound {
            proof {
                if all_digits(full) {
                    lemma_digits_value_prefix(full, i - start + 1);
                }
            }
            return None;
        }
        acc = next;
        i += 1;
    }
    assert(full.take(i - start) =~= full);
    Some(acc)
}

/// Parses an `i32` as `str::parse::<i32>` does, giving `None` where it fails.
pub fn parse_i32(s: &str) -> (out: Option<i32>)
    ensures
        out == spec_parse_i32(s@),
{
    let cs = chars_of(s);
    let negative = cs.len() > 0 && cs[0] == '-';
    let start: usize = if cs.len() > 0 && (cs[0] == '+' || cs[0] == '-') { 1 } else { 0 };
    let ghost digits = cs@.skip(start as int);
    assert(digits =~= (if cs@.len() > 0 && (cs@[0] == '+' || cs@[0] == '-') {
        cs@.drop_first()
    } else {
        cs@
    }));
    if start == cs.len() {
        return None;
    }
    let bound: u64 = if negative { 2147483648 } else { 2147483647 };
    match accumulate_digits(&cs, start, bound) {
        Some(v) => {
            if negative {
                Some((0i64 - v as i64) as i32)
            } else {
                Some(v as i32)
            }
        },
        None => None,
    }
}

/// The decimal text of `n`, as `n.to_string()` gives it.
pub fn format_u64(n: u64) -> (out: String)
    ensures
        out@ == decimal(n as nat),
    decreases n,
{
    if n < 10 {
        let mut s = String::new();
        push_char(&mut s, digit_to_char(n));
        s
    } else {
        let mut s = format_u64(n / 10);
        push_char(&mut s, digit_to_char(n % 10));
        s
    }
}

fn digit_to_char(d: u64) -> (c: char)
    requires
        d < 10,
    ensures
        c == digit_char(d as nat),
{
    let table: [char; 10] = ['0', '1', '2', '3', '4', '5', '6', '7', '8', '9'];
    assert(table@ =~= seq!['0', '1', '2', '3', '4', '5', '6', '7', '8', '9']);
    table[d as usize]
}

/// The decimal text of `x`, as `x.to_string()` gives it.
pub fn format_i32(x: i32) -> (out: String)
    ensures
        out@ == signed_decimal(x as int),
{
    if x < 0 {
        let magnitude: u64 = (0i64 - x as i64) as u64;
        let digits = format_u64(magnitude);
        let mut s = String::new();
        push_char(&mut s, '-');
        s.append(digits.as_str());
        s
    } else {
        format_u64(x as u64)
    }
}

/// The decimal text of `x`, as `x.to_string()` gives it.
pub fn format_i64(x: i64) -> (out: String)
    ensures
        out@ == signed_decimal(x as int),
{
    if x < 0 {
        let magnitude: u64 = (0i128 - x as i128) as u64;
        let digits = format_u64(magnitude);
        let mut s = String::new();
        push_char(&mut s, '-');
        s.append(digits.as_str());
        s
    } else {
        format_u64(x as u64)
    }
}

/// `format!("{:0width$}", n)` for an unsigned `n`.
pub fn format_u64_padded(n: u64, width: usize) -> (out: String)
    ensures
        out@ == zero_pad(decimal(n as nat), width as nat),
{
    let digits = format_u64(n);
    let len = digits.as_str().unicode_len();
    if len < width {
        let mut s = String::new();
        let mut k: usize = 0;
        while k < width - len
            invariant
                k <= width - len,
                s@ == Seq::new(k as nat, |_i: int| '0'),
            decreases width - len - k,
        {
            push_char(&mut s, '0');
            assert(s@ =~= Seq::new((k + 1) as nat, |_i: int| '0'));
            k += 1;
        }
        s.append(digits.as_str());
        s
    } else {
        digits
    }
}

/// `format!("{:02}", x)` for a signed `x`.
pub fn format_i64_pad2(x: i64) -> (out: String)
    ensures
        out@ == signed_pad2(x as int),
{
    if x < 0 {
        let magnitude: u64 = (0i128 - x as i128) as u64;
        let digits = format_u64_padded(magnitude, 1);
        let mut s = String::new();
        push_char(&mut s, '-');
        s.append(digits.as_str());
        s
    } else {
        format_u64_padded(x as u64, 2)
    }
}

} // verus!
