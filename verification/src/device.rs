//! Vendor and product ids of the controller: parsing the hexadecimal form
//! stored in the configuration, and formatting an id for display.

use vstd::prelude::*;

use crate::text::{ascii_lower, chars_of, digit_char, hex_digits, lemma_pad_push, pad_zeros, push_hex_padded};

verus! {

/// Why a vendor or product id did not parse, as std's `IntErrorKind` tells it.
#[derive(Clone, Copy, Debug, PartialEq, Eq)]
pub enum IdError {
    /// Nothing to parse.
    Empty,
    /// A character that is not a hexadecimal digit, or a lone sign.
    InvalidDigit,
    /// The number is above `i32::MAX`.
    PosOverflow,
    /// The number is below `i32::MIN`.
    NegOverflow,
}

/// The message std's `ParseIntError` shows for each kind of failure.
pub open spec fn id_error_message(e: IdError) -> Seq<char> {
    match e {
        IdError::Empty => "cannot parse integer from empty string"@,
        IdError::InvalidDigit => "invalid digit found in string"@,
        IdError::PosOverflow => "number too large to fit in target type"@,
        IdError::NegOverflow => "number too small to fit in target type"@,
    }
}

impl IdError {
    /// The message shown for this failure.
    pub fn message(&self) -> (m: String)
        ensures
            m@ == id_error_message(*self),
    {
        match self {
            IdError::Empty => String::from_str("cannot parse integer from empty string"),
            IdError::InvalidDigit => String::from_str("invalid digit found in string"),
            IdError::PosOverflow => String::from_str("number too large to fit in target type"),
            IdError::NegOverflow => String::from_str("number too small to fit in target type"),
        }
    }
}

/// The value of a hexadecimal digit character.
pub open spec fn hex_digit_value(c: char) -> Option<int> {
    if '0' <= c && c <= '9' {
        Some(c as int - 48)
    } else if 'a' <= c && c <= 'f' {
        Some(c as int - 87)
    } else if 'A' <= c && c <= 'F' {
        Some(c as int - 55)
    } else {
        None
    }
}

/// Reading the digits `s` from left to right, accumulating the value with the
/// sign given by `neg`: the value, or the first failure met (a non-digit, or a
/// value leaving the range of `i32`).
pub open spec fn hex_scan(s: Seq<char>, neg: bool) -> Result<int, IdError>
    decreases s.len(),
{
    if s.len() == 0 {
        Ok(0)
    } else {
        match hex_scan(s.drop_last(), neg) {
            Err(e) => Err(e),
            Ok(v) => match hex_digit_value(s.last()) {
                None => Err(IdError::InvalidDigit),
                Some(d) => {
                    let w = if neg { v * 16 - d } else { v * 16 + d };
                    if w > i32::MAX {
                        Err(IdError::PosOverflow)
                    } else if w < i32::MIN {
                        Err(IdError::NegOverflow)
                    } else {
                        Ok(w)
                    }
                },
            },
        }
    }
}

/// `i32::from_str_radix(s, 16)`: an optional sign, then one or more hexadecimal
/// digits; a lone sign is an invalid digit.
pub open spec fn parse_hex_i32(s: Seq<char>) -> Result<i32, IdError> {
    let r = if s.len() == 0 {
        Err(IdError::Empty)
    } else if (s[0] == '+' || s[0] == '-') && s.len() == 1 {
        Err(IdError::InvalidDigit)
    } else if s[0] == '+' {
        hex_scan(s.drop_first(), false)
    } else if s[0] == '-' {
        hex_scan(s.drop_first(), true)
    } else {
        hex_scan(s, false)
    };
    match r {
        Ok(v) => Ok(v as i32),
        Err(e) => Err(e),
    }
}

/// `s` without its leading "0x" prefixes (`trim_start_matches("0x")`).
pub open spec fn strip_hex_prefixes(s: Seq<char>) -> Seq<char>
    decreases s.len(),
{
    if s.len() >= 2 && s[0] == '0' && s[1] == 'x' {
        strip_hex_prefixes(s.skip(2))
    } else {
        s
    }
}

/// The id written in `text`: leading "0x" prefixes removed, the rest read as a
/// hexadecimal `i32`.
pub open spec fn spec_parse_device_id(text: Seq<char>) -> Result<i32, IdError> {
    parse_hex_i32(strip_hex_prefixes(text))
}

/// An id as the device list shows it: "0x" and at least four lower-case
/// hexadecimal digits (a negative id shows its 32-bit two's complement).
pub open spec fn spec_format_device_id(v: i32) -> Seq<char> {
    seq!['0', 'x'] + pad_zeros(hex_digits((v as u32) as nat, false), 4)
}

/// The value of a hexadecimal digit character.
fn digit_value(c: char) -> (r: Option<u32>)
    ensures
        r matches Some(d) ==> hex_digit_value(c) == Some(d as int) && d < 16,
        r is None <==> hex_digit_value(c) is None,
{
    if '0' <= c && c <= '9' {
        Some((c as u32) - 48)
    } else if 'a' <= c && c <= 'f' {
        Some((c as u32) - 87)
    } else if 'A' <= c && c <= 'F' {
        Some((c as u32) - 55)
    } else {
        None
    }
}

/// Reads `s[start..]` as digits with the sign given by `neg`.
fn scan_digits(s: &Vec<char>, start: usize, neg: bool) -> (r: Result<i32, IdError>)
    requires
        start <= s@.len(),
    ensures
        r == (match hex_scan(s@.skip(start as int), neg) {
            Ok(v) => Ok(v as i32),
            Err(e) => Err(e),
        }),
        hex_scan(s@.skip(start as int), neg) matches Ok(v) ==> i32::MIN <= v <= i32::MAX,
{
    let n = s.len();
    let mut acc: i64 = 0;
    let mut i: usize = start;
    assert(s@.skip(start as int).take(0) =~= Seq::<char>::empty());
    while i < n
        invariant
            n == s@.len(),
            start <= i <= n,
            i32::MIN <= acc <= i32::MAX,
            hex_scan(s@.skip(start as int).take(i - start), neg) == Ok::<int, IdError>(acc as int),
        decreases n - i,
    {
        let ghost pre = s@.skip(start as int).take(i - start);
        let ghost next = s@.skip(start as int).take(i + 1 - start);
        assert(next.drop_last() =~= pre);
        assert(next.last() == s@[i as int]);
        let d = match digit_value(s[i]) {
            Some(d) => d,
            None => {
                proof {
                    lemma_scan_error_persists(s@.skip(start as int), neg, (i + 1 - start) as int);
                }
                return Err(IdError::InvalidDigit);
            },
        };
        let w: i64 = if neg { acc * 16 - d as i64 } else { acc * 16 + d as i64 };
        if w > i32::MAX as i64 {
            proof {
                lemma_scan_error_persists(s@.skip(start as int), neg, (i + 1 - start) as int);
            }
            return Err(IdError::PosOverflow);
        }
        if w < i32::MIN as i64 {
            proof {
                lemma_scan_error_persists(s@.skip(start as int), neg, (i + 1 - start) as int);
            }
            return Err(IdError::NegOverflow);
        }
        acc = w;
        i += 1;
    }
    assert(s@.skip(start as int).take(n - start) =~= s@.skip(start as int));
    Ok(acc as i32)
}

/// Once reading a prefix fails, reading the whole fails the same way.
proof fn lemma_scan_error_persists(s: Seq<char>, neg: bool, k: int)
    requires
        0 <= k <= s.len(),
        hex_scan(s.take(k), neg) is Err,
    ensures
        hex_scan(s, neg) == hex_scan(s.take(k), neg),
    decreases s.len() - k,
{
    if k < s.len() {
        assert(s.take(k + 1).drop_last() =~= s.take(k));
        lemma_scan_error_persists(s, neg, k + 1);
    } else {
        assert(s.take(k) =~= s);
    }
}

/// Parse an id written in hexadecimal, as `i32::from_str_radix(text, 16)`
/// after `trim_start_matches("0x")`.
pub fn parse_device_id(text: &str) -> (r: Result<i32, IdError>)
    ensures
        r == spec_parse_device_id(text@),
{
    let s = chars_of(text);
    let n = s.len();
    let mut start: usize = 0;
    assert(s@.skip(0) =~= s@);
    while n - start > 1 && s[start] == '0' && s[start + 1] == 'x'
        invariant
            n == s@.len(),
            start <= n,
            strip_hex_prefixes(s@) == strip_hex_prefixes(s@.skip(start as int)),
        decreases n - start,
    {
        assert(s@.skip(start as int).skip(2) =~= s@.skip(start + 2));
        start += 2;
    }
    let ghost rest = s@.skip(start as int);
    assert(strip_hex_prefixes(rest) == rest);
    if start == n {
        return Err(IdError::Empty);
    }
    let first = s[start];
    if (first == '+' || first == '-') && start + 1 == n {
        return Err(IdError::InvalidDigit);
    }
    assert(rest[0] == first);
    if first == '+' {
        assert(rest.drop_first() =~= s@.skip(start + 1));
        scan_digits(&s, start + 1, false)
    } else if first == '-' {
        assert(rest.drop_first() =~= s@.skip(start + 1));
        scan_digits(&s, start + 1, true)
    } else {
        scan_digits(&s, start, false)
    }
}

/// Format an id as the device list shows it: "0x" and four or more lower-case
/// hexadecimal digits.
pub fn format_device_id(v: i32) -> (s: String)
    ensures
        s@ == spec_format_device_id(v),
{
    let mut s = String::from_str("0x");
    proof {
        reveal_strlit("0x");
    }
    assert(s@ =~= seq!['0', 'x']);
    push_hex_padded(&mut s, v as u32, false, 4);
    s
}

proof fn lemma_digit_value(d: nat)
    requires
        d < 16,
    ensures
        hex_digit_value(digit_char(d, false)) == Some(d as int),
        hex_digit_value(digit_char(d, true)) == Some(d as int),
{
}

/// Every character of a padded hexadecimal representation is a digit.
proof fn lemma_padded_digits(n: nat, w: nat)
    ensures
        forall|i: int|
            0 <= i < pad_zeros(hex_digits(n, false), w).len() ==> #[trigger] hex_digit_value(
                pad_zeros(hex_digits(n, false), w)[i],
            ) is Some,
        pad_zeros(hex_digits(n, false), w).len() >= w,
        pad_zeros(hex_digits(n, false), w).len() >= 1,
    decreases n,
{
    let h = hex_digits(n, false);
    let p = pad_zeros(h, w);
    if n < 16 {
        lemma_digit_value(n);
        assert forall|i: int| 0 <= i < p.len() implies #[trigger] hex_digit_value(p[i]) is Some by {
            if i < p.len() - 1 {
                assert(p[i] == '0');
            } else {
                assert(p[i] == digit_char(n, false));
            }
        }
    } else {
        let w2: nat = if w > 0 { (w - 1) as nat } else { 0 };
        lemma_padded_digits(n / 16, w2);
        lemma_pad_push(hex_digits(n / 16, false), digit_char(n % 16, false), w);
        lemma_digit_value(n % 16);
        let q = pad_zeros(hex_digits(n / 16, false), w2);
        assert forall|i: int| 0 <= i < p.len() implies #[trigger] hex_digit_value(p[i]) is Some by {
            if i < q.len() {
                assert(p[i] == q[i]);
            }
        }
    }
}

/// A run of zeros reads as zero.
proof fn lemma_scan_zeros(k: nat)
    ensures
        hex_scan(Seq::new(k, |i: int| '0'), false) == Ok::<int, IdError>(0),
    decreases k,
{
    if k > 0 {
        lemma_scan_zeros((k - 1) as nat);
        assert(Seq::new(k, |i: int| '0').drop_last() =~= Seq::new((k - 1) as nat, |i: int| '0'));
    }
}

/// A padded hexadecimal representation of `n` reads back as `n`.
proof fn lemma_scan_padded(n: nat, w: nat, upper: bool)
    requires
        n <= i32::MAX,
    ensures
        hex_scan(pad_zeros(hex_digits(n, upper), w), false) == Ok::<int, IdError>(n as int),
    decreases n,
{
    let p = pad_zeros(hex_digits(n, upper), w);
    if n < 16 {
        lemma_digit_value(n);
        let z: nat = if w > 1 { (w - 1) as nat } else { 0 };
        lemma_scan_zeros(z);
        assert(p.drop_last() =~= Seq::new(z, |i: int| '0'));
    } else {
        let w2: nat = if w > 0 { (w - 1) as nat } else { 0 };
        lemma_scan_padded(n / 16, w2, upper);
        lemma_pad_push(hex_digits(n / 16, upper), digit_char(n % 16, upper), w);
        lemma_digit_value(n % 16);
        assert(p.drop_last() =~= pad_zeros(hex_digits(n / 16, upper), w2));
    }
}

/// An id shown in the device list is read back to the same id by the
/// configuration's parser, for every id that is not negative.
pub proof fn lemma_device_id_round_trip(v: i32)
    requires
        v >= 0,
    ensures
        spec_parse_device_id(spec_format_device_id(v)) == Ok::<i32, IdError>(v),
{
    let n = (v as u32) as nat;
    assert(n == v);
    let d = pad_zeros(hex_digits(n, false), 4);
    let s = spec_format_device_id(v);
    lemma_padded_digits(n, 4);
    assert(s.skip(2) =~= d);
    assert(hex_digit_value(d[1]) is Some);
    assert(strip_hex_prefixes(d) == d);
    assert(strip_hex_prefixes(s) == d);
    assert(hex_digit_value(d[0]) is Some);
    lemma_scan_padded(n, 4, false);
}

/// Every character of a padded hexadecimal representation is a digit (either case).
proof fn lemma_padded_digits_any_case(n: nat, w: nat, upper: bool)
    ensures
        forall|i: int|
            0 <= i < pad_zeros(hex_digits(n, upper), w).len() ==> #[trigger] hex_digit_value(
                pad_zeros(hex_digits(n, upper), w)[i],
            ) is Some,
        pad_zeros(hex_digits(n, upper), w).len() >= 1,
    decreases n,
{
    let h = hex_digits(n, upper);
    let p = pad_zeros(h, w);
    if n < 16 {
        lemma_digit_value(n);
        assert forall|i: int| 0 <= i < p.len() implies #[trigger] hex_digit_value(p[i]) is Some by {
            if i < p.len() - 1 {
                assert(p[i] == '0');
            } else {
                assert(p[i] == digit_char(n, upper));
            }
        }
    } else {
        let w2: nat = if w > 0 { (w - 1) as nat } else { 0 };
        lemma_padded_digits_any_case(n / 16, w2, upper);
        lemma_pad_push(hex_digits(n / 16, upper), digit_char(n % 16, upper), w);
        lemma_digit_value(n % 16);
        let q = pad_zeros(hex_digits(n / 16, upper), w2);
        assert forall|i: int| 0 <= i < p.len() implies #[trigger] hex_digit_value(p[i]) is Some by {
            if i < q.len() {
                assert(p[i] == q[i]);
            }
        }
    }
}

/// A number written in hexadecimal, with upper-case or lower-case digits and
/// any number of leading zeros, is read back as that number by
/// `i32::from_str_radix(_, 16)`, for every number `i32` holds.
pub proof fn lemma_hex_reads_back(n: nat, w: nat, upper: bool)
    requires
        n <= i32::MAX,
    ensures
        parse_hex_i32(pad_zeros(hex_digits(n, upper), w)) == Ok::<i32, IdError>(n as i32),
{
    lemma_padded_digits_any_case(n, w, upper);
    lemma_scan_padded(n, w, upper);
    let p = pad_zeros(hex_digits(n, upper), w);
    assert(hex_digit_value(p[0]) is Some);
}

/// A character and its ASCII lower-case form have the same digit value.
proof fn lemma_digit_value_ignores_case(c: char)
    ensures
        hex_digit_value(ascii_lower(c)) == hex_digit_value(c),
{
}

/// Reading digits does not depend on their ASCII case.
proof fn lemma_scan_ignores_case(s: Seq<char>, neg: bool)
    ensures
        hex_scan(s.map_values(|c: char| ascii_lower(c)), neg) == hex_scan(s, neg),
    decreases s.len(),
{
    if s.len() > 0 {
        let l = s.map_values(|c: char| ascii_lower(c));
        assert(l.drop_last() =~= s.drop_last().map_values(|c: char| ascii_lower(c)));
        lemma_scan_ignores_case(s.drop_last(), neg);
        lemma_digit_value_ignores_case(s.last());
    }
}

/// Hexadecimal digits are read regardless of ASCII case: a text and its ASCII
/// lower-cased form parse to the same result ("0F0D" and "0f0d" both give
/// 0x0f0d).
pub proof fn lemma_parse_ignores_case(s: Seq<char>)
    ensures
        parse_hex_i32(s.map_values(|c: char| ascii_lower(c))) == parse_hex_i32(s),
{
    let l = s.map_values(|c: char| ascii_lower(c));
    if s.len() > 0 {
        assert(l[0] == ascii_lower(s[0]));
        assert(l.drop_first() =~= s.drop_first().map_values(|c: char| ascii_lower(c)));
        lemma_scan_ignores_case(s, false);
        lemma_scan_ignores_case(s.drop_first(), false);
        lemma_scan_ignores_case(s.drop_first(), true);
    }
}

} // verus!
