//! Character-level helpers on strings: comparison, ASCII case folding,
//! lexicographic order and number formatting.

use vstd::prelude::*;

verus! {

/// ASCII lower-casing of one character; every other character is kept.
pub open spec fn ascii_lower(c: char) -> char {
    if 'A' <= c && c <= 'Z' {
        ((c as u32) + 32) as char
    } else {
        c
    }
}

/// Two strings are equal up to ASCII case.
///
/// `str::eq_ignore_ascii_case` compares the UTF-8 bytes after ASCII lower-casing;
/// lower-casing only rewrites ASCII bytes, and UTF-8 is injective, so this is the
/// same relation stated on characters.
pub open spec fn ascii_ci_eq(a: Seq<char>, b: Seq<char>) -> bool {
    &&& a.len() == b.len()
    &&& forall|i: int| 0 <= i < a.len() ==> #[trigger] ascii_lower(a[i]) == ascii_lower(b[i])
}

/// Lexicographic order on character sequences (by code point), which is the order
/// `String`'s `Ord` gives, since UTF-8 preserves the order of code points.
pub open spec fn lex_le(a: Seq<char>, b: Seq<char>) -> bool
    decreases a.len(),
{
    if a.len() == 0 {
        true
    } else if b.len() == 0 {
        false
    } else if a[0] < b[0] {
        true
    } else if a[0] > b[0] {
        false
    } else {
        lex_le(a.drop_first(), b.drop_first())
    }
}

/// `lex_le` is reflexive.
pub proof fn lemma_lex_le_refl(a: Seq<char>)
    ensures
        lex_le(a, a),
    decreases a.len(),
{
    if a.len() > 0 {
        lemma_lex_le_refl(a.drop_first());
    }
}

/// `lex_le` is total, and equality is the only case where it holds both ways.
pub proof fn lemma_lex_le_total(a: Seq<char>, b: Seq<char>)
    ensures
        lex_le(a, b) || lex_le(b, a),
        lex_le(a, b) && lex_le(b, a) ==> a == b,
    decreases a.len(),
{
    if a.len() > 0 && b.len() > 0 && a[0] == b[0] {
        lemma_lex_le_total(a.drop_first(), b.drop_first());
        if lex_le(a, b) && lex_le(b, a) {
            assert(a =~= seq![a[0]] + a.drop_first());
            assert(b =~= seq![b[0]] + b.drop_first());
        }
    } else if a.len() == 0 && b.len() == 0 {
        assert(a =~= b);
    }
}

/// `lex_le` is transitive.
pub proof fn lemma_lex_le_trans(a: Seq<char>, b: Seq<char>, c: Seq<char>)
    requires
        lex_le(a, b),
        lex_le(b, c),
    ensures
        lex_le(a, c),
    decreases a.len(),
{
    if a.len() > 0 && b.len() > 0 && c.len() > 0 && a[0] == b[0] && b[0] == c[0] {
        lemma_lex_le_trans(a.drop_first(), b.drop_first(), c.drop_first());
    }
}

/// The digit character for `d` (below 16) in base 16, upper or lower case.
pub open spec fn digit_char(d: nat, upper: bool) -> char {
    if d < 10 {
        (d + 48) as char
    } else if upper {
        (d + 55) as char
    } else {
        (d + 87) as char
    }
}

/// Decimal representation of `n`, without leading zeros.
pub open spec fn decimal(n: nat) -> Seq<char>
    decreases n,
{
    if n < 10 {
        seq![digit_char(n, true)]
    } else {
        decimal(n / 10).push(digit_char(n % 10, true))
    }
}

/// Hexadecimal representation of `n`, without leading zeros.
pub open spec fn hex_digits(n: nat, upper: bool) -> Seq<char>
    decreases n,
{
    if n < 16 {
        seq![digit_char(n, upper)]
    } else {
        hex_digits(n / 16, upper).push(digit_char(n % 16, upper))
    }
}

/// `s` padded on the left with `'0'` to at least `width` characters.
pub open spec fn pad_zeros(s: Seq<char>, width: nat) -> Seq<char> {
    if s.len() < width {
        Seq::new((width - s.len()) as nat, |i: int| '0') + s
    } else {
        s
    }
}

/// Appends one character to a string.
///
/// Wraps std's `String::push`, which appends the given `char` to the end of the
/// string; the contract states exactly that.
#[verifier::external_body]
pub(crate) fn push_char(s: &mut String, c: char)
    ensures
        final(s)@ == old(s)@.push(c),
{
    s.push(c)
}

/// The characters of a string slice.
pub fn chars_of(s: &str) -> (v: Vec<char>)
    ensures
        v@ == s@,
{
    let n = s.unicode_len();
    let mut v: Vec<char> = Vec::new();
    let mut i: usize = 0;
    while i < n
        invariant
            n == s@.len(),
            i <= n,
            v@ == s@.subrange(0, i as int),
        decreases n - i,
    {
        v.push(s.get_char(i));
        i += 1;
    }
    v
}

/// Whether two character sequences are equal.
pub fn chars_eq(a: &Vec<char>, b: &Vec<char>) -> (r: bool)
    ensures
        r == (a@ == b@),
{
    if a.len() != b.len() {
        return false;
    }
    let n = a.len();
    let mut i: usize = 0;
    while i < n
        invariant
            n == a.len(),
            n == b.len(),
            i <= n,
            forall|k: int| 0 <= k < i ==> a@[k] == b@[k],
        decreases n - i,
    {
        if a[i] != b[i] {
            return false;
        }
        i += 1;
    }
    assert(a@ =~= b@);
    true
}

/// Whether two string slices hold the same characters.
pub fn str_eq(a: &str, b: &str) -> (r: bool)
    ensures
        r == (a@ == b@),
{
    let va = chars_of(a);
    let vb = chars_of(b);
    chars_eq(&va, &vb)
}

/// ASCII lower-casing of one character.
pub fn to_ascii_lower(c: char) -> (r: char)
    ensures
        r == ascii_lower(c),
{
    if 'A' <= c && c <= 'Z' {
        ((c as u8) + 32) as char
    } else {
        c
    }
}

/// Equality up to ASCII case, as `str::eq_ignore_ascii_case` decides it.
pub fn eq_ignore_ascii_case(a: &str, b: &str) -> (r: bool)
    ensures
        r == ascii_ci_eq(a@, b@),
{
    let va = chars_of(a);
    let vb = chars_of(b);
    if va.len() != vb.len() {
        return false;
    }
    let n = va.len();
    let mut i: usize = 0;
    while i < n
        invariant
            n == va.len(),
            n == vb.len(),
            va@ == a@,
            vb@ == b@,
            i <= n,
            forall|k: int| 0 <= k < i ==> #[trigger] ascii_lower(va@[k]) == ascii_lower(vb@[k]),
        decreases n - i,
    {
        if to_ascii_lower(va[i]) != to_ascii_lower(vb[i]) {
            assert(ascii_lower(va@[i as int]) != ascii_lower(vb@[i as int]));
            return false;
        }
        i += 1;
    }
    true
}

/// Whether `a` comes before `b` or equals it, in lexicographic order.
pub fn chars_lex_le(a: &Vec<char>, b: &Vec<char>) -> (r: bool)
    ensures
        r == lex_le(a@, b@),
{
    let mut i: usize = 0;
    assert(a@.skip(0) =~= a@);
    assert(b@.skip(0) =~= b@);
    while i < a.len() && i < b.len() && a[i] == b[i]
        invariant
            i <= a.len(),
            i <= b.len(),
            lex_le(a@, b@) == lex_le(a@.skip(i as int), b@.skip(i as int)),
        decreases a.len() - i,
    {
        assert(a@.skip(i as int).drop_first() =~= a@.skip(i + 1));
        assert(b@.skip(i as int).drop_first() =~= b@.skip(i + 1));
        i += 1;
    }
    if i == a.len() {
        true
    } else if i == b.len() {
        false
    } else {
        assert(a@.skip(i as int)[0] == a@[i as int]);
        assert(b@.skip(i as int)[0] == b@[i as int]);
        a[i] < b[i]
    }
}

/// The digit character for `d` in base 16.
pub fn digit_to_char(d: u32, upper: bool) -> (c: char)
    requires
        d < 16,
    ensures
        c == digit_char(d as nat, upper),
{
    if d < 10 {
        ((d + 48) as u8) as char
    } else if upper {
        ((d + 55) as u8) as char
    } else {
        ((d + 87) as u8) as char
    }
}

/// Appends the decimal representation of `n`.
pub fn push_decimal(s: &mut String, n: u64)
    ensures
        final(s)@ == old(s)@ + decimal(n as nat),
    decreases n,
{
    if n >= 10 {
        push_decimal(s, n / 10);
    }
    let d = digit_to_char((n % 10) as u32, true);
    push_char(s, d);
    proof {
        if n >= 10 {
            assert(decimal(n as nat) == decimal((n / 10) as nat).push(digit_char((n % 10) as nat, true)));
        }
    }
    assert(final(s)@ =~= old(s)@ + decimal(n as nat));
}

/// Padding a sequence that ends with `d` is padding the rest to one digit less.
pub proof fn lemma_pad_push(h: Seq<char>, d: char, width: nat)
    ensures
        pad_zeros(h, if width > 0 { (width - 1) as nat } else { 0 }).push(d) == pad_zeros(h.push(d), width),
{
    let w: nat = if width > 0 { (width - 1) as nat } else { 0 };
    assert(pad_zeros(h, w).push(d) =~= pad_zeros(h.push(d), width));
}

/// Appends `n` in hexadecimal, padded on the left with zeros to `width` digits.
pub fn push_hex_padded(s: &mut String, n: u32, upper: bool, width: usize)
    ensures
        final(s)@ == old(s)@ + pad_zeros(hex_digits(n as nat, upper), width as nat),
    decreases n,
{
    let ghost start = s@;
    if n < 16 {
        let mut k: usize = 1;
        while k < width
            invariant
                1 <= k,
                k <= width || k == 1,
                s@ == start + Seq::new((k - 1) as nat, |i: int| '0'),
            decreases width - k,
        {
            push_char(s, '0');
            assert(s@ =~= start + Seq::new(k as nat, |i: int| '0'));
            k += 1;
        }
        let d = digit_to_char(n, upper);
        push_char(s, d);
        assert(hex_digits(n as nat, upper) == seq![digit_char(n as nat, upper)]);
        let ghost zeros = Seq::new((k - 1) as nat, |i: int| '0');
        assert(s@ =~= start + (zeros + seq![d]));
        if width > 1 {
            assert(k == width);
            assert(pad_zeros(seq![d], width as nat) =~= zeros + seq![d]);
        } else {
            assert(zeros + seq![d] =~= seq![d]);
        }
        assert(s@ =~= start + pad_zeros(hex_digits(n as nat, upper), width as nat));
    } else {
        let w = if width > 0 { width - 1 } else { 0 };
        push_hex_padded(s, n / 16, upper, w);
        let d = digit_to_char(n % 16, upper);
        push_char(s, d);
        let ghost h = hex_digits((n / 16) as nat, upper);
        assert(hex_digits(n as nat, upper) == h.push(digit_char((n % 16) as nat, upper)));
        proof {
            lemma_pad_push(h, d, width as nat);
        }
        assert(s@ =~= start + pad_zeros(hex_digits(n as nat, upper), width as nat));
    }
}

} // verus!
