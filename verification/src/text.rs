//! Character-level helpers shared by the key renderers and parsers.

use vstd::prelude::*;

verus! {

/// `String::push` appends one character.
pub assume_specification[ std::string::String::push ](s: &mut String, ch: char)
    ensures
        final(s)@ == old(s)@.push(ch),
;

/// The characters of `s`, in order.
pub fn chars_of(s: &str) -> (v: Vec<char>)
    ensures
        v@ == s@,
{
    let n = s.unicode_len();
    let mut v: Vec<char> = Vec::new();
    let mut i: usize = 0;
    while i < n
        invariant
            n == s@.len(),
            i <= n,
            v@ == s@.subrange(0, i as int),
        decreases n - i,
    {
        v.push(s.get_char(i));
        i = i + 1;
    }
    v
}

/// A `String` holding exactly the characters of `v`.
pub fn string_of(v: &[char]) -> (s: String)
    ensures
        s@ == v@,
{
    let mut s = String::new();
    let mut i: usize = 0;
    while i < v.len()
        invariant
            i <= v@.len(),
            s@ == v@.subrange(0, i as int),
        decreases v@.len() - i,
    {
        s.push(v[i]);
        i = i + 1;
    }
    s
}

/// Whether two character slices hold the same characters.
pub fn chars_eq(a: &[char], b: &[char]) -> (r: bool)
    ensures
        r == (a@ == b@),
{
    if a.len() != b.len() {
        return false;
    }
    let mut i: usize = 0;
    while i < a.len()
        invariant
            a@.len() == b@.len(),
            i <= a@.len(),
            forall|j: int| 0 <= j < i ==> a@[j] == b@[j],
        decreases a@.len() - i,
    {
        if a[i] != b[i] {
            return false;
        }
        i = i + 1;
    }
    assert(a@ =~= b@);
    true
}

/// Whether two strings hold the same characters.
pub fn str_eq(a: &str, b: &str) -> (r: bool)
    ensures
        r == (a@ == b@),
{
    let va = chars_of(a);
    let vb = chars_of(b);
    chars_eq(va.as_slice(), vb.as_slice())
}

/// Whether `s` begins with `p`.
pub open spec fn starts_with(s: Seq<char>, p: Seq<char>) -> bool {
    p.len() <= s.len() && s.subrange(0, p.len() as int) == p
}

/// Whether `s` begins with the characters of `p`.
pub fn has_prefix(s: &[char], p: &[char]) -> (r: bool)
    ensures
        r == starts_with(s@, p@),
{
    if p.len() > s.len() {
        return false;
    }
    let mut i: usize = 0;
    while i < p.len()
        invariant
            p@.len() <= s@.len(),
            i <= p@.len(),
            forall|j: int| 0 <= j < i ==> s@[j] == p@[j],
        decreases p@.len() - i,
    {
        if s[i] != p[i] {
            assert(s@.subrange(0, p@.len() as int)[i as int] != p@[i as int]);
            return false;
        }
        i = i + 1;
    }
    assert(s@.subrange(0, p@.len() as int) =~= p@);
    true
}

/// The decimal digit character for `d` (`0 <= d < 10`).
pub open spec fn digit_char(d: int) -> char {
    (d + 48) as char
}

/// Whether `c` is an ASCII decimal digit.
pub open spec fn is_digit(c: char) -> bool {
    48 <= (c as u32) <= 57
}

/// The low `w` decimal digits of `n`, most significant first, zero-padded.
pub open spec fn fixed_decimal(n: nat, w: nat) -> Seq<char>
    decreases w,
{
    if w == 0 {
        Seq::empty()
    } else {
        fixed_decimal(n / 10, (w - 1) as nat).push(digit_char((n % 10) as int))
    }
}

/// The value of a string of decimal digits.
pub open spec fn decimal_value(d: Seq<char>) -> nat
    decreases d.len(),
{
    if d.len() == 0 {
        0
    } else {
        decimal_value(d.drop_last()) * 10 + ((d.last() as u32) - 48) as nat
    }
}

/// Whether every character of `d` is a decimal digit.
pub open spec fn all_digits(d: Seq<char>) -> bool {
    forall|i: int| 0 <= i < d.len() ==> is_digit(#[trigger] d[i])
}

/// `u64::from_str`: an optional `+`, then at least one decimal digit, with a
/// value that fits.
pub open spec fn parse_u64_of(s: Seq<char>) -> Option<u64> {
    let d = if s.len() > 0 && s[0] == '+' { s.drop_first() } else { s };
    if d.len() > 0 && all_digits(d) && decimal_value(d) <= u64::MAX {
        Some(decimal_value(d) as u64)
    } else {
        None
    }
}

/// `i64::from_str`: an optional `+` or `-`, then at least one decimal digit,
/// with a value that fits.
pub open spec fn parse_i64_of(s: Seq<char>) -> Option<i64> {
    let neg = s.len() > 0 && s[0] == '-';
    let d = if s.len() > 0 && (s[0] == '+' || s[0] == '-') { s.drop_first() } else { s };
    if d.len() > 0 && all_digits(d) {
        if neg && decimal_value(d) <= 0x8000_0000_0000_0000 {
            Some((0 - decimal_value(d)) as i64)
        } else if !neg && decimal_value(d) <= i64::MAX {
            Some(decimal_value(d) as i64)
        } else {
            None
        }
    } else {
        None
    }
}

/// The `w` low decimal digits of `n`.
pub fn fixed_decimal_chars(n: u64, w: usize) -> (v: Vec<char>)
    ensures
        v@ == fixed_decimal(n as nat, w as nat),
    decreases w,
{
    if w == 0 {
        Vec::new()
    } else {
        let mut v = fixed_decimal_chars(n / 10, w - 1);
        let d = (n % 10) as u8;
        v.push((48u8 + d) as char);
        v
    }
}

/// The value of the decimal digits `d`, or `None` when it exceeds `bound`.
fn bounded_decimal(d: &[char], bound: u64) -> (r: Option<u64>)
    requires
        all_digits(d@),
        bound >= 9,
    ensures
        r matches Some(v) ==> v == decimal_value(d@) && decimal_value(d@) <= bound,
        r is None ==> decimal_value(d@) > bound,
{
    let mut acc: u64 = 0;
    let mut i: usize = 0;
    while i < d.len()
        invariant
            all_digits(d@),
            bound >= 9,
            i <= d@.len(),
            acc == decimal_value(d@.subrange(0, i as int)),
            acc <= bound,
        decreases d@.len() - i,
    {
        proof {
            assert(d@.subrange(0, i as int + 1).drop_last() =~= d@.subrange(0, i as int));
            assert(is_digit(d@[i as int]));
        }
        let digit = (d[i] as u32 - 48) as u64;
        if acc > (bound - digit) / 10 {
            proof {
                let pre = decimal_value(d@.subrange(0, i as int));
                assert(pre * 10 + digit > bound) by (nonlinear_arith)
                    requires
                        pre > (bound - digit) / 10,
                        digit <= 9,
                        digit <= bound,
                ;
                lemma_decimal_value_grows(d@, i as int + 1);
            }
            return None;
        }
        proof {
            let pre = decimal_value(d@.subrange(0, i as int));
            assert(pre * 10 + digit <= bound) by (nonlinear_arith)
                requires
                    pre <= (bound - digit) / 10,
                    digit <= bound,
            ;
        }
        acc = acc * 10 + digit;
        i = i + 1;
    }
    assert(d@.subrange(0, i as int) =~= d@);
    Some(acc)
}

/// A longer digit string never has a smaller value than its prefix.
pub proof fn lemma_decimal_value_grows(d: Seq<char>, i: int)
    requires
        0 <= i <= d.len(),
    ensures
        decimal_value(d) >= decimal_value(d.subrange(0, i)),
    decreases d.len() - i,
{
    if i < d.len() {
        lemma_decimal_value_grows(d, i + 1);
        assert(d.subrange(0, i + 1).drop_last() =~= d.subrange(0, i));
    } else {
        assert(d.subrange(0, i) =~= d);
    }
}

fn all_digit_chars(d: &[char]) -> (r: bool)
    ensures
        r == all_digits(d@),
{
    let mut i: usize = 0;
    while i < d.len()
        invariant
            i <= d@.len(),
            forall|j: int| 0 <= j < i ==> is_digit(#[trigger] d@[j]),
        decreases d@.len() - i,
    {
        let c = d[i] as u32;
        if c < 48 || c > 57 {
            assert(!is_digit(d@[i as int]));
            return false;
        }
        i = i + 1;
    }
    true
}

/// `u64::from_str` over characters.
pub fn parse_u64(s: &[char]) -> (r: Option<u64>)
    ensures
        r == parse_u64_of(s@),
{
    let start: usize = if s.len() > 0 && s[0] == '+' { 1 } else { 0 };
    let d = slice_from(s, start);
    assert(d@ =~= (if s@.len() > 0 && s@[0] == '+' { s@.drop_first() } else { s@ }));
    if d.len() == 0 || !all_digit_chars(d.as_slice()) {
        return None;
    }
    bounded_decimal(d.as_slice(), u64::MAX)
}

/// `i64::from_str` over characters.
pub fn parse_i64(s: &[char]) -> (r: Option<i64>)
    ensures
        r == parse_i64_of(s@),
{
    let neg = s.len() > 0 && s[0] == '-';
    let start: usize = if s.len() > 0 && (s[0] == '+' || s[0] == '-') { 1 } else { 0 };
    let d = slice_from(s, start);
    assert(d@ =~= (if s@.len() > 0 && (s@[0] == '+' || s@[0] == '-') { s@.drop_first() } else { s@ }));
    if d.len() == 0 || !all_digit_chars(d.as_slice()) {
        return None;
    }
    if neg {
        match bounded_decimal(d.as_slice(), 0x8000_0000_0000_0000u64) {
            Some(v) => {
                if v == 0x8000_0000_0000_0000u64 {
                    Some(i64::MIN)
                } else {
                    Some(0 - (v as i64))
                }
            },
            None => None,
        }
    } else {
        match bounded_decimal(d.as_slice(), i64::MAX as u64) {
            Some(v) => Some(v as i64),
            None => None,
        }
    }
}

/// The characters of `s` from position `start` on.
pub fn slice_from(s: &[char], start: usize) -> (v: Vec<char>)
    requires
        start <= s@.len(),
    ensures
        v@ == s@.subrange(start as int, s@.len() as int),
{
    let mut v: Vec<char> = Vec::new();
    let mut i: usize = start;
    while i < s.len()
        invariant
            start <= i <= s@.len(),
            v@ == s@.subrange(start as int, i as int),
        decreases s@.len() - i,
    {
        v.push(s[i]);
        i = i + 1;
    }
    v
}

/// The characters of `s` before position `end`.
pub fn slice_to(s: &[char], end: usize) -> (v: Vec<char>)
    requires
        end <= s@.len(),
    ensures
        v@ == s@.subrange(0, end as int),
{
    let mut v: Vec<char> = Vec::new();
    let mut i: usize = 0;
    while i < end
        invariant
            i <= end <= s@.len(),
            v@ == s@.subrange(0, i as int),
        decreases end - i,
    {
        v.push(s[i]);
        i = i + 1;
    }
    v
}

/// Whether `s` ends with `p`.
pub open spec fn ends_with(s: Seq<char>, p: Seq<char>) -> bool {
    p.len() <= s.len() && s.subrange(s.len() - p.len(), s.len() as int) == p
}

/// Whether `s` ends with the characters of `p`.
pub fn has_suffix(s: &[char], p: &[char]) -> (r: bool)
    ensures
        r == ends_with(s@, p@),
{
    if p.len() > s.len() {
        return false;
    }
    let off = s.len() - p.len();
    let mut i: usize = 0;
    while i < p.len()
        invariant
            off + p@.len() == s@.len(),
            s@.len() == s.len(),
            i <= p@.len(),
            forall|j: int| 0 <= j < i ==> s@[off + j] == p@[j],
        decreases p@.len() - i,
    {
        if s[off + i] != p[i] {
            assert(s@.subrange(off as int, s@.len() as int)[i as int] != p@[i as int]);
            return false;
        }
        i = i + 1;
    }
    assert(s@.subrange(off as int, s@.len() as int) =~= p@);
    true
}

/// `a` followed by `b`.
pub fn append_chars(a: &mut Vec<char>, b: &[char])
    ensures
        final(a)@ == old(a)@ + b@,
{
    let mut i: usize = 0;
    while i < b.len()
        invariant
            i <= b@.len(),
            a@ == old(a)@ + b@.subrange(0, i as int),
        decreases b@.len() - i,
    {
        a.push(b[i]);
        i = i + 1;
    }
    assert(b@.subrange(0, b@.len() as int) =~= b@);
}

/// ASCII lower-casing of one character; other characters are unchanged.
pub open spec fn ascii_lower(c: char) -> char {
    if 65 <= (c as u32) <= 90 {
        ((c as u32) + 32) as char
    } else {
        c
    }
}

/// `str::eq_ignore_ascii_case`: equal lengths and equal characters after ASCII
/// lower-casing.
pub open spec fn eq_ignore_ascii_case(a: Seq<char>, b: Seq<char>) -> bool {
    a.len() == b.len() && forall|i: int| 0 <= i < a.len() ==> ascii_lower(a[i]) == ascii_lower(b[i])
}

fn lower_char(c: char) -> (r: char)
    ensures
        r == ascii_lower(c),
{
    let u = c as u32;
    if 65 <= u && u <= 90 {
        ((u + 32) as u8) as char
    } else {
        c
    }
}

pub fn str_eq_ignore_ascii_case(a: &str, b: &str) -> (r: bool)
    ensures
        r == eq_ignore_ascii_case(a@, b@),
{
    let va = chars_of(a);
    let vb = chars_of(b);
    if va.len() != vb.len() {
        return false;
    }
    let mut i: usize = 0;
    while i < va.len()
        invariant
            va@ == a@,
            vb@ == b@,
            va@.len() == vb@.len(),
            i <= va@.len(),
            forall|j: int| 0 <= j < i ==> ascii_lower(a@[j]) == ascii_lower(b@[j]),
        decreases va@.len() - i,
    {
        if lower_char(va[i]) != lower_char(vb[i]) {
            return false;
        }
        i = i + 1;
    }
    true
}

/// Distinct characters have distinct code points.
pub proof fn lemma_char_code_injective(c: char, d: char)
    ensures
        (c as u32) == (d as u32) <==> c == d,
{
}

/// Lexicographic order on character sequences, by code point: the order
/// `String`'s `<` gives (UTF-8 byte order agrees with code point order).
pub open spec fn lex_lt(a: Seq<char>, b: Seq<char>) -> bool
    decreases a.len(),
{
    if a.len() == 0 {
        b.len() > 0
    } else if b.len() == 0 {
        false
    } else if (a[0] as u32) < (b[0] as u32) {
        true
    } else if a[0] == b[0] {
        lex_lt(a.drop_first(), b.drop_first())
    } else {
        false
    }
}

pub proof fn lemma_lex_irreflexive(a: Seq<char>)
    ensures
        !lex_lt(a, a),
    decreases a.len(),
{
    if a.len() > 0 {
        lemma_lex_irreflexive(a.drop_first());
    }
}

pub proof fn lemma_lex_transitive(a: Seq<char>, b: Seq<char>, c: Seq<char>)
    requires
        lex_lt(a, b),
        lex_lt(b, c),
    ensures
        lex_lt(a, c),
    decreases a.len(),
{
    if a.len() > 0 && b.len() > 0 && c.len() > 0 && a[0] == b[0] && b[0] == c[0] {
        lemma_lex_transitive(a.drop_first(), b.drop_first(), c.drop_first());
    }
}

pub proof fn lemma_lex_total(a: Seq<char>, b: Seq<char>)
    ensures
        lex_lt(a, b) || a == b || lex_lt(b, a),
    decreases a.len(),
{
    if a.len() > 0 && b.len() > 0 && a[0] == b[0] {
        lemma_lex_total(a.drop_first(), b.drop_first());
        if a.drop_first() == b.drop_first() {
            assert(a =~= seq![a[0]] + a.drop_first());
            assert(b =~= seq![b[0]] + b.drop_first());
        }
    } else if a.len() == 0 && b.len() == 0 {
        assert(a =~= b);
    } else if a.len() > 0 && b.len() > 0 {
        lemma_char_code_injective(a[0], b[0]);
    }
}

pub proof fn lemma_lex_asymmetric(a: Seq<char>, b: Seq<char>)
    requires
        lex_lt(a, b),
    ensures
        !lex_lt(b, a),
{
    if lex_lt(b, a) {
        lemma_lex_transitive(a, b, a);
        lemma_lex_irreflexive(a);
    }
}

/// The outcome of comparing two keys.
#[derive(Debug, Clone, Copy, PartialEq, Eq, Structural)]
pub enum KeyOrder {
    Less,
    Equal,
    Greater,
}

/// Compare two character sequences lexicographically.
pub fn lex_compare(a: &[char], b: &[char]) -> (r: KeyOrder)
    ensures
        r == KeyOrder::Less <==> lex_lt(a@, b@),
        r == KeyOrder::Equal <==> a@ == b@,
        r == KeyOrder::Greater <==> lex_lt(b@, a@),
{
    let mut i: usize = 0;
    assert(a@.subrange(0, a@.len() as int) =~= a@);
    assert(b@.subrange(0, b@.len() as int) =~= b@);
    while i < a.len() && i < b.len()
        invariant
            i <= a@.len(),
            i <= b@.len(),
            a@.subrange(0, i as int) == b@.subrange(0, i as int),
            lex_lt(a@, b@) == lex_lt(a@.subrange(i as int, a@.len() as int), b@.subrange(i as int, b@.len() as int)),
            lex_lt(b@, a@) == lex_lt(b@.subrange(i as int, b@.len() as int), a@.subrange(i as int, a@.len() as int)),
            (a@ == b@) == (a@.subrange(i as int, a@.len() as int) == b@.subrange(i as int, b@.len() as int)),
        decreases a@.len() - i,
    {
        let ghost ra = a@.subrange(i as int, a@.len() as int);
        let ghost rb = b@.subrange(i as int, b@.len() as int);
        proof {
            assert(ra.drop_first() =~= a@.subrange(i as int + 1, a@.len() as int));
            assert(rb.drop_first() =~= b@.subrange(i as int + 1, b@.len() as int));
            assert(ra[0] == a@[i as int]);
            assert(rb[0] == b@[i as int]);
        }
        if (a[i] as u32) < (b[i] as u32) {
            proof {
                lemma_lex_asymmetric(ra, rb);
            }
            return KeyOrder::Less;
        }
        if (b[i] as u32) < (a[i] as u32) {
            proof {
                lemma_lex_asymmetric(rb, ra);
            }
            return KeyOrder::Greater;
        }
        proof {
            lemma_char_code_injective(a@[i as int], b@[i as int]);
            assert(a@[i as int] == b@[i as int]);
            assert(a@.subrange(0, i as int + 1) =~= a@.subrange(0, i as int).push(a@[i as int]));
            assert(b@.subrange(0, i as int + 1) =~= b@.subrange(0, i as int).push(b@[i as int]));
            assert(ra =~= seq![ra[0]] + ra.drop_first());
            assert(rb =~= seq![rb[0]] + rb.drop_first());
        }
        i = i + 1;
    }
    proof {
        let ra = a@.subrange(i as int, a@.len() as int);
        let rb = b@.subrange(i as int, b@.len() as int);
        if ra.len() == 0 && rb.len() == 0 {
            assert(ra =~= rb);
        }
    }
    if a.len() == b.len() {
        KeyOrder::Equal
    } else if a.len() < b.len() {
        KeyOrder::Less
    } else {
        KeyOrder::Greater
    }
}

/// The decimal rendering of `n` without leading zeros, as `Display` writes it.
pub open spec fn decimal_of(n: nat) -> Seq<char>
    decreases n,
{
    if n < 10 {
        seq![digit_char(n as int)]
    } else {
        decimal_of(n / 10).push(digit_char((n % 10) as int))
    }
}

/// The decimal rendering of a signed value, as `Display` writes it.
pub open spec fn signed_decimal_of(v: int) -> Seq<char> {
    if v < 0 {
        seq!['-'] + decimal_of((0 - v) as nat)
    } else {
        decimal_of(v as nat)
    }
}

pub fn decimal_chars(n: u128) -> (v: Vec<char>)
    ensures
        v@ == decimal_of(n as nat),
    decreases n,
{
    if n < 10 {
        let mut v = Vec::new();
        v.push((48u8 + n as u8) as char);
        v
    } else {
        let mut v = decimal_chars(n / 10);
        v.push((48u8 + (n % 10) as u8) as char);
        v
    }
}

pub fn signed_decimal_chars(x: i64) -> (v: Vec<char>)
    ensures
        v@ == signed_decimal_of(x as int),
{
    if x < 0 {
        let mag: u64 = if x == i64::MIN { 0x8000_0000_0000_0000u64 } else { (0 - x) as u64 };
        let mut v = Vec::new();
        v.push('-');
        append_chars(&mut v, decimal_chars(mag as u128).as_slice());
        v
    } else {
        decimal_chars(x as u128)
    }
}

/// `Debug` formatting of a string: quoted, with escapes.
pub uninterp spec fn debug_of(s: Seq<char>) -> Seq<char>;

/// `format!("{:?}", s)` for a string: the result is its `Debug` rendering,
/// named `debug_of`; the escaping rules are not restated here.
#[verifier::external_body]
pub(crate) fn debug_string(s: &str) -> (r: String)
    ensures
        r@ == debug_of(s@),
{
    format!("{:?}", s)
}

/// Appending one character to sequences of equal length orders them by
/// what came before, and by the appended characters only on a tie.
pub proof fn lemma_lex_push(a: Seq<char>, b: Seq<char>, c: char, d: char)
    requires
        a.len() == b.len(),
    ensures
        lex_lt(a.push(c), b.push(d)) <==> (lex_lt(a, b) || (a == b && (c as u32) < (d as u32))),
    decreases a.len(),
{
    if a.len() == 0 {
        assert(a =~= b);
        assert(a.push(c)[0] == c);
        assert(b.push(d)[0] == d);
        assert(a.push(c).drop_first() =~= Seq::<char>::empty());
        assert(b.push(d).drop_first() =~= Seq::<char>::empty());
        lemma_char_code_injective(c, d);
        assert(!lex_lt(Seq::<char>::empty(), Seq::<char>::empty()));
        assert(!lex_lt(a, b));
    } else {
        assert(a.push(c).drop_first() =~= a.drop_first().push(c));
        assert(b.push(d).drop_first() =~= b.drop_first().push(d));
        assert(a.push(c)[0] == a[0]);
        assert(b.push(d)[0] == b[0]);
        lemma_lex_push(a.drop_first(), b.drop_first(), c, d);
        lemma_char_code_injective(a[0], b[0]);
        if a[0] == b[0] {
            if a.drop_first() == b.drop_first() {
                assert(a =~= seq![a[0]] + a.drop_first());
                assert(b =~= seq![b[0]] + b.drop_first());
            }
            if a == b {
                assert(a.drop_first() =~= b.drop_first());
            }
        } else {
            assert(a != b);
        }
    }
}

/// Zero-padded decimals of one width order as the numbers they render,
/// and are equal only for equal numbers.
pub proof fn lemma_fixed_decimal_order(n: nat, m: nat, w: nat)
    requires
        n < vstd::arithmetic::power::pow(10, w),
        m < vstd::arithmetic::power::pow(10, w),
    ensures
        lex_lt(fixed_decimal(n, w), fixed_decimal(m, w)) <==> n < m,
        fixed_decimal(n, w) == fixed_decimal(m, w) <==> n == m,
    decreases w,
{
    if w == 0 {
        vstd::arithmetic::power::lemma_pow0(10);
        lemma_lex_irreflexive(Seq::<char>::empty());
    } else {
        let p = vstd::arithmetic::power::pow(10, (w - 1) as nat);
        assert(vstd::arithmetic::power::pow(10, w) == 10 * p) by {
            vstd::arithmetic::power::lemma_pow_adds(10, 1, (w - 1) as nat);
            vstd::arithmetic::power::lemma_pow1(10);
        }
        let q1 = n / 10;
        let r1 = n % 10;
        let q2 = m / 10;
        let r2 = m % 10;
        vstd::arithmetic::div_mod::lemma_fundamental_div_mod(n as int, 10);
        vstd::arithmetic::div_mod::lemma_fundamental_div_mod(m as int, 10);
        assert(n == 10 * q1 + r1 && 0 <= r1 < 10);
        assert(m == 10 * q2 + r2 && 0 <= r2 < 10);
        assert(q1 < p && q2 < p);
        lemma_fixed_decimal_order(q1, q2, (w - 1) as nat);
        let a = fixed_decimal(q1, (w - 1) as nat);
        let b = fixed_decimal(q2, (w - 1) as nat);
        crate::store::action::lemma_fixed_decimal_reads_back(q1, (w - 1) as nat);
        crate::store::action::lemma_fixed_decimal_reads_back(q2, (w - 1) as nat);
        let c = digit_char(r1 as int);
        let d = digit_char(r2 as int);
        assert(c as u32 == r1 + 48);
        assert(d as u32 == r2 + 48);
        lemma_lex_push(a, b, c, d);
        assert(fixed_decimal(n, w) == a.push(c));
        assert(fixed_decimal(m, w) == b.push(d));
        if a.push(c) == b.push(d) {
            assert(a.push(c).drop_last() == b.push(d).drop_last());
            assert(a =~= a.push(c).drop_last());
            assert(b =~= b.push(d).drop_last());
            assert(a.push(c).last() == b.push(d).last());
        }
    }
}

/// A shared prefix does not change the order.
pub proof fn lemma_lex_common_prefix(p: Seq<char>, x: Seq<char>, y: Seq<char>)
    ensures
        lex_lt(p + x, p + y) <==> lex_lt(x, y),
    decreases p.len(),
{
    if p.len() > 0 {
        assert((p + x)[0] == p[0]);
        assert((p + y)[0] == p[0]);
        assert((p + x).drop_first() =~= p.drop_first() + x);
        assert((p + y).drop_first() =~= p.drop_first() + y);
        lemma_lex_common_prefix(p.drop_first(), x, y);
    } else {
        assert(p + x =~= x);
        assert(p + y =~= y);
    }
}

/// A shared suffix after parts of one length does not change the order.
pub proof fn lemma_lex_common_suffix(x: Seq<char>, y: Seq<char>, t: Seq<char>)
    requires
        x.len() == y.len(),
    ensures
        lex_lt(x + t, y + t) <==> lex_lt(x, y),
    decreases x.len(),
{
    if x.len() == 0 {
        assert(x + t =~= t);
        assert(y + t =~= t);
        assert(x =~= y);
        lemma_lex_irreflexive(t);
        lemma_lex_irreflexive(x);
    } else {
        assert((x + t)[0] == x[0]);
        assert((y + t)[0] == y[0]);
        assert((x + t).drop_first() =~= x.drop_first() + t);
        assert((y + t).drop_first() =~= y.drop_first() + t);
        lemma_lex_common_suffix(x.drop_first(), y.drop_first(), t);
        lemma_char_code_injective(x[0], y[0]);
    }
}

} // verus!
