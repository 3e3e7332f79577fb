//! Character-level text handling: whitespace, splitting, UTF-8 sizes,
//! decimal integers in and out, and JSON string literals.
use crate::float_decimal::{count_f64, count_f64_wide, decimal_places, millis_f64, millis_places, round_f64, round_f64_wide};
use vstd::prelude::*;

verus! {

/// Copies the characters of a string slice.
pub fn chars_of(s: &str) -> (v: Vec<char>)
    ensures
        v@ == s@,
{
    broadcast use vstd::string::group_string_axioms;

    let mut v: Vec<char> = Vec::new();
    for c in it: s.chars()
        invariant
            it.seq() == s@,
            v@ == it.seq().take(it.index() as int),
    {
        v.push(c);
    }
    v
}

/// Appends one character to a string (`String::push`).
#[verifier::external_body]
fn push_char(s: &mut String, c: char)
    ensures
        final(s)@ == old(s)@.push(c),
{
    s.push(c);
}

/// Builds a `String` from characters.
pub fn string_of(v: &[char]) -> (s: String)
    ensures
        s@ == v@,
{
    let mut s = String::new();
    let mut i: usize = 0;
    while i < v.len()
        invariant
            i <= v.len(),
            s@ == v@.take(i as int),
        decreases v.len() - i,
    {
        push_char(&mut s, v[i]);
        i = i + 1;
        assert(s@ =~= v@.take(i as int));
    }
    assert(v@.take(v.len() as int) =~= v@);
    s
}

/// An owned copy of a string slice.
pub fn string_from(s: &str) -> (r: String)
    ensures
        r@ == s@,
{
    s.to_owned()
}

/// The UTF-16 code units of one character: itself below `0x10000`, else a
/// surrogate pair.
pub open spec fn utf16_units(c: char) -> Seq<u16> {
    let u = c as u32;
    if u < 0x10000 {
        seq![u as u16]
    } else {
        let v = (u - 0x10000) as int;
        seq![(0xD800 + v / 0x400) as u16, (0xDC00 + v % 0x400) as u16]
    }
}

/// The UTF-16 encoding of `s`.
pub open spec fn utf16_of(s: Seq<char>) -> Seq<u16>
    decreases s.len(),
{
    if s.len() == 0 {
        Seq::empty()
    } else {
        utf16_of(s.drop_last()) + utf16_units(s.last())
    }
}

/// Encodes `s` as UTF-16.
pub fn encode_utf16(s: &str) -> (r: Vec<u16>)
    ensures
        r@ == utf16_of(s@),
{
    let v = chars_of(s);
    let mut r: Vec<u16> = Vec::new();
    let mut i: usize = 0;
    while i < v.len()
        invariant
            v@ == s@,
            i <= v@.len(),
            r@ == utf16_of(v@.take(i as int)),
        decreases v@.len() - i,
    {
        let c = v[i];
        let u = c as u32;
        proof {
            vstd::utf8::char_is_scalar(c);
            assert(v@.take(i + 1).drop_last() =~= v@.take(i as int));
        }
        if u < 0x10000 {
            r.push(u as u16);
        } else {
            let w = u - 0x10000;
            assert(w < 0x100000);
            r.push((0xD800 + w / 0x400) as u16);
            r.push((0xDC00 + w % 0x400) as u16);
        }
        proof {
            assert(r@ =~= utf16_of(v@.take(i as int)) + utf16_units(c));
        }
        i = i + 1;
    }
    proof {
        assert(v@.take(v@.len() as int) =~= v@);
    }
    r
}

/// Where the caret goes after a text input replaces a control's value: after
/// its last UTF-16 code unit, counted in 32 bits (saturating).
pub fn caret_after(value: &str) -> (n: u32)
    ensures
        n == if utf16_of(value@).len() > u32::MAX { u32::MAX as int } else { utf16_of(value@).len() as int },
{
    let units = encode_utf16(value).len();
    if units > 0xffff_ffff {
        0xffff_ffff
    } else {
        units as u32
    }
}

/// Whether two strings hold the same characters.
pub fn text_eq(a: &str, b: &str) -> (r: bool)
    ensures
        r == (a@ == b@),
{
    let ac = chars_of(a);
    let bc = chars_of(b);
    if ac.len() != bc.len() {
        return false;
    }
    let mut i: usize = 0;
    while i < ac.len()
        invariant
            i <= ac.len() == bc.len(),
            ac@ == a@,
            bc@ == b@,
            forall|k: int| 0 <= k < i ==> ac@[k] == bc@[k],
        decreases ac.len() - i,
    {
        if ac[i] != bc[i] {
            return false;
        }
        i = i + 1;
    }
    assert(ac@ =~= bc@);
    true
}

/// Unicode `White_Space`, the set `char::is_whitespace` accepts.
pub open spec fn spec_is_whitespace(c: char) -> bool {
    let u = c as u32;
    (0x09 <= u <= 0x0d) || u == 0x20 || u == 0x85 || u == 0xa0 || u == 0x1680 || (0x2000 <= u
        <= 0x200a) || u == 0x2028 || u == 0x2029 || u == 0x202f || u == 0x205f || u == 0x3000
}

pub fn is_whitespace(c: char) -> (b: bool)
    ensures
        b == spec_is_whitespace(c),
{
    let u = c as u32;
    (0x09 <= u && u <= 0x0d) || u == 0x20 || u == 0x85 || u == 0xa0 || u == 0x1680 || (0x2000 <= u
        && u <= 0x200a) || u == 0x2028 || u == 0x2029 || u == 0x202f || u == 0x205f || u == 0x3000
}

/// Index of the first non-whitespace character at or after `from`, or the length.
pub open spec fn first_non_ws(s: Seq<char>, from: int) -> int
    decreases s.len() - from,
{
    if from >= s.len() {
        s.len() as int
    } else if !spec_is_whitespace(s[from]) {
        from
    } else {
        first_non_ws(s, from + 1)
    }
}

/// One past the last non-whitespace character before `to`, or `lo`.
pub open spec fn last_non_ws_end(s: Seq<char>, lo: int, to: int) -> int
    decreases to - lo,
{
    if to <= lo {
        lo
    } else if !spec_is_whitespace(s[to - 1]) {
        to
    } else {
        last_non_ws_end(s, lo, to - 1)
    }
}

/// `str::trim`: leading and trailing whitespace removed.
pub open spec fn spec_trim(s: Seq<char>) -> Seq<char> {
    let lo = first_non_ws(s, 0);
    s.subrange(lo, last_non_ws_end(s, lo, s.len() as int))
}

proof fn lemma_first_non_ws_bounds(s: Seq<char>, from: int)
    requires
        0 <= from <= s.len(),
    ensures
        from <= first_non_ws(s, from) <= s.len(),
    decreases s.len() - from,
{
    if from < s.len() && spec_is_whitespace(s[from]) {
        lemma_first_non_ws_bounds(s, from + 1);
    }
}

proof fn lemma_last_non_ws_bounds(s: Seq<char>, lo: int, to: int)
    requires
        0 <= lo <= to <= s.len(),
    ensures
        lo <= last_non_ws_end(s, lo, to) <= to,
    decreases to - lo,
{
    if to > lo && spec_is_whitespace(s[to - 1]) {
        lemma_last_non_ws_bounds(s, lo, to - 1);
    }
}

/// Removes leading and trailing whitespace.
pub fn trim(v: &[char]) -> (r: Vec<char>)
    ensures
        r@ == spec_trim(v@),
{
    let mut lo: usize = 0;
    while lo < v.len() && is_whitespace(v[lo])
        invariant
            lo <= v.len(),
            first_non_ws(v@, lo as int) == first_non_ws(v@, 0),
        decreases v.len() - lo,
    {
        lo = lo + 1;
    }
    let mut hi: usize = v.len();
    while hi > lo && is_whitespace(v[hi - 1])
        invariant
            lo <= hi <= v.len(),
            lo == first_non_ws(v@, 0),
            last_non_ws_end(v@, lo as int, hi as int) == last_non_ws_end(
                v@,
                lo as int,
                v.len() as int,
            ),
        decreases hi - lo,
    {
        hi = hi - 1;
    }
    let mut r: Vec<char> = Vec::new();
    let mut i: usize = lo;
    while i < hi
        invariant
            lo <= i <= hi <= v.len(),
            r@ == v@.subrange(lo as int, i as int),
        decreases hi - i,
    {
        r.push(v[i]);
        i = i + 1;
    }
    r
}

/// Position of the first `c` in `s`.
pub open spec fn first_index_of(s: Seq<char>, c: char) -> Option<int> {
    if exists|i: int| 0 <= i < s.len() && s[i] == c {
        Some(choose|i: int| 0 <= i < s.len() && s[i] == c && forall|j: int| 0 <= j < i ==> s[j] != c)
    } else {
        None
    }
}

/// `str::split_once`: the text before and after the first `c`.
pub open spec fn spec_split_once(s: Seq<char>, c: char) -> Option<(Seq<char>, Seq<char>)> {
    match first_index_of(s, c) {
        Some(i) => Some((s.subrange(0, i), s.subrange(i + 1, s.len() as int))),
        None => None,
    }
}

/// Copies `v[from..to]`.
pub fn copy_range(v: &[char], from: usize, to: usize) -> (r: Vec<char>)
    requires
        from <= to <= v.len(),
    ensures
        r@ == v@.subrange(from as int, to as int),
{
    let mut r: Vec<char> = Vec::new();
    let mut i = from;
    while i < to
        invariant
            from <= i <= to <= v.len(),
            r@ == v@.subrange(from as int, i as int),
        decreases to - i,
    {
        r.push(v[i]);
        i = i + 1;
    }
    r
}

/// Finds the first occurrence of `c`.
pub fn find_char(v: &[char], c: char) -> (r: Option<usize>)
    ensures
        match r {
            Some(i) => i < v.len() && v@[i as int] == c && forall|j: int|
                0 <= j < i ==> v@[j] != c,
            None => forall|j: int| 0 <= j < v.len() ==> v@[j] != c,
        },
        r is Some <==> first_index_of(v@, c) is Some,
        r matches Some(i) ==> first_index_of(v@, c) == Some(i as int),
{
    let mut i: usize = 0;
    while i < v.len()
        invariant
            i <= v.len(),
            forall|j: int| 0 <= j < i ==> v@[j] != c,
        decreases v.len() - i,
    {
        if v[i] == c {
            proof {
                let w = choose|k: int|
                    0 <= k < v@.len() && v@[k] == c && forall|j: int| 0 <= j < k ==> v@[j] != c;
                assert(0 <= i < v@.len() && v@[i as int] == c && forall|j: int|
                    0 <= j < i ==> v@[j] != c);
                if w < i {
                } else if w > i {
                    assert(v@[i as int] != c);
                }
            }
            return Some(i);
        }
        i = i + 1;
    }
    None
}

/// Splits at the first `c`.
pub fn split_once(v: &[char], c: char) -> (r: Option<(Vec<char>, Vec<char>)>)
    ensures
        match (r, spec_split_once(v@, c)) {
            (Some((a, b)), Some((sa, sb))) => a@ == sa && b@ == sb,
            (None, None) => true,
            _ => false,
        },
{
    match find_char(v, c) {
        Some(i) => Some((copy_range(v, 0, i), copy_range(v, i + 1, v.len()))),
        None => None,
    }
}

/// Whether `c` occurs in `s`.
pub fn contains_char(v: &[char], c: char) -> (b: bool)
    ensures
        b == v@.contains(c),
{
    let r = find_char(v, c);
    proof {
        if r is None {
            assert forall|j: int| 0 <= j < v@.len() implies v@[j] != c by {}
        } else {
            let i = r.unwrap();
            assert(v@[i as int] == c);
        }
    }
    r.is_some()
}

/// Number of bytes in the UTF-8 encoding of `c`.
pub open spec fn utf8_width(c: char) -> nat {
    let u = c as u32;
    if u < 0x80 {
        1
    } else if u < 0x800 {
        2
    } else if u < 0x10000 {
        3
    } else {
        4
    }
}

/// Number of bytes in the UTF-8 encoding of `s`.
pub open spec fn utf8_len(s: Seq<char>) -> nat
    decreases s.len(),
{
    if s.len() == 0 {
        0
    } else {
        utf8_len(s.drop_last()) + utf8_width(s.last())
    }
}

pub fn char_utf8_width(c: char) -> (w: usize)
    ensures
        w == utf8_width(c),
{
    let u = c as u32;
    if u < 0x80 {
        1
    } else if u < 0x800 {
        2
    } else if u < 0x10000 {
        3
    } else {
        4
    }
}

/// A text takes between one and four UTF-8 bytes per character.
pub proof fn lemma_utf8_len_bounds(s: Seq<char>)
    ensures
        s.len() <= utf8_len(s) <= 4 * s.len(),
    decreases s.len(),
{
    if s.len() > 0 {
        lemma_utf8_len_bounds(s.drop_last());
    }
}

/// Appending a character adds its own UTF-8 width.
pub proof fn lemma_utf8_len_push(s: Seq<char>, c: char)
    ensures
        utf8_len(s.push(c)) == utf8_len(s) + utf8_width(c),
{
    assert(s.push(c).drop_last() =~= s);
}

/// Byte length of the UTF-8 encoding (`str::len`).
pub fn utf8_length(v: &[char]) -> (n: usize)
    requires
        v.len() <= usize::MAX / 4,
    ensures
        n == utf8_len(v@),
{
    let mut n: usize = 0;
    let mut i: usize = 0;
    while i < v.len()
        invariant
            i <= v.len() <= usize::MAX / 4,
            n == utf8_len(v@.subrange(0, i as int)),
        decreases v.len() - i,
    {
        proof {
            assert(v@.subrange(0, i + 1) =~= v@.subrange(0, i as int).push(v@[i as int]));
            lemma_utf8_len_push(v@.subrange(0, i as int), v@[i as int]);
            lemma_utf8_len_bounds(v@.subrange(0, i as int));
        }
        n = n + char_utf8_width(v[i]);
        i = i + 1;
    }
    assert(v@.subrange(0, v.len() as int) =~= v@);
    n
}

/// The ASCII digit for a value below ten.
pub open spec fn digit_char(d: nat) -> char {
    ('0' as u32 + d) as char
}

/// Shortest decimal representation of `n`.
pub open spec fn decimal(n: nat) -> Seq<char>
    decreases n,
{
    if n < 10 {
        seq![digit_char(n)]
    } else {
        decimal(n / 10).push(digit_char(n % 10))
    }
}

/// `n` written with at least `width` digits, padded with leading zeros.
pub open spec fn zero_padded(n: nat, width: nat) -> Seq<char> {
    let d = decimal(n);
    if d.len() >= width {
        d
    } else {
        Seq::new((width - d.len()) as nat, |i: int| '0') + d
    }
}

fn digit(d: u64) -> (c: char)
    requires
        d < 10,
    ensures
        c == digit_char(d as nat),
{
    if d == 0 {
        '0'
    } else if d == 1 {
        '1'
    } else if d == 2 {
        '2'
    } else if d == 3 {
        '3'
    } else if d == 4 {
        '4'
    } else if d == 5 {
        '5'
    } else if d == 6 {
        '6'
    } else if d == 7 {
        '7'
    } else if d == 8 {
        '8'
    } else {
        '9'
    }
}

/// Appends the decimal digits of `n`.
pub fn push_decimal(out: &mut Vec<char>, n: u64)
    ensures
        final(out)@ == old(out)@ + decimal(n as nat),
    decreases n,
{
    if n < 10 {
        out.push(digit(n));
        assert(decimal(n as nat) =~= seq![digit_char(n as nat)]);
    } else {
        push_decimal(out, n / 10);
        out.push(digit(n % 10));
        assert(decimal(n as nat) == decimal((n / 10) as nat).push(digit_char((n % 10) as nat)));
    }
}

/// Appends the decimal digits of a 128-bit `n`.
pub fn push_decimal_wide(out: &mut Vec<char>, n: u128)
    ensures
        final(out)@ == old(out)@ + decimal(n as nat),
    decreases n,
{
    if n < 10 {
        out.push(digit(n as u64));
        assert(decimal(n as nat) =~= seq![digit_char(n as nat)]);
    } else {
        push_decimal_wide(out, n / 10);
        out.push(digit((n % 10) as u64));
        assert(decimal(n as nat) == decimal((n / 10) as nat).push(digit_char((n % 10) as nat)));
    }
}

/// Appends `n` with at least `width` digits.
pub fn push_zero_padded(out: &mut Vec<char>, n: u64, width: usize)
    ensures
        final(out)@ == old(out)@ + zero_padded(n as nat, width as nat),
{
    let mut digits: Vec<char> = Vec::new();
    push_decimal(&mut digits, n);
    assert(digits@ =~= decimal(n as nat));
    if digits.len() >= width {
        let mut i: usize = 0;
        let ghost start = out@;
        while i < digits.len()
            invariant
                i <= digits.len(),
                out@ == start + digits@.subrange(0, i as int),
            decreases digits.len() - i,
        {
            out.push(digits[i]);
            assert(digits@.subrange(0, i + 1) =~= digits@.subrange(0, i as int).push(digits@[i as int]));
            i = i + 1;
        }
        assert(digits@.subrange(0, digits.len() as int) =~= digits@);
    } else {
        let pad = width - digits.len();
        let ghost start = out@;
        let mut i: usize = 0;
        while i < pad
            invariant
                i <= pad,
                out@ == start + Seq::new(i as nat, |k: int| '0'),
            decreases pad - i,
        {
            out.push('0');
            assert(Seq::new((i + 1) as nat, |k: int| '0') =~= Seq::new(i as nat, |k: int| '0').push('0'));
            i = i + 1;
        }
        let ghost mid = out@;
        let mut j: usize = 0;
        while j < digits.len()
            invariant
                j <= digits.len(),
                out@ == mid + digits@.subrange(0, j as int),
            decreases digits.len() - j,
        {
            out.push(digits[j]);
            assert(digits@.subrange(0, j + 1) =~= digits@.subrange(0, j as int).push(digits@[j as int]));
            j = j + 1;
        }
        assert(digits@.subrange(0, digits.len() as int) =~= digits@);
        assert(out@ =~= start + (Seq::new(pad as nat, |k: int| '0') + digits@));
    }
}

/// Decimal representation of a signed value.
pub open spec fn signed_decimal(n: int) -> Seq<char> {
    if n < 0 {
        seq!['-'] + decimal((-n) as nat)
    } else {
        decimal(n as nat)
    }
}

/// Appends the decimal representation of a signed value.
pub fn push_signed(out: &mut Vec<char>, n: i64)
    ensures
        final(out)@ == old(out)@ + signed_decimal(n as int),
{
    if n < 0 {
        out.push('-');
        let magnitude: u64 = if n == i64::MIN {
            0x8000_0000_0000_0000u64
        } else {
            (-n) as u64
        };
        let ghost mid = out@;
        push_decimal(out, magnitude);
        assert(out@ =~= old(out)@ + (seq!['-'] + decimal((-n) as nat)));
    } else {
        push_decimal(out, n as u64);
    }
}

/// Appends the characters of `s`.
pub fn push_all(out: &mut Vec<char>, s: &[char])
    ensures
        final(out)@ == old(out)@ + s@,
{
    let ghost start = out@;
    let mut i: usize = 0;
    while i < s.len()
        invariant
            i <= s.len(),
            out@ == start + s@.subrange(0, i as int),
        decreases s.len() - i,
    {
        out.push(s[i]);
        assert(s@.subrange(0, i + 1) =~= s@.subrange(0, i as int).push(s@[i as int]));
        i = i + 1;
    }
    assert(s@.subrange(0, s.len() as int) =~= s@);
}

/// Appends the characters of `s`.
pub fn push_str(out: &mut Vec<char>, s: &str)
    ensures
        final(out)@ == old(out)@ + s@,
{
    let v = chars_of(s);
    push_all(out, v.as_slice());
}

/// A duration of `micros` microseconds in float milliseconds, printed with
/// three decimals.
pub open spec fn millis3(micros: nat) -> Seq<char> {
    let q = decimal_places(millis_f64(micros), 1000);
    decimal(q / 1000) + seq!['.'] + zero_padded(q % 1000, 3)
}

pub fn push_millis3(out: &mut Vec<char>, micros: u64)
    ensures
        final(out)@ == old(out)@ + millis3(micros as nat),
{
    let q = millis_places(micros, 1000);
    push_decimal_wide(out, q / 1000);
    out.push('.');
    push_zero_padded(out, (q % 1000) as u64, 3);
    assert(out@ =~= old(out)@ + millis3(micros as nat));
}

/// A count of thousandths written with three decimals.
pub open spec fn thousandths(q: nat) -> Seq<char> {
    decimal(q / 1000) + seq!['.'] + zero_padded(q % 1000, 3)
}

pub fn push_thousandths(out: &mut Vec<char>, q: u128)
    ensures
        final(out)@ == old(out)@ + thousandths(q as nat),
{
    push_decimal_wide(out, q / 1000);
    out.push('.');
    push_zero_padded(out, (q % 1000) as u64, 3);
    assert(out@ =~= old(out)@ + thousandths(q as nat));
}

/// A duration of `micros` microseconds in float milliseconds, printed with
/// no decimals.
pub open spec fn millis0(micros: nat) -> Seq<char> {
    decimal(decimal_places(millis_f64(micros), 1))
}

pub fn push_millis0(out: &mut Vec<char>, micros: u64)
    ensures
        final(out)@ == old(out)@ + millis0(micros as nat),
{
    let q = millis_places(micros, 1);
    push_decimal_wide(out, q);
}

/// `numerator / denominator` to the nearest whole number; a tie goes to the
/// even neighbour, as Rust's `{:.N}` formatting rounds.
pub open spec fn round_even(numerator: nat, denominator: nat) -> nat {
    let q = numerator / denominator;
    let r = numerator % denominator;
    if 2 * r > denominator || (2 * r == denominator && q % 2 == 1) {
        q + 1
    } else {
        q
    }
}

/// `round_even` on machine integers.
pub fn round_even_wide(numerator: u128, denominator: u128) -> (q: u128)
    requires
        denominator > 0,
        numerator < u128::MAX,
    ensures
        q == round_even(numerator as nat, denominator as nat),
        q <= numerator + 1,
{
    let q = numerator / denominator;
    let r = numerator % denominator;
    assert(q <= numerator) by (nonlinear_arith)
        requires
            q == numerator / denominator,
            denominator > 0,
    ;
    if r > denominator - r || (r == denominator - r && q % 2 == 1) {
        q + 1
    } else {
        q
    }
}

/// A duration of `micros` microseconds in float milliseconds, printed with
/// one decimal.
pub open spec fn millis1(micros: nat) -> Seq<char> {
    let tenths = decimal_places(millis_f64(micros), 10);
    decimal(tenths / 10) + seq!['.'] + decimal(tenths % 10)
}

pub fn push_millis1(out: &mut Vec<char>, micros: u64)
    ensures
        final(out)@ == old(out)@ + millis1(micros as nat),
{
    let tenths = millis_places(micros, 10);
    push_decimal_wide(out, tenths / 10);
    out.push('.');
    push_decimal_wide(out, tenths % 10);
    assert(out@ =~= old(out)@ + millis1(micros as nat));
}

/// `s` padded with spaces on the left to at least `width` characters.
pub open spec fn pad_left(s: Seq<char>, width: nat) -> Seq<char> {
    if s.len() >= width {
        s
    } else {
        Seq::new((width - s.len()) as nat, |i: int| ' ') + s
    }
}

/// `s` padded with spaces on the right to at least `width` characters.
pub open spec fn pad_right(s: Seq<char>, width: nat) -> Seq<char> {
    if s.len() >= width {
        s
    } else {
        s + Seq::new((width - s.len()) as nat, |i: int| ' ')
    }
}

fn push_spaces(out: &mut Vec<char>, count: usize)
    ensures
        final(out)@ == old(out)@ + Seq::new(count as nat, |i: int| ' '),
{
    let ghost start = out@;
    let mut i: usize = 0;
    while i < count
        invariant
            i <= count,
            out@ == start + Seq::new(i as nat, |k: int| ' '),
        decreases count - i,
    {
        out.push(' ');
        assert(Seq::new((i + 1) as nat, |k: int| ' ') =~= Seq::new(i as nat, |k: int| ' ').push(' '));
        i = i + 1;
    }
}

pub fn push_padded_left(out: &mut Vec<char>, s: &[char], width: usize)
    ensures
        final(out)@ == old(out)@ + pad_left(s@, width as nat),
{
    if s.len() < width {
        push_spaces(out, width - s.len());
    }
    push_all(out, s);
    assert(out@ =~= old(out)@ + pad_left(s@, width as nat));
}

pub fn push_padded_right(out: &mut Vec<char>, s: &[char], width: usize)
    ensures
        final(out)@ == old(out)@ + pad_right(s@, width as nat),
{
    push_all(out, s);
    if s.len() < width {
        push_spaces(out, width - s.len());
    }
    assert(out@ =~= old(out)@ + pad_right(s@, width as nat));
}

/// Lower-case hexadecimal digit.
pub open spec fn hex_char(d: nat) -> char {
    if d < 10 {
        digit_char(d)
    } else {
        ('a' as u32 + (d - 10)) as char
    }
}

fn hex_digit(d: u32) -> (c: char)
    requires
        d < 16,
    ensures
        c == hex_char(d as nat),
{
    if d < 10 {
        digit(d as u64)
    } else if d == 10 {
        'a'
    } else if d == 11 {
        'b'
    } else if d == 12 {
        'c'
    } else if d == 13 {
        'd'
    } else if d == 14 {
        'e'
    } else {
        'f'
    }
}

/// Escape sequence for one character inside a JSON string literal.
pub open spec fn json_escape_char(c: char) -> Seq<char> {
    let u = c as u32;
    if c == '"' {
        seq!['\\', '"']
    } else if c == '\\' {
        seq!['\\', '\\']
    } else if c == '\n' {
        seq!['\\', 'n']
    } else if c == '\r' {
        seq!['\\', 'r']
    } else if c == '\t' {
        seq!['\\', 't']
    } else if u == 0x08 {
        seq!['\\', 'b']
    } else if u == 0x0c {
        seq!['\\', 'f']
    } else if u < 0x20 {
        seq!['\\', 'u', '0', '0', hex_char((u / 16) as nat), hex_char((u % 16) as nat)]
    } else {
        seq![c]
    }
}

/// Escaped body of a JSON string literal.
pub open spec fn json_escaped(s: Seq<char>) -> Seq<char>
    decreases s.len(),
{
    if s.len() == 0 {
        Seq::empty()
    } else {
        json_escaped(s.drop_last()) + json_escape_char(s.last())
    }
}

/// A complete JSON string literal for `s`.
pub open spec fn json_quoted(s: Seq<char>) -> Seq<char> {
    seq!['"'] + json_escaped(s) + seq!['"']
}

fn push_json_escape(out: &mut Vec<char>, c: char)
    ensures
        final(out)@ == old(out)@ + json_escape_char(c),
{
    let u = c as u32;
    if c == '"' {
        out.push('\\');
        out.push('"');
    } else if c == '\\' {
        out.push('\\');
        out.push('\\');
    } else if c == '\n' {
        out.push('\\');
        out.push('n');
    } else if c == '\r' {
        out.push('\\');
        out.push('r');
    } else if c == '\t' {
        out.push('\\');
        out.push('t');
    } else if u == 0x08 {
        out.push('\\');
        out.push('b');
    } else if u == 0x0c {
        out.push('\\');
        out.push('f');
    } else if u < 0x20 {
        out.push('\\');
        out.push('u');
        out.push('0');
        out.push('0');
        out.push(hex_digit(u / 16));
        out.push(hex_digit(u % 16));
    } else {
        out.push(c);
    }
    assert(out@ =~= old(out)@ + json_escape_char(c));
}

/// Appends `s` as a quoted JSON string literal.
pub fn push_json_string(out: &mut Vec<char>, s: &[char])
    ensures
        final(out)@ == old(out)@ + json_quoted(s@),
{
    let ghost start = out@;
    out.push('"');
    let mut i: usize = 0;
    while i < s.len()
        invariant
            i <= s.len(),
            out@ == start + seq!['"'] + json_escaped(s@.subrange(0, i as int)),
        decreases s.len() - i,
    {
        proof {
            let p = s@.subrange(0, i + 1);
            assert(p.drop_last() =~= s@.subrange(0, i as int));
            assert(p.last() == s@[i as int]);
        }
        push_json_escape(out, s[i]);
        i = i + 1;
        assert(out@ =~= start + seq!['"'] + json_escaped(s@.subrange(0, i as int)));
    }
    out.push('"');
    assert(s@.subrange(0, s.len() as int) =~= s@);
    assert(out@ =~= start + json_quoted(s@));
}

/// Quotes `s` as a JSON string literal.
pub fn json_string(s: &str) -> (r: String)
    ensures
        r@ == json_quoted(s@),
{
    let v = chars_of(s);
    let mut out: Vec<char> = Vec::new();
    push_json_string(&mut out, v.as_slice());
    string_of(out.as_slice())
}

/// An ASCII decimal digit.
pub open spec fn is_digit(c: char) -> bool {
    '0' <= c <= '9'
}

pub open spec fn all_digits(s: Seq<char>) -> bool {
    forall|i: int| 0 <= i < s.len() ==> is_digit(#[trigger] s[i])
}

/// Value of a run of decimal digits.
pub open spec fn digits_value(s: Seq<char>) -> nat
    decreases s.len(),
{
    if s.len() == 0 {
        0
    } else {
        digits_value(s.drop_last()) * 10 + ((s.last() as u32 - '0' as u32) as nat)
    }
}

/// Digits after an optional leading `+`, as `u64::from_str` reads them.
pub open spec fn unsigned_body(s: Seq<char>) -> Seq<char> {
    if s.len() > 0 && s[0] == '+' {
        s.subrange(1, s.len() as int)
    } else {
        s
    }
}

/// The value that `from_str` of an unsigned integer type gives, when at most `max`.
pub open spec fn spec_parse_unsigned(s: Seq<char>, max: nat) -> Option<nat> {
    let body = unsigned_body(s);
    if body.len() > 0 && all_digits(body) && digits_value(body) <= max {
        Some(digits_value(body))
    } else {
        None
    }
}

/// The value that `from_str` of a signed integer type in `[min, max]` gives.
pub open spec fn spec_parse_signed(s: Seq<char>, min: int, max: int) -> Option<int> {
    if s.len() > 0 && s[0] == '-' {
        let body = s.subrange(1, s.len() as int);
        if body.len() > 0 && all_digits(body) && -(digits_value(body) as int) >= min {
            Some(-(digits_value(body) as int))
        } else {
            None
        }
    } else {
        let body = unsigned_body(s);
        if body.len() > 0 && all_digits(body) && digits_value(body) <= max {
            Some(digits_value(body) as int)
        } else {
            None
        }
    }
}

proof fn lemma_digits_prefix_le(s: Seq<char>, i: int)
    requires
        all_digits(s),
        0 <= i <= s.len(),
    ensures
        digits_value(s.subrange(0, i)) <= digits_value(s),
    decreases s.len() - i,
{
    if i < s.len() {
        lemma_digits_prefix_le(s, i + 1);
        let p = s.subrange(0, i + 1);
        assert(p.drop_last() =~= s.subrange(0, i));
        assert(is_digit(p.last()));
    } else {
        assert(s.subrange(0, i) =~= s);
    }
}

/// Reads a run of digits `v[from..]` into a value no greater than `max`.
fn parse_digits(v: &[char], from: usize, max: u64) -> (r: Option<u64>)
    requires
        from <= v.len(),
        max >= 9,
    ensures
        ({
            let body = v@.subrange(from as int, v@.len() as int);
            r == (if body.len() > 0 && all_digits(body) && digits_value(body) <= max {
                Some(digits_value(body) as u64)
            } else {
                None::<u64>
            })
        }),
{
    let ghost body = v@.subrange(from as int, v@.len() as int);
    if from == v.len() {
        return None;
    }
    let mut acc: u64 = 0;
    let mut i: usize = from;
    let mut overflow = false;
    while i < v.len()
        invariant
            from <= i <= v.len(),
            max >= 9,
            body == v@.subrange(from as int, v@.len() as int),
            all_digits(v@.subrange(from as int, i as int)),
            !overflow ==> acc == digits_value(v@.subrange(from as int, i as int)) && acc <= max,
            overflow ==> digits_value(v@.subrange(from as int, i as int)) > max,
        decreases v.len() - i,
    {
        let c = v[i];
        if !('0' <= c && c <= '9') {
            assert(body[i - from] == c);
            return None;
        }
        proof {
            let p = v@.subrange(from as int, i + 1);
            assert(p.drop_last() =~= v@.subrange(from as int, i as int));
            assert(p.last() == c);
        }
        let d = (c as u32 - '0' as u32) as u64;
        if !overflow {
            if acc > (max - d) / 10 {
                overflow = true;
                assert(acc * 10 + d > max) by (nonlinear_arith)
                    requires
                        acc > (max - d) / 10,
                        d <= max || d > max,
                        d < 10,
                ;
            } else {
                assert(acc * 10 + d <= max) by (nonlinear_arith)
                    requires
                        acc <= (max - d) / 10,
                        d <= 9,
                        acc <= max,
                ;
                acc = acc * 10 + d;
            }
        } else {
            assert(digits_value(v@.subrange(from as int, i as int)) * 10 + d > max) by (nonlinear_arith)
                requires
                    digits_value(v@.subrange(from as int, i as int)) > max,
            ;
        }
        i = i + 1;
    }
    assert(v@.subrange(from as int, i as int) =~= body);
    if overflow {
        None
    } else {
        Some(acc)
    }
}

/// `u64::from_str`.
pub fn parse_u64(v: &[char]) -> (r: Option<u64>)
    ensures
        match r {
            Some(x) => spec_parse_unsigned(v@, u64::MAX as nat) == Some(x as nat),
            None => spec_parse_unsigned(v@, u64::MAX as nat) is None,
        },
{
    let from: usize = if v.len() > 0 && v[0] == '+' { 1 } else { 0 };
    assert(unsigned_body(v@) =~= v@.subrange(from as int, v@.len() as int));
    parse_digits(v, from, u64::MAX)
}

/// `usize::from_str`.
pub fn parse_usize(v: &[char]) -> (r: Option<usize>)
    ensures
        match r {
            Some(x) => spec_parse_unsigned(v@, usize::MAX as nat) == Some(x as nat),
            None => spec_parse_unsigned(v@, usize::MAX as nat) is None,
        },
{
    let from: usize = if v.len() > 0 && v[0] == '+' { 1 } else { 0 };
    assert(unsigned_body(v@) =~= v@.subrange(from as int, v@.len() as int));
    match parse_digits(v, from, usize::MAX as u64) {
        Some(x) => Some(x as usize),
        None => None,
    }
}

/// `i32::from_str`.
pub fn parse_i32(v: &[char]) -> (r: Option<i32>)
    ensures
        match r {
            Some(x) => spec_parse_signed(v@, i32::MIN as int, i32::MAX as int) == Some(x as int),
            None => spec_parse_signed(v@, i32::MIN as int, i32::MAX as int) is None,
        },
{
    if v.len() > 0 && v[0] == '-' {
        match parse_digits(v, 1, 0x8000_0000) {
            Some(x) => Some((0 - (x as i64)) as i32),
            None => None,
        }
    } else {
        let from: usize = if v.len() > 0 && v[0] == '+' { 1 } else { 0 };
        assert(unsigned_body(v@) =~= v@.subrange(from as int, v@.len() as int));
        match parse_digits(v, from, 0x7fff_ffff) {
            Some(x) => Some(x as i32),
            None => None,
        }
    }
}


/// `numerator as f64 / denominator as f64`, printed with three decimals.
pub open spec fn rounded3(numerator: nat, denominator: nat) -> Seq<char> {
    thousandths(round_f64(count_f64(numerator), count_f64(denominator), 1000))
}

/// Appends `numerator / denominator` with three decimals.
pub fn push_rounded3(out: &mut Vec<char>, numerator: u64, denominator: u64)
    requires
        0 < denominator < 0x20_0000_0000_0000,
    ensures
        final(out)@ == old(out)@ + rounded3(numerator as nat, denominator as nat),
{
    let n = count_f64_wide(numerator);
    push_thousandths(out, round_f64_wide(n, denominator as u128, 1000));
}

} // verus!
