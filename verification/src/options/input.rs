//! Validated hidden pointer, keyboard, text and scroll action arguments.
use crate::benchmark::{BenchmarkNavigation, NavigationView};
use crate::text::{
    all_digits, chars_of, digits_value, is_digit, unsigned_body, contains_char, copy_range, find_char, first_index_of, parse_i32,
    push_all, push_str, spec_parse_signed, spec_split_once, spec_trim, split_once, string_of, trim,
    utf8_len, utf8_length,
};
use vstd::prelude::*;

verus! {

/// The view of a parsed action or its error message.
pub open spec fn nav_result(r: Result<BenchmarkNavigation, String>) -> Result<NavigationView, Seq<char>> {
    match r {
        Ok(n) => Ok(n@),
        Err(e) => Err(e@),
    }
}

/// Value of a trimmed `i32` field.
pub open spec fn trimmed_i32(s: Seq<char>) -> Option<int> {
    spec_parse_signed(spec_trim(s), i32::MIN as int, i32::MAX as int)
}

/// `x,y` pointer coordinates for `option`; `--move-after-ready` moves, anything else clicks.
pub open spec fn spec_point_input(value: Seq<char>, option: Seq<char>) -> Result<NavigationView, Seq<char>> {
    match spec_split_once(value, ',') {
        None => Err(option + " requires x,y"@),
        Some((a, b)) => match (trimmed_i32(a), trimmed_i32(b)) {
            (Some(x), Some(y)) => if x < 0 || y < 0 {
                Err(option + " coordinates cannot be negative"@)
            } else if option == "--move-after-ready"@ {
                Ok(NavigationView::MovePoint { x: x as i32, y: y as i32 })
            } else {
                Ok(NavigationView::ClickPoint { x: x as i32, y: y as i32 })
            },
            _ => Err(option + " requires integer x,y"@),
        },
    }
}

/// `key,code` for a synthetic key press.
pub open spec fn spec_key_input(value: Seq<char>) -> Result<NavigationView, Seq<char>> {
    match spec_split_once(value, ',') {
        None => Err("--key-after-ready requires key,code"@),
        Some((a, b)) => {
            let key = spec_trim(a);
            let code = spec_trim(b);
            if key.len() == 0 || code.len() == 0 || utf8_len(key) > 64 || utf8_len(code) > 64 {
                Err("--key-after-ready requires non-empty key,code values up to 64 bytes"@)
            } else {
                Ok(NavigationView::Key { key, code })
            }
        },
    }
}

/// A selector and a replacement value for a form control.
pub open spec fn spec_control_value_input(selector: Seq<char>, value: Seq<char>) -> Result<
    NavigationView,
    Seq<char>,
> {
    if spec_trim(selector).len() == 0 || utf8_len(value) > 4096 || value.contains('\0') {
        Err(
            "--set-control-value-after-ready requires a selector and a value up to 4096 bytes without NUL"@,
        )
    } else {
        Ok(NavigationView::SetControlValue { selector, value })
    }
}

/// The pieces of `s` between occurrences of `c` (`str::split`).
#[verifier::opaque]
pub open spec fn split_all(s: Seq<char>, c: char) -> Seq<Seq<char>>
    decreases s.len(),
{
    match first_index_of(s, c) {
        None => seq![s],
        Some(i) => if 0 <= i < s.len() {
            seq![s.subrange(0, i)] + split_all(s.subrange(i + 1, s.len() as int), c)
        } else {
            seq![s]
        },
    }
}

proof fn lemma_split_found(s: Seq<char>, c: char, k: int)
    requires
        first_index_of(s, c) == Some(k),
        0 <= k < s.len(),
    ensures
        split_all(s, c) == seq![s.subrange(0, k)] + split_all(s.subrange(k + 1, s.len() as int), c),
{
    reveal(split_all);
}

proof fn lemma_split_missing(s: Seq<char>, c: char)
    requires
        first_index_of(s, c) is None,
    ensures
        split_all(s, c) == seq![s],
{
    reveal(split_all);
}

/// Every piece parses as a trimmed `i32`.
pub open spec fn all_i32(pieces: Seq<Seq<char>>) -> bool {
    forall|i: int| 0 <= i < pieces.len() ==> trimmed_i32(#[trigger] pieces[i]) is Some
}

/// `x,y,delta` for a synthetic wheel event, bounded to a plausible viewport.
pub open spec fn spec_wheel_input(value: Seq<char>) -> Result<NavigationView, Seq<char>> {
    let error = "--wheel-after-ready requires x,y,delta (CSS viewport coordinates and pixel delta)"@;
    let pieces = split_all(value, ',');
    if !all_i32(pieces) || pieces.len() != 3 {
        Err(error)
    } else {
        let x = trimmed_i32(pieces[0]).unwrap();
        let y = trimmed_i32(pieces[1]).unwrap();
        let delta = trimmed_i32(pieces[2]).unwrap();
        if !(0 <= x <= 7680) || !(0 <= y <= 4320) || !(-10000 <= delta <= 10000) {
            Err(error)
        } else {
            Ok(NavigationView::Wheel { x: x as i32, y: y as i32, delta: delta as i32 })
        }
    }
}

/// A non-negative decimal CSS scroll offset.
pub open spec fn spec_scroll_input(value: Seq<char>) -> Result<NavigationView, Seq<char>> {
    let v = spec_trim(value);
    let error = "--scroll-after-ready requires an integer CSS y offset from 0 to 2147483647"@;
    if v.len() == 0 || !all_digits(v) {
        Err(error)
    } else {
        match spec_parse_signed(v, i32::MIN as int, i32::MAX as int) {
            Some(y) => Ok(NavigationView::ScrollTo { y: y as i32 }),
            None => Err(error),
        }
    }
}

fn message(s: &str) -> (r: String)
    ensures
        r@ == s@,
{
    string_of(chars_of(s).as_slice())
}

fn prefixed(option: &[char], s: &str) -> (r: String)
    ensures
        r@ == option@ + s@,
{
    let mut v: Vec<char> = Vec::new();
    push_all(&mut v, option);
    push_str(&mut v, s);
    assert(v@ =~= option@ + s@);
    string_of(v.as_slice())
}

/// Whether the characters equal the string literal.
pub fn same_text(a: &[char], b: &str) -> (r: bool)
    ensures
        r == (a@ == b@),
{
    let bc = chars_of(b);
    if a.len() != bc.len() {
        return false;
    }
    let mut i: usize = 0;
    while i < a.len()
        invariant
            i <= a.len() == bc.len(),
            bc@ == b@,
            forall|k: int| 0 <= k < i ==> a@[k] == bc@[k],
        decreases a.len() - i,
    {
        if a[i] != bc[i] {
            return false;
        }
        i = i + 1;
    }
    assert(a@ =~= bc@);
    true
}

fn trimmed_number(s: &[char]) -> (r: Option<i32>)
    ensures
        match r {
            Some(x) => trimmed_i32(s@) == Some(x as int),
            None => trimmed_i32(s@) is None,
        },
{
    let t = trim(s);
    parse_i32(t.as_slice())
}

/// Pointer coordinates for `option`.
pub fn point_input(value: &str, option: &str) -> (r: Result<BenchmarkNavigation, String>)
    ensures
        nav_result(r) == spec_point_input(value@, option@),
{
    let v = chars_of(value);
    let o = chars_of(option);
    match split_once(v.as_slice(), ',') {
        None => Err(prefixed(o.as_slice(), " requires x,y")),
        Some((a, b)) => {
            let x = trimmed_number(a.as_slice());
            let y = trimmed_number(b.as_slice());
            match (x, y) {
                (Some(x), Some(y)) => {
                    if x < 0 || y < 0 {
                        Err(prefixed(o.as_slice(), " coordinates cannot be negative"))
                    } else if same_text(o.as_slice(), "--move-after-ready") {
                        Ok(BenchmarkNavigation::MovePoint { x, y })
                    } else {
                        Ok(BenchmarkNavigation::ClickPoint { x, y })
                    }
                },
                _ => Err(prefixed(o.as_slice(), " requires integer x,y")),
            }
        },
    }
}

/// `--click-after-ready x,y`.
pub fn click_point(value: &str) -> (r: Result<BenchmarkNavigation, String>)
    ensures
        nav_result(r) == spec_point_input(value@, "--click-after-ready"@),
{
    point_input(value, "--click-after-ready")
}

/// `--key-after-ready key,code`.
pub fn key_input(value: &str) -> (r: Result<BenchmarkNavigation, String>)
    ensures
        nav_result(r) == spec_key_input(value@),
{
    let v = chars_of(value);
    match split_once(v.as_slice(), ',') {
        None => Err(message("--key-after-ready requires key,code")),
        Some((a, b)) => {
            let key = trim(a.as_slice());
            let code = trim(b.as_slice());
            if key.len() == 0 || code.len() == 0 || !short_enough(key.as_slice(), 64)
                || !short_enough(code.as_slice(), 64) {
                Err(message("--key-after-ready requires non-empty key,code values up to 64 bytes"))
            } else {
                Ok(
                    BenchmarkNavigation::Key {
                        key: string_of(key.as_slice()),
                        code: string_of(code.as_slice()),
                    },
                )
            }
        },
    }
}

/// Whether the UTF-8 encoding takes at most `limit` bytes.
pub fn short_enough(v: &[char], limit: usize) -> (b: bool)
    requires
        limit <= usize::MAX / 4,
    ensures
        b == (utf8_len(v@) <= limit),
{
    if v.len() > limit {
        proof {
            crate::text::lemma_utf8_len_bounds(v@);
        }
        return false;
    }
    utf8_length(v) <= limit
}

/// `--set-control-value-after-ready selector value`.
pub fn control_value_input(selector: &str, value: &str) -> (r: Result<BenchmarkNavigation, String>)
    ensures
        nav_result(r) == spec_control_value_input(selector@, value@),
{
    let s = chars_of(selector);
    let v = chars_of(value);
    let t = trim(s.as_slice());
    if t.len() == 0 || !short_enough(v.as_slice(), 4096) || contains_char(v.as_slice(), '\0') {
        return Err(
            message(
                "--set-control-value-after-ready requires a selector and a value up to 4096 bytes without NUL",
            ),
        );
    }
    Ok(
        BenchmarkNavigation::SetControlValue {
            selector: string_of(s.as_slice()),
            value: string_of(v.as_slice()),
        },
    )
}

/// Splits at every `c`.
pub fn split_pieces(v: &[char], c: char) -> (r: Vec<Vec<char>>)
    ensures
        r@.len() == split_all(v@, c).len(),
        forall|i: int| 0 <= i < r@.len() ==> #[trigger] r@[i]@ == split_all(v@, c)[i],
{
    let mut pieces: Vec<Vec<char>> = Vec::new();
    let mut start: usize = 0;
    let ghost mut done: Seq<Seq<char>> = Seq::empty();
    proof {
        assert(v@.subrange(0, v@.len() as int) =~= v@);
        assert(done + split_all(v@, c) =~= split_all(v@, c));
    }
    loop
        invariant
            start <= v.len(),
            pieces@.len() == done.len(),
            forall|i: int| 0 <= i < pieces@.len() ==> #[trigger] pieces@[i]@ == done[i],
            done + split_all(v@.subrange(start as int, v@.len() as int), c) == split_all(v@, c),
        decreases v.len() - start,
    {
        let rest = copy_range(v, start, v.len());
        match find_char(rest.as_slice(), c) {
            None => {
                pieces.push(rest);
                proof {
                    done = done.push(rest@);
                    lemma_split_missing(rest@, c);
                    assert(done =~= split_all(v@, c));
                }
                return pieces;
            },
            Some(k) => {
                let piece = copy_range(rest.as_slice(), 0, k);
                proof {
                    let s = rest@;
                    let tail = s.subrange(k + 1, s.len() as int);
                    assert(tail =~= v@.subrange(start + k + 1, v@.len() as int));
                    lemma_split_found(s, c, k as int);
                    let old_done = done;
                    done = done.push(piece@);
                    assert(done + split_all(tail, c) =~= old_done + (seq![piece@] + split_all(
                        tail,
                        c,
                    )));
                }
                pieces.push(piece);
                start = start + k + 1;
            },
        }
    }
}

/// `--wheel-after-ready x,y,delta`.
pub fn wheel_input(value: &str) -> (r: Result<BenchmarkNavigation, String>)
    ensures
        nav_result(r) == spec_wheel_input(value@),
{
    let v = chars_of(value);
    let pieces = split_pieces(v.as_slice(), ',');
    let mut numbers: Vec<i32> = Vec::new();
    let mut i: usize = 0;
    while i < pieces.len()
        invariant
            i <= pieces.len(),
            numbers@.len() == i,
            v@ == value@,
            pieces@.len() == split_all(v@, ',').len(),
            forall|k: int| 0 <= k < pieces@.len() ==> #[trigger] pieces@[k]@ == split_all(v@, ',')[k],
            forall|k: int| 0 <= k < i ==> trimmed_i32(#[trigger] split_all(v@, ',')[k]) == Some(
                numbers@[k] as int,
            ),
        decreases pieces.len() - i,
    {
        match trimmed_number(pieces[i].as_slice()) {
            Some(n) => numbers.push(n),
            None => {
                assert(trimmed_i32(split_all(v@, ',')[i as int]) is None);
                assert(!all_i32(split_all(v@, ',')));
                return Err(
                    message(
                        "--wheel-after-ready requires x,y,delta (CSS viewport coordinates and pixel delta)",
                    ),
                );
            },
        }
        i = i + 1;
    }
    assert(all_i32(split_all(v@, ',')));
    if numbers.len() != 3 {
        return Err(
            message(
                "--wheel-after-ready requires x,y,delta (CSS viewport coordinates and pixel delta)",
            ),
        );
    }
    let x = numbers[0];
    let y = numbers[1];
    let delta = numbers[2];
    proof {
        let pieces_spec = split_all(v@, ',');
        assert(trimmed_i32(pieces_spec[0]) == Some(x as int));
        assert(trimmed_i32(pieces_spec[1]) == Some(y as int));
        assert(trimmed_i32(pieces_spec[2]) == Some(delta as int));
        assert(all_i32(pieces_spec));
    }
    if !(0 <= x && x <= 7680) || !(0 <= y && y <= 4320) || !(-10000 <= delta && delta <= 10000) {
        return Err(
            message(
                "--wheel-after-ready requires x,y,delta (CSS viewport coordinates and pixel delta)",
            ),
        );
    }
    Ok(BenchmarkNavigation::Wheel { x, y, delta })
}

/// `--scroll-after-ready y`.
pub fn scroll_input(value: &str) -> (r: Result<BenchmarkNavigation, String>)
    ensures
        nav_result(r) == spec_scroll_input(value@),
{
    let v = chars_of(value);
    let t = trim(v.as_slice());
    let mut digits = t.len() > 0;
    let mut i: usize = 0;
    while i < t.len() && digits
        invariant
            i <= t.len(),
            digits == (t@.len() > 0 && forall|k: int| 0 <= k < i ==> crate::text::is_digit(#[trigger] t@[k])),
        decreases t.len() - i,
    {
        if !('0' <= t[i] && t[i] <= '9') {
            digits = false;
        }
        i = i + 1;
    }
    if !digits {
        return Err(
            message("--scroll-after-ready requires an integer CSS y offset from 0 to 2147483647"),
        );
    }
    assert(all_digits(t@));
    match parse_i32(t.as_slice()) {
        Some(y) => Ok(BenchmarkNavigation::ScrollTo { y }),
        None => Err(
            message("--scroll-after-ready requires an integer CSS y offset from 0 to 2147483647"),
        ),
    }
}

/// A scroll offset is accepted exactly when its trimmed text is a non-empty
/// run of ASCII digits worth at most `i32::MAX`, and it is that value: no
/// sign, exponent, fraction or separator is ever accepted.
pub proof fn lemma_scroll_input_law(value: Seq<char>)
    ensures
        ({
            let t = spec_trim(value);
            &&& (spec_scroll_input(value) is Ok <==> (t.len() > 0 && all_digits(t) && digits_value(t) <= i32::MAX))
            &&& (spec_scroll_input(value) matches Ok(NavigationView::ScrollTo { y }) ==> 0 <= y && y == digits_value(t))
        }),
{
    let t = spec_trim(value);
    if t.len() > 0 && all_digits(t) {
        assert(is_digit(t[0]));
        assert(unsigned_body(t) == t);
    }
}

/// A pointer action is accepted exactly when the text splits at its first
/// comma into two trimmed `i32` coordinates, both non-negative; the option
/// decides between a move and a click, and every refusal names the option first.
pub proof fn lemma_point_input_law(value: Seq<char>, option: Seq<char>)
    ensures
        (spec_point_input(value, option) is Ok) == (spec_split_once(value, ',') matches Some((a, b))
            && trimmed_i32(a) matches Some(x) && trimmed_i32(b) matches Some(y) && x >= 0 && y >= 0),
        spec_point_input(value, option) matches Ok(n) ==> spec_split_once(value, ',') matches Some((a, b))
            && trimmed_i32(a) matches Some(x) && trimmed_i32(b) matches Some(y) && n == (if option
            == "--move-after-ready"@ {
            NavigationView::MovePoint { x: x as i32, y: y as i32 }
        } else {
            NavigationView::ClickPoint { x: x as i32, y: y as i32 }
        }),
        spec_point_input(value, option) matches Err(e) ==> e.len() >= option.len() && e.take(option.len() as int) == option,
{
    match spec_point_input(value, option) {
        Err(e) => {
            assert(e.take(option.len() as int) =~= option);
        },
        Ok(_) => {},
    }
}

/// A key press carries the trimmed text before and after the first comma,
/// each non-empty and at most 64 UTF-8 bytes.
pub proof fn lemma_key_input_law(value: Seq<char>)
    ensures
        spec_key_input(value) matches Ok(NavigationView::Key { key, code }) ==> spec_split_once(value, ',') matches Some((a, b))
            && key == spec_trim(a) && code == spec_trim(b) && 0 < key.len() && 0 < code.len()
            && utf8_len(key) <= 64 && utf8_len(code) <= 64,
        (spec_key_input(value) is Ok) == (spec_split_once(value, ',') matches Some((a, b))
            && 0 < spec_trim(a).len() && 0 < spec_trim(b).len() && utf8_len(spec_trim(a)) <= 64
            && utf8_len(spec_trim(b)) <= 64),
{
}

/// A wheel action is accepted exactly when the text splits at every comma
/// into three trimmed `i32` fields within the viewport and delta bounds, and
/// carries those fields; anything else is refused with one message.
pub proof fn lemma_wheel_input_law(value: Seq<char>)
    ensures
        ({
            let p = split_all(value, ',');
            let ok = p.len() == 3 && trimmed_i32(p[0]) is Some && trimmed_i32(p[1]) is Some
                && trimmed_i32(p[2]) is Some && 0 <= trimmed_i32(p[0])->0 <= 7680
                && 0 <= trimmed_i32(p[1])->0 <= 4320 && -10000 <= trimmed_i32(p[2])->0 <= 10000;
            &&& (spec_wheel_input(value) is Ok) == ok
            &&& (spec_wheel_input(value) matches Ok(n) ==> n == NavigationView::Wheel {
                x: trimmed_i32(p[0])->0 as i32,
                y: trimmed_i32(p[1])->0 as i32,
                delta: trimmed_i32(p[2])->0 as i32,
            })
            &&& (spec_wheel_input(value) matches Err(e) ==> e
                == "--wheel-after-ready requires x,y,delta (CSS viewport coordinates and pixel delta)"@)
        }),
{
    let p = split_all(value, ',');
    if p.len() == 3 && trimmed_i32(p[0]) is Some && trimmed_i32(p[1]) is Some && trimmed_i32(p[2]) is Some {
        assert(all_i32(p)) by {
            assert forall|k: int| 0 <= k < p.len() implies #[trigger] trimmed_i32(p[k]) is Some by {
                if k == 0 {} else if k == 1 {} else {}
            }
        }
    }
}

} // verus!
