//! Text helpers with exact specifications over `Seq<char>`.

use vstd::prelude::*;

verus! {

/// Appends one character to a string.
///
/// Trusted: `String::push` appends the character at the end of the string.
#[verifier::external_body]
pub(crate) fn push_char(s: &mut String, c: char)
    ensures
        final(s)@ == old(s)@.push(c),
{
    s.push(c);
}

/// Copies a string slice into an owned string.
pub fn owned(s: &str) -> (r: String)
    ensures
        r@ == s@,
{
    let r = s.to_string();
    proof {
        vstd::string::to_string_from_display_ensures_for_str(s, r);
    }
    r
}

/// Appends `t` to `s`.
pub fn append(s: &mut String, t: &str)
    ensures
        final(s)@ == old(s)@ + t@,
{
    s.append(t);
}

/// The character for a decimal digit.
pub open spec fn digit_char(d: nat) -> char {
    if d == 0 { '0' } else if d == 1 { '1' } else if d == 2 { '2' } else if d == 3 { '3' }
    else if d == 4 { '4' } else if d == 5 { '5' } else if d == 6 { '6' } else if d == 7 { '7' }
    else if d == 8 { '8' } else { '9' }
}

/// The value of a decimal digit character, if it is one.
pub open spec fn char_digit(c: char) -> Option<nat> {
    if c == '0' { Some(0nat) } else if c == '1' { Some(1nat) } else if c == '2' { Some(2nat) }
    else if c == '3' { Some(3nat) } else if c == '4' { Some(4nat) } else if c == '5' { Some(5nat) }
    else if c == '6' { Some(6nat) } else if c == '7' { Some(7nat) } else if c == '8' { Some(8nat) }
    else if c == '9' { Some(9nat) } else { None }
}

/// Decimal rendering of a natural number, without leading zeros.
pub open spec fn decimal(n: nat) -> Seq<char>
    decreases n,
{
    if n < 10 {
        seq![digit_char(n)]
    } else {
        decimal(n / 10).push(digit_char(n % 10))
    }
}

fn digit_of(d: u64) -> (c: char)
    requires
        d < 10,
    ensures
        c == digit_char(d as nat),
{
    if d == 0 { '0' } else if d == 1 { '1' } else if d == 2 { '2' } else if d == 3 { '3' }
    else if d == 4 { '4' } else if d == 5 { '5' } else if d == 6 { '6' } else if d == 7 { '7' }
    else if d == 8 { '8' } else { '9' }
}

fn write_decimal(out: &mut String, n: u64)
    ensures
        final(out)@ == old(out)@ + decimal(n as nat),
    decreases n,
{
    if n >= 10 {
        write_decimal(out, n / 10);
    }
    push_char(out, digit_of(n % 10));
    proof {
        if n >= 10 {
            assert(old(out)@ + decimal(n as nat) =~= old(out)@ + decimal((n / 10) as nat) + seq![digit_char((n % 10) as nat)]);
        } else {
            assert(old(out)@ + decimal(n as nat) =~= old(out)@.push(digit_char(n as nat)));
        }
    }
}

/// Renders an unsigned integer in decimal, as `to_string` does.
pub fn decimal_text(n: u64) -> (r: String)
    ensures
        r@ == decimal(n as nat),
{
    let mut out = String::new();
    write_decimal(&mut out, n);
    proof {
        assert(out@ =~= decimal(n as nat));
    }
    out
}

/// Renders a `usize` in decimal.
pub fn usize_text(n: usize) -> (r: String)
    ensures
        r@ == decimal(n as nat),
{
    decimal_text(n as u64)
}

/// The value of a string of decimal digits (the empty string has value 0).
pub open spec fn digits_value(s: Seq<char>) -> nat
    decreases s.len(),
{
    if s.len() == 0 {
        0
    } else {
        digits_value(s.drop_last()) * 10 + char_digit(s.last()).unwrap_or(0)
    }
}

/// True when every character is a decimal digit.
pub open spec fn all_digits(s: Seq<char>) -> bool {
    forall|i: int| 0 <= i < s.len() ==> (#[trigger] char_digit(s[i])) is Some
}

/// The unsigned integer written by `s`: a non-empty run of decimal digits whose
/// value fits in `u64`.
pub open spec fn parse_u64_spec(s: Seq<char>) -> Option<u64> {
    if s.len() > 0 && all_digits(s) && digits_value(s) <= u64::MAX {
        Some(digits_value(s) as u64)
    } else {
        None
    }
}

proof fn lemma_digits_value_mono(s: Seq<char>, k: int)
    requires
        0 <= k <= s.len(),
        all_digits(s),
    ensures
        digits_value(s.take(k)) <= digits_value(s),
    decreases s.len() - k,
{
    if k < s.len() {
        lemma_digits_value_mono(s, k + 1);
        assert(s.take(k + 1).drop_last() =~= s.take(k));
        assert(digits_value(s.take(k)) <= digits_value(s.take(k)) * 10) by (nonlinear_arith);
    } else {
        assert(s.take(k) =~= s);
    }
}

fn char_digit_exec(c: char) -> (r: Option<u64>)
    ensures
        match char_digit(c) {
            Some(d) => r == Some(d as u64),
            None => r is None,
        },
{
    if c == '0' { Some(0) } else if c == '1' { Some(1) } else if c == '2' { Some(2) }
    else if c == '3' { Some(3) } else if c == '4' { Some(4) } else if c == '5' { Some(5) }
    else if c == '6' { Some(6) } else if c == '7' { Some(7) } else if c == '8' { Some(8) }
    else if c == '9' { Some(9) } else { None }
}

/// Reads a non-empty run of decimal digits as a `u64`; `None` for anything else
/// or for a value above `u64::MAX`.
pub fn parse_u64(s: &str) -> (r: Option<u64>)
    ensures
        r == parse_u64_spec(s@),
{
    let mut acc: u64 = 0;
    let mut ok = true;
    for c in it: s.chars()
        invariant
            it.seq() == s@,
            ok ==> all_digits(s@.take(it.index() as int)),
            ok ==> acc as nat == digits_value(s@.take(it.index() as int)),
            !ok ==> parse_u64_spec(s@) is None,
    {
        let ghost i = it.index() as int;
        assert(s@.take(i + 1).drop_last() =~= s@.take(i));
        if ok {
            match char_digit_exec(c) {
                Some(d) => {
                    assert(all_digits(s@.take(i + 1)));
                    if acc > (u64::MAX - d) / 10 {
                        ok = false;
                        proof {
                            assert(digits_value(s@.take(i + 1)) == acc * 10 + d);
                            assert(acc * 10 + d > u64::MAX) by (nonlinear_arith)
                                requires acc > (u64::MAX - d) / 10, d < 10;
                            if all_digits(s@) {
                                lemma_digits_value_mono(s@, i + 1);
                            }
                        }
                    } else {
                        assert(acc * 10 + d <= u64::MAX) by (nonlinear_arith)
                            requires acc <= (u64::MAX - d) / 10, d < 10;
                        acc = acc * 10 + d;
                    }
                }
                None => {
                    ok = false;
                    assert(char_digit(s@[i]) is None);
                }
            }
        }
    }
    assert(s@.take(s@.len() as int) =~= s@);
    if ok && !s.is_empty() {
        Some(acc)
    } else {
        None
    }
}

/// `items` joined with `sep` between consecutive items.
pub open spec fn join_spec(items: Seq<Seq<char>>, sep: Seq<char>) -> Seq<char>
    decreases items.len(),
{
    if items.len() == 0 {
        Seq::empty()
    } else if items.len() == 1 {
        items[0]
    } else {
        join_spec(items.drop_last(), sep) + sep + items.last()
    }
}

/// Joins strings with a separator, as `[..].join(sep)` does.
pub fn join(items: &Vec<String>, sep: &str) -> (r: String)
    ensures
        r@ == join_spec(items@.map_values(|s: String| s@), sep@),
{
    let ghost views = items@.map_values(|s: String| s@);
    let mut out = String::new();
    let mut i: usize = 0;
    while i < items.len()
        invariant
            i <= items@.len(),
            views == items@.map_values(|s: String| s@),
            out@ == join_spec(views.take(i as int), sep@),
        decreases items@.len() - i,
    {
        assert(views.take(i + 1).drop_last() =~= views.take(i as int));
        if i > 0 {
            append(&mut out, sep);
        }
        append(&mut out, items[i].as_str());
        proof {
            if i == 0 {
                assert(out@ =~= views.take(1)[0]);
            }
        }
        i = i + 1;
    }
    assert(views.take(items@.len() as int) =~= views);
    out
}

} // verus!
