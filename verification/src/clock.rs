//! Clock-style rendering of a remaining time: `MM:SS` under an hour,
//! `HH:MM:SS` (hours widening past two digits as needed) otherwise.

use vstd::prelude::*;
use vstd::string::StringExecFns;
use crate::duration::{Dur, NANOS_PER_SEC};

verus! {

/// The character for a single decimal digit.
pub open spec fn digit_char(d: nat) -> char {
    if d == 0 { '0' }
    else if d == 1 { '1' }
    else if d == 2 { '2' }
    else if d == 3 { '3' }
    else if d == 4 { '4' }
    else if d == 5 { '5' }
    else if d == 6 { '6' }
    else if d == 7 { '7' }
    else if d == 8 { '8' }
    else { '9' }
}

pub open spec fn is_digit(c: char) -> bool {
    c == '0' || c == '1' || c == '2' || c == '3' || c == '4'
    || c == '5' || c == '6' || c == '7' || c == '8' || c == '9'
}

/// The numeric value of a decimal digit character.
pub open spec fn digit_val(c: char) -> nat {
    if c == '0' { 0 }
    else if c == '1' { 1 }
    else if c == '2' { 2 }
    else if c == '3' { 3 }
    else if c == '4' { 4 }
    else if c == '5' { 5 }
    else if c == '6' { 6 }
    else if c == '7' { 7 }
    else if c == '8' { 8 }
    else { 9 }
}

/// The decimal digits of `n`, most significant first, no leading zeros
/// (a single `'0'` for zero itself).
pub open spec fn dec_digits(n: nat) -> Seq<char>
    decreases n,
{
    if n < 10 {
        seq![digit_char(n)]
    } else {
        dec_digits(n / 10).push(digit_char(n % 10))
    }
}

/// The numeric value a digit string denotes.
pub open spec fn dec_value(s: Seq<char>) -> nat
    decreases s.len(),
{
    if s.len() == 0 {
        0
    } else {
        dec_value(s.drop_last()) * 10 + digit_val(s.last())
    }
}

/// The decimal digits of `n`, zero-padded on the left to at least two.
pub open spec fn pad2(n: nat) -> Seq<char> {
    if n < 10 {
        seq!['0'] + dec_digits(n)
    } else {
        dec_digits(n)
    }
}

/// The rendered text for a remaining time of `total_secs` whole seconds.
pub open spec fn clock_text(total_secs: nat) -> Seq<char> {
    let h = total_secs / 3600;
    let m = (total_secs / 60) % 60;
    let s = total_secs % 60;
    if h > 0 {
        pad2(h) + seq![':'] + pad2(m) + seq![':'] + pad2(s)
    } else {
        pad2(m) + seq![':'] + pad2(s)
    }
}

/// Every decimal rendering is nonempty and made of digit characters only,
/// one digit for numbers under ten, at most two under a hundred.
pub proof fn lemma_dec_digits_shape(n: nat)
    ensures
        dec_digits(n).len() >= 1,
        forall|i: int| 0 <= i < dec_digits(n).len() ==> is_digit(#[trigger] dec_digits(n)[i]),
        n < 10 ==> dec_digits(n).len() == 1,
        n < 100 ==> dec_digits(n).len() <= 2,
        n >= 10 ==> dec_digits(n).len() >= 2,
    decreases n,
{
    if n >= 10 {
        lemma_dec_digits_shape(n / 10);
        assert(dec_digits(n) == dec_digits(n / 10).push(digit_char(n % 10)));
    }
}

/// Reading the digits back gives the number: the decimal rendering is
/// faithful.
pub proof fn lemma_dec_digits_value(n: nat)
    ensures
        dec_value(dec_digits(n)) == n,
    decreases n,
{
    if n < 10 {
        assert(dec_digits(n) == seq![digit_char(n)]);
        assert(dec_digits(n).drop_last() =~= Seq::<char>::empty());
        assert(dec_value(Seq::<char>::empty()) == 0);
        assert(dec_digits(n).last() == digit_char(n));
        assert(digit_val(digit_char(n)) == n);
    } else {
        lemma_dec_digits_value(n / 10);
        assert(dec_digits(n).drop_last() =~= dec_digits(n / 10));
        assert(dec_digits(n).last() == digit_char(n % 10));
        assert(digit_val(digit_char(n % 10)) == n % 10);
        vstd::arithmetic::div_mod::lemma_fundamental_div_mod(n as int, 10);
    }
}

/// The padded rendering is at least two digits, exactly two under a
/// hundred, digits only, and still reads back as the number.
pub proof fn lemma_pad2_shape(n: nat)
    ensures
        pad2(n).len() >= 2,
        n < 100 ==> pad2(n).len() == 2,
        forall|i: int| 0 <= i < pad2(n).len() ==> is_digit(#[trigger] pad2(n)[i]),
        dec_value(pad2(n)) == n,
{
    lemma_dec_digits_shape(n);
    lemma_dec_digits_value(n);
    if n < 10 {
        let s = pad2(n);
        assert(s.len() == 2);
        assert(s[0] == '0');
        assert(s[1] == dec_digits(n)[0]);
        assert(s.drop_last() =~= seq!['0']);
        assert(seq!['0'].drop_last() =~= Seq::<char>::empty());
        assert(dec_value(Seq::<char>::empty()) == 0);
        assert(dec_value(seq!['0']) == dec_value(Seq::<char>::empty()) * 10 + digit_val('0'));
        assert(s.last() == digit_char(n));
        assert(digit_val(digit_char(n)) == n);
    } else {
        assert(pad2(n) == dec_digits(n));
    }
}

/// Shape of the rendered clock text. With no whole hour it is exactly
/// `MM:SS`: five characters, two digits on each side of a colon. With a
/// whole hour it is `HH:MM:SS`, the hours part at least two digits wide,
/// digits only, and reading back as exactly the whole hours — which equal
/// the whole minutes divided by sixty.
pub proof fn lemma_clock_text_shape(total_secs: nat)
    ensures
        total_secs / 3600 == (total_secs / 60) / 60,
        total_secs / 3600 == 0 ==> {
            let s = clock_text(total_secs);
            &&& s.len() == 5
            &&& is_digit(s[0]) && is_digit(s[1]) && s[2] == ':' && is_digit(s[3]) && is_digit(s[4])
        },
        total_secs / 3600 > 0 ==> {
            let s = clock_text(total_secs);
            let hlen = s.len() - 6;
            &&& s.len() >= 8
            &&& hlen >= 2
            &&& (forall|i: int| 0 <= i < hlen ==> is_digit(#[trigger] s[i]))
            &&& s[hlen] == ':'
            &&& is_digit(s[hlen + 1]) && is_digit(s[hlen + 2])
            &&& s[hlen + 3] == ':'
            &&& is_digit(s[hlen + 4]) && is_digit(s[hlen + 5])
            &&& dec_value(s.subrange(0, hlen)) == total_secs / 3600
            &&& dec_value(s.subrange(0, hlen)) == (total_secs / 60) / 60
        },
{
    vstd::arithmetic::div_mod::lemma_div_denominator(total_secs as int, 60, 60);
    let h = total_secs / 3600;
    let m = (total_secs / 60) % 60;
    let sec = total_secs % 60;
    lemma_pad2_shape(h);
    lemma_pad2_shape(m);
    lemma_pad2_shape(sec);
    assert(m < 60 && sec < 60);
    let s = clock_text(total_secs);
    if h > 0 {
        let hlen = pad2(h).len() as int;
        assert(s == pad2(h) + seq![':'] + pad2(m) + seq![':'] + pad2(sec));
        assert(s.len() == hlen + 6);
        assert(s.subrange(0, hlen) =~= pad2(h));
        assert(forall|i: int| 0 <= i < hlen ==> #[trigger] s[i] == pad2(h)[i]);
        assert(s[hlen] == ':');
        assert(s[hlen + 1] == pad2(m)[0] && s[hlen + 2] == pad2(m)[1]);
        assert(s[hlen + 3] == ':');
        assert(s[hlen + 4] == pad2(sec)[0] && s[hlen + 5] == pad2(sec)[1]);
    } else {
        assert(s == pad2(m) + seq![':'] + pad2(sec));
        assert(s.len() == 5);
        assert(s[0] == pad2(m)[0] && s[1] == pad2(m)[1]);
        assert(s[2] == ':');
        assert(s[3] == pad2(sec)[0] && s[4] == pad2(sec)[1]);
    }
}

fn digit_str(d: u64) -> (r: &'static str)
    requires
        d < 10,
    ensures
        r@ == seq![digit_char(d as nat)],
{
    proof {
        reveal_strlit("0");
        reveal_strlit("1");
        reveal_strlit("2");
        reveal_strlit("3");
        reveal_strlit("4");
        reveal_strlit("5");
        reveal_strlit("6");
        reveal_strlit("7");
        reveal_strlit("8");
        reveal_strlit("9");
    }
    let r: &'static str = match d {
        0 => "0",
        1 => "1",
        2 => "2",
        3 => "3",
        4 => "4",
        5 => "5",
        6 => "6",
        7 => "7",
        8 => "8",
        _ => "9",
    };
    proof {
        assert(r@ =~= seq![digit_char(d as nat)]);
    }
    r
}

/// The decimal digits of `n`, most significant first.
fn u64_digits(n: u64) -> (r: String)
    ensures
        r@ == dec_digits(n as nat),
    decreases n,
{
    if n < 10 {
        let mut s = String::new();
        s.append(digit_str(n));
        proof {
            assert(s@ =~= dec_digits(n as nat));
        }
        s
    } else {
        let mut s = u64_digits(n / 10);
        s.append(digit_str(n % 10));
        proof {
            assert(s@ =~= dec_digits(n as nat));
        }
        s
    }
}

/// The decimal digits of `n`, zero-padded on the left to at least two.
fn pad2_str(n: u64) -> (r: String)
    ensures
        r@ == pad2(n as nat),
{
    if n < 10 {
        let mut s = String::new();
        proof {
            reveal_strlit("0");
        }
        s.append("0");
        let d = u64_digits(n);
        s.append(d.as_str());
        proof {
            assert(s@ =~= pad2(n as nat));
        }
        s
    } else {
        u64_digits(n)
    }
}

/// The terminal form of a rendered line: a carriage return first, so the
/// new text overwrites the previous line in place.
pub fn carriage_return_line(text: &str) -> (r: String)
    ensures
        r@ == seq!['\r'] + text@,
{
    proof {
        reveal_strlit("\r");
    }
    let mut s = String::new();
    s.append("\r");
    s.append(text);
    proof {
        assert(s@ =~= seq!['\r'] + text@);
    }
    s
}

/// Renders a duration for display, truncated to whole seconds: minutes and
/// seconds always two digits; hours shown only when nonzero, at least two
/// digits wide and unbounded above.
pub fn format_duration(d: &Dur) -> (r: String)
    requires
        d.wf(),
    ensures
        r@ == clock_text(d@ / (NANOS_PER_SEC as nat)),
{
    let total = d.as_secs();
    let seconds = total % 60;
    let minutes = (total / 60) % 60;
    let hours = (total / 60) / 60;
    proof {
        vstd::arithmetic::div_mod::lemma_div_denominator(total as int, 60, 60);
        assert(hours == (total as nat) / 3600);
        reveal_strlit(":");
    }
    if hours > 0 {
        let mut s = pad2_str(hours);
        s.append(":");
        let m = pad2_str(minutes);
        s.append(m.as_str());
        s.append(":");
        let sec = pad2_str(seconds);
        s.append(sec.as_str());
        proof {
            assert(s@ =~= clock_text(d@ / (NANOS_PER_SEC as nat)));
        }
        s
    } else {
        let mut s = pad2_str(minutes);
        s.append(":");
        let sec = pad2_str(seconds);
        s.append(sec.as_str());
        proof {
            assert(s@ =~= clock_text(d@ / (NANOS_PER_SEC as nat)));
        }
        s
    }
}

} // verus!
