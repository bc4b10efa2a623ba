//! A local date and time of day, held as plain numbers, with the text forms
//! that task files, comments, journals and reviews use.
use vstd::prelude::*;
use vstd::slice::slice_subrange;
use crate::text::{
    all_digits, digit_value, is_digit, lemma_dec_len, lemma_padded, padded, parse_digits, pow10,
    push_all, push_padded, value_of,
};
use chrono::Datelike;
use chrono::Timelike;

verus! {

/// A local date and time of day, to the second.
#[derive(Clone, Copy, Debug, PartialEq, Eq, Structural)]
pub struct Stamp {
    pub year: i32,
    pub month: u32,
    pub day: u32,
    pub hour: u32,
    pub minute: u32,
    pub second: u32,
}

impl Stamp {
    /// Every field is within the range of a calendar date and a time of day.
    pub open spec fn wf(&self) -> bool {
        &&& 1 <= self.month <= 12
        &&& 1 <= self.day <= 31
        &&& self.hour < 24
        &&& self.minute < 60
        &&& self.second < 60
    }

    /// The same day at midnight.
    pub open spec fn midnight(&self) -> Stamp {
        Stamp { hour: 0, minute: 0, second: 0, ..*self }
    }

    /// The time the local clock shows now.
    pub fn now() -> (r: Stamp)
        ensures
            r.wf(),
    {
        local_now()
    }

    /// The same day at midnight.
    pub fn start_of_day(&self) -> (r: Stamp)
        ensures
            r == self.midnight(),
    {
        Stamp { hour: 0, minute: 0, second: 0, ..*self }
    }
}

/// Relies on `chrono::Local::now` and the `Datelike`/`Timelike` getters,
/// which give a month in 1..=12, a day in 1..=31, an hour in 0..=23 and a
/// minute and a second in 0..=59.
#[verifier::external_body]
fn local_now() -> (r: Stamp)
    ensures
        r.wf(),
{
    let n = chrono::Local::now();
    Stamp {
        year: n.year(),
        month: n.month(),
        day: n.day(),
        hour: n.hour(),
        minute: n.minute(),
        second: n.second(),
    }
}

/// `v` in decimal with a leading `-` when negative, the digits padded with
/// zeros so that the whole takes at least `w` characters.
pub open spec fn signed_text(v: int, w: nat) -> Seq<char> {
    if v < 0 {
        seq!['-'] + padded((-v) as nat, if w >= 1 { (w - 1) as nat } else { 0 })
    } else {
        padded(v as nat, w)
    }
}

/// Appends `v` as `signed_text` writes it.
pub fn push_signed(out: &mut Vec<char>, v: i32, w: usize)
    ensures
        final(out)@ == old(out)@ + signed_text(v as int, w as nat),
{
    if v < 0 {
        out.push('-');
        let m: u64 = (-(v as i64)) as u64;
        let pw: usize = if w >= 1 { w - 1 } else { 0 };
        push_padded(out, m, pw);
        assert(final(out)@ == old(out)@ + signed_text(v as int, w as nat));
    } else {
        push_padded(out, v as u64, w);
    }
}

/// The stored form `YYYY-MM-DD HH:MM:SS`.
pub open spec fn stamp_text(s: Stamp) -> Seq<char> {
    signed_text(s.year as int, 4) + seq!['-'] + padded(s.month as nat, 2) + seq!['-'] + padded(
        s.day as nat,
        2,
    ) + seq![' '] + padded(s.hour as nat, 2) + seq![':'] + padded(s.minute as nat, 2) + seq![':']
        + padded(s.second as nat, 2)
}

/// The value of the two digits at `i` and `i + 1`.
pub open spec fn two_at(s: Seq<char>, i: int) -> nat {
    digit_value(s[i]) * 10 + digit_value(s[i + 1])
}

pub open spec fn digits_at(s: Seq<char>, i: int) -> bool {
    is_digit(s[i]) && is_digit(s[i + 1])
}

/// A year as `signed_text` writes it, with at most ten digits.
pub open spec fn parse_year(t: Seq<char>) -> Option<i32> {
    if t.len() >= 1 && t[0] == '-' {
        let d = t.skip(1);
        if 1 <= d.len() <= 10 && all_digits(d) && value_of(d) <= 0x8000_0000 {
            Some((-(value_of(d) as int)) as i32)
        } else {
            None
        }
    } else if 1 <= t.len() <= 10 && all_digits(t) && value_of(t) <= 0x7fff_ffff {
        Some(value_of(t) as i32)
    } else {
        None
    }
}

/// Reads `YYYY-MM-DD HH:MM:SS`, the year of any length and sign; the other
/// fields must be two digits each and within the ranges of `Stamp::wf`.
pub open spec fn parse_stamp(s: Seq<char>) -> Option<Stamp> {
    let n = s.len();
    if n < 16 {
        None
    } else {
        let t = s.skip(n - 15);
        let y = parse_year(s.take(n - 15));
        if t[0] == '-' && t[3] == '-' && t[6] == ' ' && t[9] == ':' && t[12] == ':' && digits_at(
            t,
            1,
        ) && digits_at(t, 4) && digits_at(t, 7) && digits_at(t, 10) && digits_at(t, 13)
            && y is Some {
            let st = Stamp {
                year: y->0,
                month: two_at(t, 1) as u32,
                day: two_at(t, 4) as u32,
                hour: two_at(t, 7) as u32,
                minute: two_at(t, 10) as u32,
                second: two_at(t, 13) as u32,
            };
            if st.wf() {
                Some(st)
            } else {
                None
            }
        } else {
            None
        }
    }
}

/// Appends the stored form of `s`.
pub fn push_stamp(out: &mut Vec<char>, s: Stamp)
    ensures
        final(out)@ == old(out)@ + stamp_text(s),
{
    let mut t: Vec<char> = Vec::new();
    push_signed(&mut t, s.year, 4);
    let ghost a = signed_text(s.year as int, 4);
    assert(t@ == a);
    t.push('-');
    push_padded(&mut t, s.month as u64, 2);
    let ghost a = a + seq!['-'] + padded(s.month as nat, 2);
    assert(t@ == a);
    t.push('-');
    push_padded(&mut t, s.day as u64, 2);
    let ghost a = a + seq!['-'] + padded(s.day as nat, 2);
    assert(t@ == a);
    t.push(' ');
    push_padded(&mut t, s.hour as u64, 2);
    let ghost a = a + seq![' '] + padded(s.hour as nat, 2);
    assert(t@ == a);
    t.push(':');
    push_padded(&mut t, s.minute as u64, 2);
    let ghost a = a + seq![':'] + padded(s.minute as nat, 2);
    assert(t@ == a);
    t.push(':');
    push_padded(&mut t, s.second as u64, 2);
    let ghost a = a + seq![':'] + padded(s.second as nat, 2);
    assert(t@ == a);
    push_all(out, t.as_slice());
}

fn two_exec(t: &[char], i: usize) -> (r: Option<u32>)
    requires
        i + 1 < t@.len(),
    ensures
        r is Some <==> digits_at(t@, i as int),
        r matches Some(v) ==> v as nat == two_at(t@, i as int),
{
    let a = t[i];
    let b = t[i + 1];
    if '0' <= a && a <= '9' && '0' <= b && b <= '9' {
        Some((a as u32 - '0' as u32) * 10 + (b as u32 - '0' as u32))
    } else {
        None
    }
}

fn parse_year_exec(t: &[char]) -> (r: Option<i32>)
    ensures
        r == parse_year(t@),
{
    if t.len() >= 1 && t[0] == '-' {
        let d = slice_subrange(t, 1, t.len());
        assert(d@ == t@.skip(1));
        if d.len() > 10 {
            return None;
        }
        match parse_digits(d) {
            Some(v) => {
                if v <= 0x8000_0000 {
                    Some((-(v as i64)) as i32)
                } else {
                    None
                }
            },
            None => None,
        }
    } else {
        if t.len() > 10 {
            return None;
        }
        match parse_digits(t) {
            Some(v) => {
                if v <= 0x7fff_ffff {
                    Some(v as i32)
                } else {
                    None
                }
            },
            None => None,
        }
    }
}

/// Reads the stored form of a stamp.
pub fn parse_stamp_exec(s: &[char]) -> (r: Option<Stamp>)
    ensures
        r == parse_stamp(s@),
{
    let n = s.len();
    if n < 16 {
        return None;
    }
    let t = slice_subrange(s, n - 15, n);
    let yt = slice_subrange(s, 0, n - 15);
    assert(t@ == s@.skip(n - 15));
    assert(yt@ == s@.take(n - 15));
    if !(t[0] == '-' && t[3] == '-' && t[6] == ' ' && t[9] == ':' && t[12] == ':') {
        return None;
    }
    let y = parse_year_exec(yt);
    let mo = two_exec(t, 1);
    let d = two_exec(t, 4);
    let h = two_exec(t, 7);
    let mi = two_exec(t, 10);
    let se = two_exec(t, 13);
    match (y, mo, d, h, mi, se) {
        (Some(y), Some(mo), Some(d), Some(h), Some(mi), Some(se)) => {
            let st = Stamp { year: y, month: mo, day: d, hour: h, minute: mi, second: se };
            if 1 <= mo && mo <= 12 && 1 <= d && d <= 31 && h < 24 && mi < 60 && se < 60 {
                Some(st)
            } else {
                None
            }
        },
        _ => None,
    }
}

proof fn lemma_two(m: nat)
    requires
        m < 100,
    ensures
        padded(m, 2).len() == 2,
        digits_at(padded(m, 2), 0),
        two_at(padded(m, 2), 0) == m,
{
    let p = padded(m, 2);
    lemma_padded(m, 2);
    assert(pow10(2) == 100) by {
        reveal_with_fuel(pow10, 3);
    }
    lemma_dec_len(m, 2);
    assert(p.len() == 2);
    assert(p.drop_last().drop_last().len() == 0);
    assert(value_of(p.drop_last()) == digit_value(p[0]));
    assert(is_digit(p[0]) && is_digit(p[1]));
}

proof fn lemma_year(y: i32)
    ensures
        parse_year(signed_text(y as int, 4)) == Some(y),
        signed_text(y as int, 4).len() >= 1,
{
    if y < 0 {
        let m = (-(y as int)) as nat;
        lemma_padded(m, 3);
        let t = signed_text(y as int, 4);
        assert(t.skip(1) == padded(m, 3));
    } else {
        lemma_padded(y as nat, 4);
        let t = padded(y as nat, 4);
        assert(is_digit(t[0]));
    }
}

/// Reading the stored form of a well-formed stamp gives the stamp back.
pub proof fn lemma_stamp_round_trip(s: Stamp)
    requires
        s.wf(),
    ensures
        parse_stamp(stamp_text(s)) == Some(s),
        stamp_text(s).len() >= 16,
{
    lemma_year(s.year);
    lemma_two(s.month as nat);
    lemma_two(s.day as nat);
    lemma_two(s.hour as nat);
    lemma_two(s.minute as nat);
    lemma_two(s.second as nat);
    let ys = signed_text(s.year as int, 4);
    let x = stamp_text(s);
    let n = x.len();
    assert(n == ys.len() + 15);
    assert(x.take(n - 15) == ys);
    let t = x.skip(n - 15);
    let mo = padded(s.month as nat, 2);
    let d = padded(s.day as nat, 2);
    let h = padded(s.hour as nat, 2);
    let mi = padded(s.minute as nat, 2);
    let se = padded(s.second as nat, 2);
    assert(t == seq!['-'] + mo + seq!['-'] + d + seq![' '] + h + seq![':'] + mi + seq![':'] + se);
    assert(t[1] == mo[0] && t[2] == mo[1]);
    assert(t[4] == d[0] && t[5] == d[1]);
    assert(t[7] == h[0] && t[8] == h[1]);
    assert(t[10] == mi[0] && t[11] == mi[1]);
    assert(t[13] == se[0] && t[14] == se[1]);
}

/// The hour on a twelve-hour clock face: 12, then 1 to 11.
pub open spec fn hour12(h: u32) -> nat {
    if h % 12 == 0 {
        12
    } else {
        (h % 12) as nat
    }
}

/// `MM/DD/YYYY HH:MM AM`, as comment and creation entries show a time.
pub open spec fn clock_text(s: Stamp) -> Seq<char> {
    padded(s.month as nat, 2) + seq!['/'] + padded(s.day as nat, 2) + seq!['/'] + signed_text(
        s.year as int,
        2,
    ) + seq![' '] + padded(hour12(s.hour), 2) + seq![':'] + padded(s.minute as nat, 2) + seq![
        ' ',
    ] + if s.hour >= 12 {
        seq!['P', 'M']
    } else {
        seq!['A', 'M']
    }
}

/// `MM<sep>DD<sep>YYYY`, as journal and review names and headings show a day.
pub open spec fn day_text(s: Stamp, sep: char) -> Seq<char> {
    padded(s.month as nat, 2) + seq![sep] + padded(s.day as nat, 2) + seq![sep] + signed_text(
        s.year as int,
        1,
    )
}

/// Appends `clock_text(s)`.
pub fn push_clock(out: &mut Vec<char>, s: Stamp)
    ensures
        final(out)@ == old(out)@ + clock_text(s),
{
    let mut t: Vec<char> = Vec::new();
    push_padded(&mut t, s.month as u64, 2);
    t.push('/');
    push_padded(&mut t, s.day as u64, 2);
    t.push('/');
    let ghost a = padded(s.month as nat, 2) + seq!['/'] + padded(s.day as nat, 2) + seq!['/'];
    assert(t@ == a);
    push_signed(&mut t, s.year, 2);
    t.push(' ');
    let ghost a = a + signed_text(s.year as int, 2) + seq![' '];
    assert(t@ == a);
    let h: u32 = if s.hour % 12 == 0 { 12 } else { s.hour % 12 };
    push_padded(&mut t, h as u64, 2);
    t.push(':');
    let ghost a = a + padded(hour12(s.hour), 2) + seq![':'];
    assert(t@ == a);
    push_padded(&mut t, s.minute as u64, 2);
    t.push(' ');
    let ghost a = a + padded(s.minute as nat, 2) + seq![' '];
    assert(t@ == a);
    if s.hour >= 12 {
        t.push('P');
    } else {
        t.push('A');
    }
    t.push('M');
    assert(t@ == clock_text(s));
    push_all(out, t.as_slice());
}

/// Appends `day_text(s, sep)`.
pub fn push_day(out: &mut Vec<char>, s: Stamp, sep: char)
    ensures
        final(out)@ == old(out)@ + day_text(s, sep),
{
    let mut t: Vec<char> = Vec::new();
    push_padded(&mut t, s.month as u64, 2);
    t.push(sep);
    push_padded(&mut t, s.day as u64, 2);
    t.push(sep);
    let ghost a = padded(s.month as nat, 2) + seq![sep] + padded(s.day as nat, 2) + seq![sep];
    assert(t@ == a);
    push_signed(&mut t, s.year, 1);
    assert(t@ == day_text(s, sep));
    push_all(out, t.as_slice());
}

/// The English name of month `m` (1 is January), empty for any other number.
pub open spec fn month_name(m: u32) -> Seq<char> {
    if m == 1 {
        "January"@
    } else if m == 2 {
        "February"@
    } else if m == 3 {
        "March"@
    } else if m == 4 {
        "April"@
    } else if m == 5 {
        "May"@
    } else if m == 6 {
        "June"@
    } else if m == 7 {
        "July"@
    } else if m == 8 {
        "August"@
    } else if m == 9 {
        "September"@
    } else if m == 10 {
        "October"@
    } else if m == 11 {
        "November"@
    } else if m == 12 {
        "December"@
    } else {
        seq![]
    }
}

/// Relies on `FromPrimitive::from_u32` for `chrono::Month` (1 to 12, else
/// `None`) and `chrono::Month::name`, which gives the English name.
#[verifier::external_body]
pub(crate) fn month_name_of(m: u32) -> (r: String)
    ensures
        r@ == month_name(m),
{
    match <chrono::Month as num_traits::FromPrimitive>::from_u32(m) {
        Some(month) => month.name().to_string(),
        None => String::new(),
    }
}

/// A month number in two digits.
pub open spec fn padded_month(m: u32) -> Seq<char> {
    padded(m as nat, 2)
}

} // verus!
