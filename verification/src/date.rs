//! Calendar dates as plain year, month and day, written `YYYY-MM-DD`.
use vstd::prelude::*;
use crate::codec::{QUOTE, is_digit};

verus! {

pub const DASH: u8 = 45;

#[derive(Clone, Copy, Debug, PartialEq, Eq, Structural)]
pub struct Date {
    pub year: u32,
    pub month: u32,
    pub day: u32,
}

pub open spec fn is_leap_year(y: int) -> bool {
    y % 4 == 0 && (y % 100 != 0 || y % 400 == 0)
}

pub open spec fn days_in_month(y: int, m: int) -> int {
    if m == 2 {
        if is_leap_year(y) {
            29
        } else {
            28
        }
    } else if m == 4 || m == 6 || m == 9 || m == 11 {
        30
    } else {
        31
    }
}

/// A well-formed calendar date that the `YYYY-MM-DD` form can carry.
pub open spec fn date_valid(d: Date) -> bool {
    d.year <= 9999 && 1 <= d.month <= 12 && 1 <= d.day <= days_in_month(
        d.year as int,
        d.month as int,
    )
}

/// A single integer that orders dates chronologically.
pub open spec fn date_key(d: Date) -> int {
    d.year * 10000 + d.month * 100 + d.day
}

impl Date {
    pub fn new(year: u32, month: u32, day: u32) -> (r: Option<Date>)
        ensures
            match r {
                Some(d) => d == (Date { year, month, day }) && date_valid(d),
                None => !date_valid(Date { year, month, day }),
            },
    {
        let d = Date { year, month, day };
        if date_valid_exec(&d) {
            Some(d)
        } else {
            None
        }
    }

    /// Chronological comparison.
    pub fn le(&self, other: &Date) -> (r: bool)
        requires
            date_valid(*self),
            date_valid(*other),
        ensures
            r == (date_key(*self) <= date_key(*other)),
    {
        if self.year != other.year {
            self.year < other.year
        } else if self.month != other.month {
            self.month < other.month
        } else {
            self.day <= other.day
        }
    }
}

pub fn date_valid_exec(d: &Date) -> (r: bool)
    ensures
        r == date_valid(*d),
{
    if d.year > 9999 || d.month < 1 || d.month > 12 || d.day < 1 {
        return false;
    }
    let dim: u32 = if d.month == 2 {
        if d.year % 4 == 0 && (d.year % 100 != 0 || d.year % 400 == 0) {
            29
        } else {
            28
        }
    } else if d.month == 4 || d.month == 6 || d.month == 9 || d.month == 11 {
        30
    } else {
        31
    };
    d.day <= dim
}

/// The ten bytes `YYYY-MM-DD`, zero padded.
pub open spec fn enc_date(d: Date) -> Seq<u8> {
    seq![
        (48 + d.year / 1000) as u8,
        (48 + (d.year / 100) % 10) as u8,
        (48 + (d.year / 10) % 10) as u8,
        (48 + d.year % 10) as u8,
        DASH,
        (48 + d.month / 10) as u8,
        (48 + d.month % 10) as u8,
        DASH,
        (48 + d.day / 10) as u8,
        (48 + d.day % 10) as u8,
    ]
}

/// Reads `YYYY-MM-DD` at `i`; fails on a malformed or invalid date.
pub open spec fn sp_date(s: Seq<u8>, i: int) -> Option<(Date, int)> {
    if 0 <= i && i + 10 <= s.len() && is_digit(s[i]) && is_digit(s[i + 1]) && is_digit(s[i + 2])
        && is_digit(s[i + 3]) && s[i + 4] == DASH && is_digit(s[i + 5]) && is_digit(s[i + 6]) && s[i
        + 7] == DASH && is_digit(s[i + 8]) && is_digit(s[i + 9]) {
        let y = (s[i] - 48) * 1000 + (s[i + 1] - 48) * 100 + (s[i + 2] - 48) * 10 + (s[i + 3] - 48);
        let m = (s[i + 5] - 48) * 10 + (s[i + 6] - 48);
        let dd = (s[i + 8] - 48) * 10 + (s[i + 9] - 48);
        let d = Date { year: y as u32, month: m as u32, day: dd as u32 };
        if date_valid(d) {
            Some((d, i + 10))
        } else {
            None
        }
    } else {
        None
    }
}

/// Reading a written date returns it.
proof fn lemma_digits2(v: int)
    requires
        0 <= v <= 99,
    ensures
        (v / 10) * 10 + v % 10 == v,
{
}

proof fn lemma_digits4(v: int)
    requires
        0 <= v <= 9999,
    ensures
        (v / 1000) * 1000 + ((v / 100) % 10) * 100 + ((v / 10) % 10) * 10 + v % 10 == v,
{
    assert((v / 1000) * 1000 + ((v / 100) % 10) * 100 + ((v / 10) % 10) * 10 + v % 10 == v)
        by (nonlinear_arith)
        requires
            0 <= v <= 9999,
    ;
}

#[verifier::rlimit(50)]
pub proof fn lemma_sp_date_inverts(s: Seq<u8>, pre: Seq<u8>, d: Date, rest: Seq<u8>)
    requires
        s == pre + enc_date(d) + rest,
        date_valid(d),
    ensures
        sp_date(s, pre.len() as int) == Some::<(Date, int)>((d, pre.len() as int + 10)),
{
    let i = pre.len() as int;
    let e = enc_date(d);
    assert(s[i] == e[0] && s[i + 1] == e[1] && s[i + 2] == e[2] && s[i + 3] == e[3]);
    assert(s[i + 4] == e[4] && s[i + 5] == e[5] && s[i + 6] == e[6]);
    assert(s[i + 7] == e[7] && s[i + 8] == e[8] && s[i + 9] == e[9]);
    let yy = d.year as int;
    let mm = d.month as int;
    let dd0 = d.day as int;
    assert(yy / 1000 <= 9 && (yy / 100) % 10 <= 9 && (yy / 10) % 10 <= 9 && yy % 10 <= 9);
    assert(mm / 10 <= 9 && mm % 10 <= 9 && dd0 / 10 <= 9 && dd0 % 10 <= 9);
    lemma_digits4(yy);
    lemma_digits2(mm);
    lemma_digits2(dd0);
    let y = (s[i] - 48) * 1000 + (s[i + 1] - 48) * 100 + (s[i + 2] - 48) * 10 + (s[i + 3] - 48);
    assert(y == yy);
    let m = (s[i + 5] - 48) * 10 + (s[i + 6] - 48);
    assert(m == mm);
    let dv = (s[i + 8] - 48) * 10 + (s[i + 9] - 48);
    assert(dv == dd0);
}

/// Appends the `YYYY-MM-DD` form of a valid date.
pub fn write_date(d: &Date, out: &mut Vec<u8>)
    requires
        date_valid(*d),
    ensures
        final(out)@ == old(out)@ + enc_date(*d),
{
    out.push(48 + (d.year / 1000) as u8);
    out.push(48 + ((d.year / 100) % 10) as u8);
    out.push(48 + ((d.year / 10) % 10) as u8);
    out.push(48 + (d.year % 10) as u8);
    out.push(DASH);
    out.push(48 + (d.month / 10) as u8);
    out.push(48 + (d.month % 10) as u8);
    out.push(DASH);
    out.push(48 + (d.day / 10) as u8);
    out.push(48 + (d.day % 10) as u8);
    proof {
        assert(out@ =~= old(out)@ + enc_date(*d));
    }
}

/// Reads a date at `i`; mirrors `sp_date`.
pub fn parse_date_at(s: &Vec<u8>, i: usize) -> (r: Option<(Date, usize)>)
    requires
        i <= s@.len(),
    ensures
        match r {
            Some((d, j)) => sp_date(s@, i as int) == Some((d, j as int)) && i < j <= s@.len(),
            None => sp_date(s@, i as int) is None,
        },
{
    if s.len() < 10 || i > s.len() - 10 {
        return None;
    }
    let b0 = s[i];
    let b1 = s[i + 1];
    let b2 = s[i + 2];
    let b3 = s[i + 3];
    let b5 = s[i + 5];
    let b6 = s[i + 6];
    let b8 = s[i + 8];
    let b9 = s[i + 9];
    if !(48 <= b0 && b0 <= 57 && 48 <= b1 && b1 <= 57 && 48 <= b2 && b2 <= 57 && 48 <= b3 && b3
        <= 57 && s[i + 4] == DASH && 48 <= b5 && b5 <= 57 && 48 <= b6 && b6 <= 57 && s[i + 7]
        == DASH && 48 <= b8 && b8 <= 57 && 48 <= b9 && b9 <= 57) {
        return None;
    }
    let y: u32 = (b0 - 48) as u32 * 1000 + (b1 - 48) as u32 * 100 + (b2 - 48) as u32 * 10 + (b3
        - 48) as u32;
    let m: u32 = (b5 - 48) as u32 * 10 + (b6 - 48) as u32;
    let dd: u32 = (b8 - 48) as u32 * 10 + (b9 - 48) as u32;
    let d = Date { year: y, month: m, day: dd };
    if date_valid_exec(&d) {
        Some((d, i + 10))
    } else {
        None
    }
}

/// Reads a whole byte string as a date, as a request path carries it.
pub fn parse_date(s: &Vec<u8>) -> (r: Option<Date>)
    ensures
        match r {
            Some(d) => sp_date(s@, 0) == Some((d, 10 as int)) && s@.len() == 10,
            None => s@.len() != 10 || sp_date(s@, 0) is None,
        },
{
    if s.len() != 10 {
        return None;
    }
    match parse_date_at(s, 0) {
        Some((d, _j)) => Some(d),
        None => None,
    }
}

/// The written date, quoted as a JSON string; digits and dashes need no
/// escaping.
pub open spec fn enc_date_str(d: Date) -> Seq<u8> {
    seq![QUOTE] + enc_date(d) + seq![QUOTE]
}

pub open spec fn sp_date_str(s: Seq<u8>, i: int) -> Option<(Date, int)> {
    if 0 <= i < s.len() && s[i] == QUOTE {
        match sp_date(s, i + 1) {
            None => None,
            Some((d, j)) => {
                if j < s.len() && s[j] == QUOTE {
                    Some((d, j + 1))
                } else {
                    None
                }
            },
        }
    } else {
        None
    }
}

pub proof fn lemma_sp_date_str_inverts(s: Seq<u8>, pre: Seq<u8>, d: Date, rest: Seq<u8>)
    requires
        s == pre + enc_date_str(d) + rest,
        date_valid(d),
    ensures
        sp_date_str(s, pre.len() as int) == Some::<(Date, int)>((d, pre.len() as int + 12)),
{
    let i = pre.len() as int;
    assert(s[i] == QUOTE);
    let pre2 = pre + seq![QUOTE];
    assert(s =~= pre2 + enc_date(d) + (seq![QUOTE] + rest));
    lemma_sp_date_inverts(s, pre2, d, seq![QUOTE] + rest);
    assert(s[i + 11] == QUOTE);
}

pub fn write_date_str(d: &Date, out: &mut Vec<u8>)
    requires
        date_valid(*d),
    ensures
        final(out)@ == old(out)@ + enc_date_str(*d),
{
    out.push(QUOTE);
    write_date(d, out);
    out.push(QUOTE);
    proof {
        assert(out@ =~= old(out)@ + enc_date_str(*d));
    }
}

pub fn parse_date_str(s: &Vec<u8>, i: usize) -> (r: Option<(Date, usize)>)
    requires
        i <= s@.len(),
    ensures
        match r {
            Some((d, j)) => sp_date_str(s@, i as int) == Some((d, j as int)) && i < j <= s@.len(),
            None => sp_date_str(s@, i as int) is None,
        },
{
    if i < s.len() && s[i] == QUOTE {
        match parse_date_at(s, i + 1) {
            None => None,
            Some((d, j)) => {
                if j < s.len() && s[j] == QUOTE {
                    Some((d, j + 1))
                } else {
                    None
                }
            },
        }
    } else {
        None
    }
}

} // verus!
