//! Dates: a date written as year, month and day is shown with the day first
//! and the month abbreviated, a full stop after each.
use vstd::prelude::*;
use crate::chars::{chars_of, push_all, push_str, string_of};
use crate::numbers::{decimal, parse_u8, read_u8, write_u8};
use crate::words::slice_of;

verus! {

/// A date as a field holds it: year, month and day with hyphens between them.
pub struct Date<'d>(pub &'d str);

/// The abbreviation of month `n`, for `n` from 1 to 12.
pub open spec fn month_abbrev(n: int) -> Seq<char> {
    if n == 1 {
        "jan"@
    } else if n == 2 {
        "fev"@
    } else if n == 3 {
        "mar"@
    } else if n == 4 {
        "abr"@
    } else if n == 5 {
        "mai"@
    } else if n == 6 {
        "jun"@
    } else if n == 7 {
        "jul"@
    } else if n == 8 {
        "ago"@
    } else if n == 9 {
        "set"@
    } else if n == 10 {
        "out"@
    } else if n == 11 {
        "nov"@
    } else {
        "dez"@
    }
}

/// The first place at or after `i` that holds a hyphen, or the length of `s`.
pub open spec fn part_end(s: Seq<char>, i: int) -> int
    decreases s.len() - i,
{
    if i < 0 || i >= s.len() {
        s.len() as int
    } else if s[i] == '-' {
        i
    } else {
        part_end(s, i + 1)
    }
}

/// The year of a date: what stands before its first hyphen.
pub open spec fn year_part(s: Seq<char>) -> Seq<char> {
    s.subrange(0, part_end(s, 0))
}

/// The month of a date: what stands between its first hyphen and its second,
/// where it is a number from 1 to 12.
pub open spec fn month_part(s: Seq<char>) -> Option<u8> {
    let a = part_end(s, 0);
    if a < s.len() {
        match parse_u8(s.subrange(a + 1, part_end(s, a + 1))) {
            Some(m) => if 1 <= m <= 12 {
                Some(m)
            } else {
                None
            },
            None => None,
        }
    } else {
        None
    }
}

/// The day of a date: what stands between its second hyphen and its third,
/// where it is a number below 256.
pub open spec fn day_part(s: Seq<char>) -> Option<u8> {
    let a = part_end(s, 0);
    let b = part_end(s, a + 1);
    if a < s.len() && b < s.len() {
        parse_u8(s.subrange(b + 1, part_end(s, b + 1)))
    } else {
        None
    }
}

/// A date as it is shown: the day and the month's abbreviation, each with a
/// full stop after it, and the year. A text in which the month or the day
/// cannot be read is shown as it is.
pub open spec fn date_text(s: Seq<char>) -> Seq<char> {
    match (month_part(s), day_part(s)) {
        (Some(m), Some(d)) => decimal(d as nat) + ". "@ + month_abbrev(m as int) + ". "@
            + year_part(s),
        _ => s,
    }
}

/// The abbreviation of month `n`.
fn lookup_month(n: u8) -> (name: Option<&'static str>)
    ensures
        1 <= n <= 12 ==> name.is_some() && name.unwrap()@ == month_abbrev(n as int),
        !(1 <= n <= 12) ==> name.is_none(),
{
    match n {
        1 => Some("jan"),
        2 => Some("fev"),
        3 => Some("mar"),
        4 => Some("abr"),
        5 => Some("mai"),
        6 => Some("jun"),
        7 => Some("jul"),
        8 => Some("ago"),
        9 => Some("set"),
        10 => Some("out"),
        11 => Some("nov"),
        12 => Some("dez"),
        _ => None,
    }
}

/// The first place at or after `from` that holds a hyphen.
fn find_part_end(s: &Vec<char>, from: usize) -> (at: usize)
    requires
        from <= s.len(),
    ensures
        at == part_end(s@, from as int),
        from <= at <= s.len(),
{
    let n = s.len();
    let mut i: usize = from;
    while i < n
        invariant
            from <= i <= n,
            n == s.len(),
            part_end(s@, from as int) == part_end(s@, i as int),
        decreases n - i,
    {
        if s[i] == '-' {
            return i;
        }
        i += 1;
    }
    n
}

/// A date as it is shown.
pub fn date_chars(s: &Vec<char>) -> (out: Vec<char>)
    ensures
        out@ == date_text(s@),
{
    let n = s.len();
    let a = find_part_end(s, 0);
    if a >= n {
        return s.clone();
    }
    let b = find_part_end(s, a + 1);
    let month = match read_u8(&slice_of(s, a + 1, b)) {
        Some(m) => lookup_month(m),
        None => None,
    };
    if b >= n {
        return s.clone();
    }
    let c = find_part_end(s, b + 1);
    let day = read_u8(&slice_of(s, b + 1, c));
    match (month, day) {
        (Some(name), Some(d)) => {
            let mut out = write_u8(d);
            push_str(&mut out, ". ");
            push_str(&mut out, name);
            push_str(&mut out, ". ");
            push_all(&mut out, &slice_of(s, 0, a));
            out
        },
        _ => s.clone(),
    }
}

impl<'d> Date<'d> {
    /// The date as it is shown.
    pub fn to_string(&self) -> (out: String)
        ensures
            out@ == date_text(self.0@),
    {
        string_of(&date_chars(&chars_of(self.0)))
    }
}

} // verus!
