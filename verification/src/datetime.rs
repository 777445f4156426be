//! Minute-precision timestamps with an explicit fixed UTC offset, their
//! textual codec, and the day-rollover reconstruction of bare "HH:MM" times.
//!
//! The codec accepts `YYYY-MM-DDTHH:MM±HH:MM`, the same with seconds (which
//! are truncated), a trailing `Z` in place of `+00:00`, and a bare date
//! followed directly by an offset (the time of day defaults to 00:00).
//! An omitted offset is an error; so is an invalid calendar value.

use vstd::prelude::*;

use crate::text::{
    all_digits, contains_sub, digit_char, digit_val, digits_val, is_digit, is_digit_c,
    spec_find, spec_trim, digit_char_c, find_sub, parse_digits_u32, to_chars, trim_chars,
    chars_to_string, has_sub, lemma_find_bounds, copy_range,
};

verus! {

/// A point in time with minute precision and an explicit fixed UTC offset.
#[derive(Debug, Clone, Copy, PartialEq, Eq, Hash, Structural)]
pub struct DateTimeMinute {
    /// Calendar year, 0 ..= 9999.
    pub year: i32,
    /// Calendar month, 1 ..= 12.
    pub month: u32,
    /// Day of month, 1 ..= days of that month.
    pub day: u32,
    /// Hour of day, 0 ..= 23.
    pub hour: u32,
    /// Minute of hour, 0 ..= 59.
    pub minute: u32,
    /// UTC offset in minutes, -1439 ..= 1439.
    pub offset_minutes: i32,
}

/// A year with 366 days.
pub open spec fn is_leap_year(y: int) -> bool {
    y % 4 == 0 && (y % 100 != 0 || y % 400 == 0)
}

/// Number of days of month `m` of year `y`.
pub open spec fn days_in_month(y: int, m: int) -> int {
    if m == 2 {
        if is_leap_year(y) {
            29
        } else {
            28
        }
    } else if m == 4 || m == 6 || m == 9 || m == 11 {
        30
    } else {
        31
    }
}

pub fn days_in_month_c(y: i32, m: u32) -> (r: u32)
    ensures
        r == days_in_month(y as int, m as int),
{
    if m == 2 {
        if y % 4 == 0 && (y % 100 != 0 || y % 400 == 0) {
            29
        } else {
            28
        }
    } else if m == 4 || m == 6 || m == 9 || m == 11 {
        30
    } else {
        31
    }
}

impl DateTimeMinute {
    /// All fields within calendar range, the offset expressible as `±HH:MM`.
    pub open spec fn wf(self) -> bool {
        &&& 0 <= self.year <= 9999
        &&& 1 <= self.month <= 12
        &&& 1 <= self.day <= days_in_month(self.year as int, self.month as int)
        &&& self.hour <= 23
        &&& self.minute <= 59
        &&& -1439 <= self.offset_minutes <= 1439
    }

    /// The time of day `self` falls strictly before the time of day of `other`.
    pub open spec fn time_before(self, other: DateTimeMinute) -> bool {
        self.hour < other.hour || (self.hour == other.hour && self.minute < other.minute)
    }

    /// Whether every field is within calendar range; the executable test of
    /// `wf`, for callers outside verified code.
    pub fn is_wf(&self) -> (r: bool)
        ensures
            r == self.wf(),
    {
        0 <= self.year && self.year <= 9999 && 1 <= self.month && self.month <= 12 && 1 <= self.day
            && self.day <= days_in_month_c(self.year, self.month) && self.hour <= 23 && self.minute
            <= 59 && -1439 <= self.offset_minutes && self.offset_minutes <= 1439
    }
}

/// An error from decoding a timestamp string.
#[derive(Debug, Clone, Copy, PartialEq, Eq, Structural)]
pub enum CodecError {
    /// The string carries no trailing offset or `Z` marker.
    TimezoneRequired,
    /// The string has an offset in place but is otherwise malformed.
    InvalidFormat,
}

impl CodecError {
    /// A short human-readable description of the error.
    pub fn as_str(&self) -> (r: &'static str)
        ensures
            *self is TimezoneRequired ==> r@ == "timezone is required"@,
            *self is InvalidFormat ==> r@ == "invalid date-time format"@,
    {
        match self {
            CodecError::TimezoneRequired => "timezone is required",
            CodecError::InvalidFormat => "invalid date-time format",
        }
    }
}

/// Two-digit zero-padded decimal rendering of `n` (for 0 ..= 99).
pub open spec fn pad2(n: int) -> Seq<char> {
    seq![digit_char(n / 10), digit_char(n % 10)]
}

/// Four-digit zero-padded decimal rendering of `n` (for 0 ..= 9999).
pub open spec fn pad4(n: int) -> Seq<char> {
    seq![
        digit_char(n / 1000),
        digit_char((n / 100) % 10),
        digit_char((n / 10) % 10),
        digit_char(n % 10),
    ]
}

/// The textual form of an offset in minutes: `+HH:MM` or `-HH:MM`.
pub open spec fn offset_str(off: int) -> Seq<char> {
    let a = if off >= 0 {
        off
    } else {
        -off
    };
    (if off >= 0 {
        seq!['+']
    } else {
        seq!['-']
    }) + pad2(a / 60) + seq![':'] + pad2(a % 60)
}

/// The canonical textual form of a timestamp: `YYYY-MM-DDTHH:MM±HH:MM`.
pub open spec fn encode_spec(x: DateTimeMinute) -> Seq<char> {
    pad4(x.year as int) + seq!['-'] + pad2(x.month as int) + seq!['-'] + pad2(x.day as int)
        + seq!['T'] + pad2(x.hour as int) + seq![':'] + pad2(x.minute as int) + offset_str(
        x.offset_minutes as int,
    )
}

fn push_pad2(v: &mut Vec<char>, n: u32)
    requires
        n <= 99,
    ensures
        final(v)@ == old(v)@ + pad2(n as int),
{
    v.push(digit_char_c(n / 10));
    v.push(digit_char_c(n % 10));
    proof {
        assert(v@ =~= old(v)@ + pad2(n as int));
    }
}

/// Formats `x` in the canonical `YYYY-MM-DDTHH:MM±HH:MM` form.
pub fn encode(x: &DateTimeMinute) -> (r: String)
    requires
        x.wf(),
    ensures
        r@ == encode_spec(*x),
{
    let mut v: Vec<char> = Vec::new();
    let y = x.year as u32;
    v.push(digit_char_c(y / 1000));
    v.push(digit_char_c((y / 100) % 10));
    v.push(digit_char_c((y / 10) % 10));
    v.push(digit_char_c(y % 10));
    v.push('-');
    push_pad2(&mut v, x.month);
    v.push('-');
    push_pad2(&mut v, x.day);
    v.push('T');
    push_pad2(&mut v, x.hour);
    v.push(':');
    push_pad2(&mut v, x.minute);
    let off = x.offset_minutes;
    let a: u32 = if off >= 0 {
        off as u32
    } else {
        (-off) as u32
    };
    v.push(if off >= 0 {
        '+'
    } else {
        '-'
    });
    push_pad2(&mut v, a / 60);
    v.push(':');
    push_pad2(&mut v, a % 60);
    proof {
        assert(v@ =~= encode_spec(*x));
    }
    chars_to_string(&v)
}

/// A `Z` suffix replaced by `+00:00`; any other string unchanged.
pub open spec fn z_norm(s: Seq<char>) -> Seq<char> {
    if s.len() > 0 && s.last() == 'Z' {
        s.drop_last() + seq!['+', '0', '0', ':', '0', '0']
    } else {
        s
    }
}

/// The calendar date `YYYY-MM-DD` read at position `i`, if well-formed.
pub open spec fn date_at(s: Seq<char>, i: int) -> Option<(int, int, int)> {
    if i + 10 <= s.len() && is_digit(s[i]) && is_digit(s[i + 1]) && is_digit(s[i + 2]) && is_digit(
        s[i + 3],
    ) && s[i + 4] == '-' && is_digit(s[i + 5]) && is_digit(s[i + 6]) && s[i + 7] == '-' && is_digit(
        s[i + 8],
    ) && is_digit(s[i + 9]) {
        let y = digit_val(s[i]) * 1000 + digit_val(s[i + 1]) * 100 + digit_val(s[i + 2]) * 10
            + digit_val(s[i + 3]);
        let mo = digit_val(s[i + 5]) * 10 + digit_val(s[i + 6]);
        let d = digit_val(s[i + 8]) * 10 + digit_val(s[i + 9]);
        if 1 <= mo <= 12 && 1 <= d <= days_in_month(y, mo) {
            Some((y, mo, d))
        } else {
            None
        }
    } else {
        None
    }
}

/// The time of day `HH:MM` read at position `i`, if valid.
pub open spec fn time_at(s: Seq<char>, i: int) -> Option<(int, int)> {
    if i + 5 <= s.len() && is_digit(s[i]) && is_digit(s[i + 1]) && s[i + 2] == ':' && is_digit(
        s[i + 3],
    ) && is_digit(s[i + 4]) {
        let h = digit_val(s[i]) * 10 + digit_val(s[i + 1]);
        let m = digit_val(s[i + 3]) * 10 + digit_val(s[i + 4]);
        if h <= 23 && m <= 59 {
            Some((h, m))
        } else {
            None
        }
    } else {
        None
    }
}

/// The offset `±HH:MM` read at position `i`, in minutes, if valid.
pub open spec fn offset_at(s: Seq<char>, i: int) -> Option<int> {
    if i + 6 <= s.len() && (s[i] == '+' || s[i] == '-') && is_digit(s[i + 1]) && is_digit(
        s[i + 2],
    ) && s[i + 3] == ':' && is_digit(s[i + 4]) && is_digit(s[i + 5]) {
        let hh = digit_val(s[i + 1]) * 10 + digit_val(s[i + 2]);
        let mm = digit_val(s[i + 4]) * 10 + digit_val(s[i + 5]);
        if hh <= 23 && mm <= 59 {
            Some(
                if s[i] == '+' {
                    hh * 60 + mm
                } else {
                    -(hh * 60 + mm)
                },
            )
        } else {
            None
        }
    } else {
        None
    }
}

/// A full date-time with minute precision: `YYYY-MM-DDTHH:MM±HH:MM`.
pub open spec fn full_minute_at(t: Seq<char>) -> Option<DateTimeMinute> {
    if t.len() == 22 && date_at(t, 0) is Some && t[10] == 'T' && time_at(t, 11) is Some
        && offset_at(t, 16) is Some {
        let (y, mo, d) = date_at(t, 0)->0;
        let (h, mi) = time_at(t, 11)->0;
        Some(
            DateTimeMinute {
                year: y as i32,
                month: mo as u32,
                day: d as u32,
                hour: h as u32,
                minute: mi as u32,
                offset_minutes: offset_at(t, 16)->0 as i32,
            },
        )
    } else {
        None
    }
}

/// A full date-time with seconds, `YYYY-MM-DDTHH:MM:SS±HH:MM`; the seconds
/// must be a valid count (0 ..= 59) and are truncated away.
pub open spec fn full_second_at(t: Seq<char>) -> Option<DateTimeMinute> {
    if t.len() == 25 && date_at(t, 0) is Some && t[10] == 'T' && time_at(t, 11) is Some && t[16]
        == ':' && is_digit(t[17]) && is_digit(t[18]) && digit_val(t[17]) * 10 + digit_val(t[18])
        <= 59 && offset_at(t, 19) is Some {
        let (y, mo, d) = date_at(t, 0)->0;
        let (h, mi) = time_at(t, 11)->0;
        Some(
            DateTimeMinute {
                year: y as i32,
                month: mo as u32,
                day: d as u32,
                hour: h as u32,
                minute: mi as u32,
                offset_minutes: offset_at(t, 19)->0 as i32,
            },
        )
    } else {
        None
    }
}

/// A bare date followed directly by an offset: `YYYY-MM-DD±HH:MM`; the time
/// of day defaults to 00:00.
pub open spec fn date_offset_at(t: Seq<char>) -> Option<DateTimeMinute> {
    if t.len() == 16 && date_at(t, 0) is Some && offset_at(t, 10) is Some {
        let (y, mo, d) = date_at(t, 0)->0;
        Some(
            DateTimeMinute {
                year: y as i32,
                month: mo as u32,
                day: d as u32,
                hour: 0,
                minute: 0,
                offset_minutes: offset_at(t, 10)->0 as i32,
            },
        )
    } else {
        None
    }
}

/// What `decode` returns on the characters `s`.
pub open spec fn decode_spec(s: Seq<char>) -> Result<DateTimeMinute, CodecError> {
    let t = z_norm(s);
    match full_minute_at(t) {
        Some(x) => Ok(x),
        None => match full_second_at(t) {
            Some(x) => Ok(x),
            None => if t.len() > 10 && (t[10] == '+' || t[10] == '-') {
                match date_offset_at(t) {
                    Some(x) => Ok(x),
                    None => Err(CodecError::InvalidFormat),
                }
            } else {
                Err(CodecError::TimezoneRequired)
            },
        },
    }
}

/// Law: decoding a string that ends in `Z` gives the same result as decoding
/// the string with the final `Z` replaced by `+00:00`.
pub proof fn lemma_decode_z_suffix(s: Seq<char>)
    requires
        s.len() > 0,
        s.last() == 'Z',
    ensures
        decode_spec(s) == decode_spec(s.drop_last() + seq!['+', '0', '0', ':', '0', '0']),
{
    let t = s.drop_last() + seq!['+', '0', '0', ':', '0', '0'];
    assert(t.last() == '0');
    assert(z_norm(t) == t);
    assert(z_norm(s) == t);
}

/// Law: a bare date followed directly by an offset decodes exactly like the
/// same date with an explicit `T00:00` time of day, and the decoded time of
/// day is midnight.
pub proof fn lemma_date_only_is_midnight(d: Seq<char>, off: Seq<char>)
    requires
        d.len() == 10,
        off.len() == 6,
        date_at(d, 0) is Some,
        offset_at(off, 0) is Some,
    ensures
        decode_spec(d + off) == decode_spec(d + seq!['T', '0', '0', ':', '0', '0'] + off),
        decode_spec(d + off) is Ok,
        decode_spec(d + off)->Ok_0.hour == 0,
        decode_spec(d + off)->Ok_0.minute == 0,
{
    let s1 = d + off;
    let s2 = d + seq!['T', '0', '0', ':', '0', '0'] + off;
    assert(s1.len() == 16);
    assert(s2.len() == 22);
    assert forall|i: int| 0 <= i < 10 implies s1[i] == d[i] && s2[i] == d[i] by {}
    assert forall|i: int| 0 <= i < 6 implies s1[10 + i] == off[i] && s2[16 + i] == off[i] by {}
    assert(s2[10] == 'T');
    assert(s2[11] == '0');
    assert(s2[12] == '0');
    assert(s2[13] == ':');
    assert(s2[14] == '0');
    assert(s2[15] == '0');
    // neither string ends in `Z`: the offset's last character is a digit
    assert(is_digit(off[5]));
    assert(s1.last() == off[5] && s2.last() == off[5]);
    assert(z_norm(s1) == s1);
    assert(z_norm(s2) == s2);
    assert(date_at(s1, 0) == date_at(d, 0));
    assert(date_at(s2, 0) == date_at(d, 0));
    assert(offset_at(s1, 10) == offset_at(off, 0));
    assert(offset_at(s2, 16) == offset_at(off, 0));
    assert(time_at(s2, 11) == Some((0int, 0int)));
    assert(full_minute_at(s1) is None);
    assert(full_second_at(s1) is None);
    assert(full_second_at(s2) is None);
    assert(date_offset_at(s1) is Some);
    assert(full_minute_at(s2) is Some);
    assert(full_minute_at(s2) == date_offset_at(s1));
}

/// Law: decoding the canonical encoding of a well-formed timestamp yields
/// that timestamp again.
#[verifier::rlimit(100)]
pub proof fn lemma_decode_encode(x: DateTimeMinute)
    requires
        x.wf(),
    ensures
        decode_spec(encode_spec(x)) == Ok::<DateTimeMinute, CodecError>(x),
{
    let e = encode_spec(x);
    let y = x.year as int;
    let mo = x.month as int;
    let d = x.day as int;
    let h = x.hour as int;
    let mi = x.minute as int;
    let off = x.offset_minutes as int;
    let a = if off >= 0 {
        off
    } else {
        -off
    };
    crate::text::lemma_digit_char(y / 1000);
    crate::text::lemma_digit_char((y / 100) % 10);
    crate::text::lemma_digit_char((y / 10) % 10);
    crate::text::lemma_digit_char(y % 10);
    crate::text::lemma_digit_char(mo / 10);
    crate::text::lemma_digit_char(mo % 10);
    crate::text::lemma_digit_char(d / 10);
    crate::text::lemma_digit_char(d % 10);
    crate::text::lemma_digit_char(h / 10);
    crate::text::lemma_digit_char(h % 10);
    crate::text::lemma_digit_char(mi / 10);
    crate::text::lemma_digit_char(mi % 10);
    crate::text::lemma_digit_char((a / 60) / 10);
    crate::text::lemma_digit_char((a / 60) % 10);
    crate::text::lemma_digit_char((a % 60) / 10);
    crate::text::lemma_digit_char((a % 60) % 10);
    assert(e.len() == 22);
    assert(e[0] == digit_char(y / 1000));
    assert(e[1] == digit_char((y / 100) % 10));
    assert(e[2] == digit_char((y / 10) % 10));
    assert(e[3] == digit_char(y % 10));
    assert(e[4] == '-');
    assert(e[5] == digit_char(mo / 10));
    assert(e[6] == digit_char(mo % 10));
    assert(e[7] == '-');
    assert(e[8] == digit_char(d / 10));
    assert(e[9] == digit_char(d % 10));
    assert(e[10] == 'T');
    assert(e[11] == digit_char(h / 10));
    assert(e[12] == digit_char(h % 10));
    assert(e[13] == ':');
    assert(e[14] == digit_char(mi / 10));
    assert(e[15] == digit_char(mi % 10));
    assert(e[16] == (if off >= 0 {
        '+'
    } else {
        '-'
    }));
    assert(e[17] == digit_char((a / 60) / 10));
    assert(e[18] == digit_char((a / 60) % 10));
    assert(e[19] == ':');
    assert(e[20] == digit_char((a % 60) / 10));
    assert(e[21] == digit_char((a % 60) % 10));
    assert(is_digit(e[21]));
    assert(e.last() != 'Z');
    assert(z_norm(e) == e);
    assert(y == (y / 1000) * 1000 + ((y / 100) % 10) * 100 + ((y / 10) % 10) * 10 + y % 10);
    assert(mo == (mo / 10) * 10 + mo % 10);
    assert(d == (d / 10) * 10 + d % 10);
    assert(date_at(e, 0) == Some((y, mo, d)));
    assert(h == (h / 10) * 10 + h % 10);
    assert(mi == (mi / 10) * 10 + mi % 10);
    assert(time_at(e, 11) == Some((h, mi)));
    assert(a / 60 <= 23 && a % 60 <= 59);
    assert(a == (a / 60) * 60 + a % 60);
    assert(((a / 60) / 10) * 10 + (a / 60) % 10 == a / 60);
    assert(((a % 60) / 10) * 10 + (a % 60) % 10 == a % 60);
    assert(offset_at(e, 16) == Some(off));
    assert(full_minute_at(e) == Some(x));
}

fn num2_c(v: &Vec<char>, i: usize) -> (r: u32)
    requires
        i + 2 <= v@.len(),
        v@.len() <= usize::MAX,
        is_digit(v@[i as int]),
        is_digit(v@[i as int + 1]),
    ensures
        r == digit_val(v@[i as int]) * 10 + digit_val(v@[i as int + 1]),
        r <= 99,
{
    let a = (v[i] as u32) - 48;
    let b = (v[i + 1] as u32) - 48;
    a * 10 + b
}

fn try_date_at(v: &Vec<char>, i: usize) -> (r: Option<(i32, u32, u32)>)
    requires
        i + 10 <= v@.len(),
        v@.len() <= usize::MAX,
    ensures
        match r {
            Some((y, mo, d)) => date_at(v@, i as int) == Some((y as int, mo as int, d as int)),
            None => date_at(v@, i as int) is None,
        },
{
    let s = v;
    if !(is_digit_c(s[i]) && is_digit_c(s[i + 1]) && is_digit_c(s[i + 2]) && is_digit_c(s[i + 3])
        && s[i + 4] == '-' && is_digit_c(s[i + 5]) && is_digit_c(s[i + 6]) && s[i + 7] == '-'
        && is_digit_c(s[i + 8]) && is_digit_c(s[i + 9])) {
        return None;
    }
    let y = ((s[i] as u32) - 48) * 1000 + ((s[i + 1] as u32) - 48) * 100 + ((s[i + 2] as u32) - 48)
        * 10 + ((s[i + 3] as u32) - 48);
    let mo = num2_c(v, i + 5);
    let d = num2_c(v, i + 8);
    if 1 <= mo && mo <= 12 && 1 <= d && d <= days_in_month_c(y as i32, mo) {
        Some((y as i32, mo, d))
    } else {
        None
    }
}

fn try_time_at(v: &Vec<char>, i: usize) -> (r: Option<(u32, u32)>)
    requires
        i + 5 <= v@.len(),
        v@.len() <= usize::MAX,
    ensures
        match r {
            Some((h, m)) => time_at(v@, i as int) == Some((h as int, m as int)),
            None => time_at(v@, i as int) is None,
        },
{
    let s = v;
    if !(is_digit_c(s[i]) && is_digit_c(s[i + 1]) && s[i + 2] == ':' && is_digit_c(s[i + 3])
        && is_digit_c(s[i + 4])) {
        return None;
    }
    let h = num2_c(v, i);
    let m = num2_c(v, i + 3);
    if h <= 23 && m <= 59 {
        Some((h, m))
    } else {
        None
    }
}

fn try_offset_at(v: &Vec<char>, i: usize) -> (r: Option<i32>)
    requires
        i + 6 <= v@.len(),
        v@.len() <= usize::MAX,
    ensures
        match r {
            Some(off) => offset_at(v@, i as int) == Some(off as int),
            None => offset_at(v@, i as int) is None,
        },
{
    let s = v;
    if !((s[i] == '+' || s[i] == '-') && is_digit_c(s[i + 1]) && is_digit_c(s[i + 2]) && s[i + 3]
        == ':' && is_digit_c(s[i + 4]) && is_digit_c(s[i + 5])) {
        return None;
    }
    let hh = num2_c(v, i + 1);
    let mm = num2_c(v, i + 4);
    if hh <= 23 && mm <= 59 {
        let total = (hh * 60 + mm) as i32;
        if s[i] == '+' {
            Some(total)
        } else {
            Some(-total)
        }
    } else {
        None
    }
}

fn try_full_minute(v: &Vec<char>) -> (r: Option<DateTimeMinute>)
    ensures
        r == full_minute_at(v@),
{
    if v.len() != 22 {
        return None;
    }
    let date = try_date_at(v, 0);
    if date.is_none() || v[10] != 'T' {
        return None;
    }
    let time = try_time_at(v, 11);
    if time.is_none() {
        return None;
    }
    let off = try_offset_at(v, 16);
    if off.is_none() {
        return None;
    }
    let (y, mo, d) = date.unwrap();
    let (h, mi) = time.unwrap();
    Some(
        DateTimeMinute {
            year: y,
            month: mo,
            day: d,
            hour: h,
            minute: mi,
            offset_minutes: off.unwrap(),
        },
    )
}

fn try_full_second(v: &Vec<char>) -> (r: Option<DateTimeMinute>)
    ensures
        r == full_second_at(v@),
{
    if v.len() != 25 {
        return None;
    }
    let date = try_date_at(v, 0);
    if date.is_none() || v[10] != 'T' {
        return None;
    }
    let time = try_time_at(v, 11);
    if time.is_none() {
        return None;
    }
    if v[16] != ':' || !is_digit_c(v[17]) || !is_digit_c(v[18]) {
        return None;
    }
    let sec = num2_c(v, 17);
    if sec > 59 {
        return None;
    }
    let off = try_offset_at(v, 19);
    if off.is_none() {
        return None;
    }
    let (y, mo, d) = date.unwrap();
    let (h, mi) = time.unwrap();
    Some(
        DateTimeMinute {
            year: y,
            month: mo,
            day: d,
            hour: h,
            minute: mi,
            offset_minutes: off.unwrap(),
        },
    )
}

fn try_date_offset(v: &Vec<char>) -> (r: Option<DateTimeMinute>)
    ensures
        r == date_offset_at(v@),
{
    if v.len() != 16 {
        return None;
    }
    let date = try_date_at(v, 0);
    if date.is_none() {
        return None;
    }
    let off = try_offset_at(v, 10);
    if off.is_none() {
        return None;
    }
    let (y, mo, d) = date.unwrap();
    Some(
        DateTimeMinute {
            year: y,
            month: mo,
            day: d,
            hour: 0,
            minute: 0,
            offset_minutes: off.unwrap(),
        },
    )
}

/// Parses a timestamp string; see the module description for the accepted
/// forms. A decoded value always satisfies `wf`.
pub fn decode(s: &str) -> (r: Result<DateTimeMinute, CodecError>)
    ensures
        r == decode_spec(s@),
        r matches Ok(x) ==> x.wf(),
{
    let mut v = to_chars(s);
    if v.len() > 0 && v[v.len() - 1] == 'Z' {
        v.pop();
        v.push('+');
        v.push('0');
        v.push('0');
        v.push(':');
        v.push('0');
        v.push('0');
        proof {
            assert(v@ =~= z_norm(s@));
        }
    } else {
        proof {
            assert(v@ =~= z_norm(s@));
        }
    }
    if let Some(x) = try_full_minute(&v) {
        return Ok(x);
    }
    if let Some(x) = try_full_second(&v) {
        return Ok(x);
    }
    if v.len() > 10 && (v[10] == '+' || v[10] == '-') {
        match try_date_offset(&v) {
            Some(x) => Ok(x),
            None => Err(CodecError::InvalidFormat),
        }
    } else {
        Err(CodecError::TimezoneRequired)
    }
}

/// The date one calendar day after the date of `x`, with the time-of-day and
/// offset fields carried over unchanged; `None` past the supported range.
pub open spec fn spec_next_day(x: DateTimeMinute) -> Option<DateTimeMinute> {
    if x.day < days_in_month(x.year as int, x.month as int) {
        Some(DateTimeMinute { day: (x.day + 1) as u32, ..x })
    } else if x.month < 12 {
        Some(DateTimeMinute { month: (x.month + 1) as u32, day: 1, ..x })
    } else if x.year < 9999 {
        Some(DateTimeMinute { year: (x.year + 1) as i32, month: 1, day: 1, ..x })
    } else {
        None
    }
}

/// Advances `x` by one calendar day.
pub fn next_day(x: &DateTimeMinute) -> (r: Option<DateTimeMinute>)
    requires
        x.wf(),
    ensures
        r == spec_next_day(*x),
        r matches Some(y) ==> y.wf(),
{
    if x.day < days_in_month_c(x.year, x.month) {
        Some(DateTimeMinute { day: x.day + 1, ..*x })
    } else if x.month < 12 {
        Some(DateTimeMinute { month: x.month + 1, day: 1, ..*x })
    } else if x.year < 9999 {
        Some(DateTimeMinute { year: x.year + 1, month: 1, day: 1, ..*x })
    } else {
        None
    }
}

/// The hour and minute of a bare `HH:MM` string: exactly one `:`, both parts
/// nonempty runs of digits after trimming, hour 0 ..= 23, minute 0 ..= 59.
pub open spec fn spec_parse_hhmm(s: Seq<char>) -> Option<(u32, u32)> {
    match spec_find(s, seq![':']) {
        None => None,
        Some(i) => {
            let rest = s.subrange(i + 1, s.len() as int);
            if contains_sub(rest, seq![':']) {
                None
            } else {
                let p1 = spec_trim(s.subrange(0, i));
                let p2 = spec_trim(rest);
                if p1.len() > 0 && all_digits(p1) && p2.len() > 0 && all_digits(p2) {
                    let h = digits_val(p1);
                    let m = digits_val(p2);
                    if h <= 23 && m <= 59 {
                        Some((h as u32, m as u32))
                    } else {
                        None
                    }
                } else {
                    None
                }
            }
        },
    }
}

fn all_digits_c(v: &Vec<char>) -> (r: bool)
    ensures
        r == all_digits(v@),
{
    let mut i: usize = 0;
    while i < v.len()
        invariant
            i <= v@.len(),
            forall|j: int| 0 <= j < i ==> is_digit(#[trigger] v@[j]),
        decreases v@.len() - i,
    {
        if !is_digit_c(v[i]) {
            return false;
        }
        i = i + 1;
    }
    true
}

/// Parses a bare `HH:MM` time-of-day string.
pub fn parse_hhmm(s: &str) -> (r: Option<(u32, u32)>)
    ensures
        r == spec_parse_hhmm(s@),
        r matches Some((h, m)) ==> h <= 23 && m <= 59,
{
    let v = to_chars(s);
    let n = v.len();
    let mut colon: Vec<char> = Vec::new();
    colon.push(':');
    proof {
        assert(colon@ =~= seq![':']);
    }
    let i = match find_sub(&v, &colon) {
        None => {
            return None;
        },
        Some(i) => i,
    };
    proof {
        lemma_find_bounds(v@, colon@, i as int);
    }
    let rest = copy_range(&v, i + 1, n);
    if has_sub(&rest, &colon) {
        return None;
    }
    let head = copy_range(&v, 0, i);
    let p1 = trim_chars(&head);
    let p2 = trim_chars(&rest);
    if p1.len() == 0 || p2.len() == 0 || !all_digits_c(&p1) || !all_digits_c(&p2) {
        return None;
    }
    let h = match parse_digits_u32(&p1) {
        None => {
            proof {
                crate::text::lemma_digits_val_bounds(p1@);
            }
            return None;
        },
        Some(h) => h,
    };
    let m = match parse_digits_u32(&p2) {
        None => {
            proof {
                crate::text::lemma_digits_val_bounds(p2@);
            }
            return None;
        },
        Some(m) => m,
    };
    proof {
        crate::text::lemma_digits_val_bounds(p1@);
        crate::text::lemma_digits_val_bounds(p2@);
    }
    if h <= 23 && m <= 59 {
        Some((h, m))
    } else {
        None
    }
}

/// The reconstruction of a bare `HH:MM` string against a running cursor:
/// anchored to the date of `last` when present (advancing one day when the
/// new time of day is strictly earlier), else to the date of `base`; the
/// offset is always taken from `base`.
pub open spec fn spec_rollover(
    base: DateTimeMinute,
    time_str: Seq<char>,
    last: Option<DateTimeMinute>,
) -> Option<DateTimeMinute> {
    match spec_parse_hhmm(time_str) {
        None => None,
        Some((h, m)) => {
            let anchor = match last {
                Some(p) => p,
                None => base,
            };
            let cand = DateTimeMinute {
                year: anchor.year,
                month: anchor.month,
                day: anchor.day,
                hour: h,
                minute: m,
                offset_minutes: base.offset_minutes,
            };
            if last is Some && cand.time_before(anchor) {
                spec_next_day(cand)
            } else {
                Some(cand)
            }
        },
    }
}

/// Places a bare `HH:MM` time on a calendar date, rolling over to the next
/// day when the route crosses midnight; see `spec_rollover`.
pub fn time_on_date_with_rollover(
    base: &DateTimeMinute,
    time_str: &str,
    last: Option<DateTimeMinute>,
) -> (r: Option<DateTimeMinute>)
    requires
        base.wf(),
        last matches Some(p) ==> p.wf(),
    ensures
        r == spec_rollover(*base, time_str@, last),
        r matches Some(y) ==> y.wf(),
{
    let (h, m) = match parse_hhmm(time_str) {
        None => {
            return None;
        },
        Some(hm) => hm,
    };
    let anchor = match last {
        Some(p) => p,
        None => *base,
    };
    let cand = DateTimeMinute {
        year: anchor.year,
        month: anchor.month,
        day: anchor.day,
        hour: h,
        minute: m,
        offset_minutes: base.offset_minutes,
    };
    if last.is_some() && (cand.hour < anchor.hour || (cand.hour == anchor.hour && cand.minute
        < anchor.minute)) {
        next_day(&cand)
    } else {
        Some(cand)
    }
}

} // verus!
