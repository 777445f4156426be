//! Normalizing the provider's untyped JSON tree into typed itineraries:
//! per-route summaries, per-segment legs, the timestamp reconstruction with
//! day rollover, and the tolerant scalar parsers for localized text.

use vstd::prelude::*;
use vstd::string::StringExecFns;

use crate::TransitError;
use crate::datetime::{DateTimeMinute, days_in_month, days_in_month_c, spec_rollover, time_on_date_with_rollover};
use crate::json::Json;
use crate::text::{
    all_digits, contains_sub, copy_range, digits_val, filter_digits, find_sub, has_sub,
    lemma_digits_val_bounds, lemma_digits_val_upper, lemma_find_bounds, lemma_spec_digits_all,
    parse_digits_u32, parse_digits_u64, parse_u32_digits, pow10, remove_commas, remove_commas_c,
    spec_digits, spec_find, spec_trim, to_chars, trim_chars, chars_to_string,
};

verus! {

/// Summary info for a route; every field independently optional.
#[derive(Debug, Clone)]
pub struct RouteSummaryDto {
    pub departure_time: Option<DateTimeMinute>,
    pub arrival_time: Option<DateTimeMinute>,
    pub duration_minutes: Option<u32>,
    pub transfer_count: Option<u32>,
    pub total_price_yen: Option<u32>,
    /// Total distance in millimetres (a fixed-point stand-in for fractional
    /// kilometres: 12.3 km is 12_300_000).
    pub distance_mm: Option<u64>,
    pub is_fast: Option<bool>,
    pub is_easy: Option<bool>,
    pub is_cheap: Option<bool>,
}

/// A segment within a route (rail, walk, bus, etc.).
#[derive(Debug, Clone)]
pub struct SegmentDto {
    /// One of `rail`, `walk`, `bus`, `flight`, `ferry`, `unknown`.
    pub mode: String,
    pub from: String,
    pub to: String,
    pub line: Option<String>,
    pub destination: Option<String>,
    pub duration_minutes: Option<u32>,
    pub fare_yen: Option<u32>,
    pub departure_time: Option<DateTimeMinute>,
    pub arrival_time: Option<DateTimeMinute>,
}

/// The mathematical value of a `SegmentDto`.
pub ghost struct SegmentView {
    pub mode: Seq<char>,
    pub from: Seq<char>,
    pub to: Seq<char>,
    pub line: Option<Seq<char>>,
    pub destination: Option<Seq<char>>,
    pub duration_minutes: Option<u32>,
    pub fare_yen: Option<u32>,
    pub departure_time: Option<DateTimeMinute>,
    pub arrival_time: Option<DateTimeMinute>,
}

/// The view of an optional string.
pub open spec fn opt_view(o: Option<String>) -> Option<Seq<char>> {
    match o {
        Some(s) => Some(s@),
        None => None,
    }
}

impl View for SegmentDto {
    type V = SegmentView;

    open spec fn view(&self) -> SegmentView {
        SegmentView {
            mode: self.mode@,
            from: self.from@,
            to: self.to@,
            line: opt_view(self.line),
            destination: opt_view(self.destination),
            duration_minutes: self.duration_minutes,
            fare_yen: self.fare_yen,
            departure_time: self.departure_time,
            arrival_time: self.arrival_time,
        }
    }
}

/// A single route in the search result.
#[derive(Debug, Clone)]
pub struct RouteDto {
    /// 1-based position in the upstream feature list.
    pub rank: u32,
    pub summary: RouteSummaryDto,
    pub segments: Vec<SegmentDto>,
}

/// The mathematical value of a `RouteDto`.
pub ghost struct RouteView {
    pub rank: u32,
    pub summary: RouteSummaryDto,
    pub segments: Seq<SegmentView>,
}

impl View for RouteDto {
    type V = RouteView;

    open spec fn view(&self) -> RouteView {
        RouteView {
            rank: self.rank,
            summary: self.summary,
            segments: self.segments@.map_values(|s: SegmentDto| s@),
        }
    }
}

/// Parsed transit search result.
#[derive(Debug, Clone)]
pub struct TransitDto {
    pub from: String,
    pub to: String,
    pub search_date_time: Option<DateTimeMinute>,
    pub routes: Vec<RouteDto>,
}

/// The mathematical value of a `TransitDto`.
pub ghost struct TransitView {
    pub from: Seq<char>,
    pub to: Seq<char>,
    pub search_date_time: Option<DateTimeMinute>,
    pub routes: Seq<RouteView>,
}

impl View for TransitDto {
    type V = TransitView;

    open spec fn view(&self) -> TransitView {
        TransitView {
            from: self.from@,
            to: self.to@,
            search_date_time: self.search_date_time,
            routes: self.routes@.map_values(|r: RouteDto| r@),
        }
    }
}

/// An absent timestamp, or a present one with valid calendar fields.
pub open spec fn opt_wf(o: Option<DateTimeMinute>) -> bool {
    match o {
        Some(x) => x.wf(),
        None => true,
    }
}

/// Both summary timestamps absent or well-formed.
pub open spec fn summary_times_wf(s: RouteSummaryDto) -> bool {
    opt_wf(s.departure_time) && opt_wf(s.arrival_time)
}

/// Both segment timestamps absent or well-formed.
pub open spec fn segment_times_wf(s: SegmentView) -> bool {
    opt_wf(s.departure_time) && opt_wf(s.arrival_time)
}

/// Every timestamp present anywhere in the result carries valid calendar
/// fields and an explicit offset: the shape invariant of a normalized
/// result.
pub open spec fn result_times_wf(t: TransitView) -> bool {
    &&& opt_wf(t.search_date_time)
    &&& forall|i: int|
        0 <= i < t.routes.len() ==> summary_times_wf((#[trigger] t.routes[i]).summary)
    &&& forall|i: int, j: int|
        0 <= i < t.routes.len() && 0 <= j < t.routes[i].segments.len() ==> segment_times_wf(
            #[trigger] t.routes[i].segments[j],
        )
}

/// The trimmed characters of a string value, when nonempty: what tolerant
/// text extraction reads from a JSON node.
pub open spec fn spec_nonempty_str(j: Json) -> Option<Seq<char>> {
    match j.spec_str() {
        Some(s) => {
            let t = spec_trim(s);
            if t.len() == 0 {
                None
            } else {
                Some(t)
            }
        },
        None => None,
    }
}

/// The trimmed text of a string node, when nonempty.
pub fn as_nonempty_str(v: &Json) -> (r: Option<String>)
    ensures
        match r {
            Some(s) => spec_nonempty_str(*v) == Some(s@),
            None => spec_nonempty_str(*v) is None,
        },
{
    match v.as_str() {
        Some(s) => {
            let cs = to_chars(s.as_str());
            let t = trim_chars(&cs);
            if t.len() == 0 {
                None
            } else {
                Some(chars_to_string(&t))
            }
        },
        None => None,
    }
}

/// The unsigned integer read from the digit characters of `s`, every other
/// character ignored; absent when `s` has no digit or the value does not fit.
pub open spec fn spec_parse_u32_loose(s: Seq<char>) -> Option<u32> {
    parse_u32_digits(spec_digits(s))
}

/// Parses an unsigned integer leniently: all non-digit characters are
/// stripped and the remaining digit run is the value.
pub fn parse_u32_loose(s: &str) -> (r: Option<u32>)
    ensures
        r == spec_parse_u32_loose(s@),
{
    let v = to_chars(s);
    let d = filter_digits(&v);
    proof {
        lemma_spec_digits_all(v@);
    }
    parse_digits_u32(&d)
}

/// The minute count of a compact localized duration: hours before a
/// `時間` marker and minutes before a `分` marker, minutes-only allowed;
/// absent for any other form or when the count does not fit.
pub open spec fn spec_duration_minutes(s: Seq<char>) -> Option<u32> {
    match spec_find(s, "時間"@) {
        Some(i) => {
            let hd = spec_digits(s.subrange(0, i));
            if hd.len() == 0 || digits_val(hd) > u32::MAX {
                None
            } else {
                let rest = s.subrange(i + 2, s.len() as int);
                let m = match spec_find(rest, "分"@) {
                    Some(j) => {
                        let md = spec_digits(rest.subrange(0, j));
                        if md.len() == 0 {
                            Some(0int)
                        } else if digits_val(md) > u32::MAX {
                            None
                        } else {
                            Some(digits_val(md))
                        }
                    },
                    None => Some(0int),
                };
                match m {
                    None => None,
                    Some(mv) => if digits_val(hd) * 60 + mv > u32::MAX {
                        None
                    } else {
                        Some((digits_val(hd) * 60 + mv) as u32)
                    },
                }
            }
        },
        None => match spec_find(s, "分"@) {
            Some(j) => parse_u32_digits(spec_digits(s.subrange(0, j))),
            None => None,
        },
    }
}

/// Parses a localized duration such as `1時間2分`, `3時間` or `4分` into
/// minutes.
pub fn parse_ja_duration_minutes(s: &str) -> (r: Option<u32>)
    ensures
        r == spec_duration_minutes(s@),
{
    let v = to_chars(s);
    let hm = to_chars("時間");
    let fen = to_chars("分");
    proof {
        reveal_strlit("時間");
        reveal_strlit("分");
    }
    match find_sub(&v, &hm) {
        Some(i) => {
            proof {
                lemma_find_bounds(v@, hm@, i as int);
            }
            let head = copy_range(&v, 0, i);
            let hd = filter_digits(&head);
            proof {
                lemma_spec_digits_all(head@);
                lemma_digits_val_bounds(hd@);
            }
            if hd.len() == 0 {
                return None;
            }
            let hours = match parse_digits_u32(&hd) {
                None => {
                    return None;
                },
                Some(h) => h,
            };
            let n = v.len();
            let rest = copy_range(&v, i + 2, n);
            let minutes: u32 = match find_sub(&rest, &fen) {
                Some(j) => {
                    proof {
                        lemma_find_bounds(rest@, fen@, j as int);
                    }
                    let mhead = copy_range(&rest, 0, j);
                    let md = filter_digits(&mhead);
                    proof {
                        lemma_spec_digits_all(mhead@);
                        lemma_digits_val_bounds(md@);
                    }
                    if md.len() == 0 {
                        0
                    } else {
                        match parse_digits_u32(&md) {
                            None => {
                                return None;
                            },
                            Some(m) => m,
                        }
                    }
                },
                None => 0,
            };
            let total = hours as u64 * 60 + minutes as u64;
            if total > u32::MAX as u64 {
                None
            } else {
                Some(total as u32)
            }
        },
        None => {
            match find_sub(&v, &fen) {
                Some(j) => {
                    proof {
                        lemma_find_bounds(v@, fen@, j as int);
                    }
                    let mhead = copy_range(&v, 0, j);
                    let md = filter_digits(&mhead);
                    proof {
                        lemma_spec_digits_all(mhead@);
                    }
                    parse_digits_u32(&md)
                },
                None => None,
            }
        },
    }
}

/// An optional value capped to what fits a `u64`.
pub open spec fn cap_u64(o: Option<int>) -> Option<u64> {
    match o {
        Some(v) => if 0 <= v <= u64::MAX {
            Some(v as u64)
        } else {
            None
        },
        None => None,
    }
}

/// The value of a plain decimal numeral (digits, at most one point, not
/// empty), scaled by ten to the `k`: the fixed-point reading used for
/// distances. Absent when the text is not such a numeral or carries more
/// than `k` fractional digits.
pub open spec fn spec_decimal_scaled(s: Seq<char>, k: int) -> Option<int> {
    match spec_find(s, "."@) {
        Some(i) => {
            let ip = s.subrange(0, i);
            let fp = s.subrange(i + 1, s.len() as int);
            if contains_sub(fp, "."@) || !all_digits(ip) || !all_digits(fp) || (ip.len() == 0
                && fp.len() == 0) || fp.len() > k {
                None
            } else {
                Some(digits_val(ip) * pow10(k) + digits_val(fp) * pow10(k - fp.len()))
            }
        },
        None => if s.len() == 0 || !all_digits(s) {
            None
        } else {
            Some(digits_val(s) * pow10(k))
        },
    }
}

fn all_digits_c(v: &Vec<char>) -> (r: bool)
    ensures
        r == all_digits(v@),
{
    let mut i: usize = 0;
    while i < v.len()
        invariant
            i <= v@.len(),
            forall|j: int| 0 <= j < i ==> crate::text::is_digit(#[trigger] v@[j]),
        decreases v@.len() - i,
    {
        if !crate::text::is_digit_c(v[i]) {
            return false;
        }
        i = i + 1;
    }
    true
}

fn pow10_c(k: u32) -> (r: u64)
    requires
        k <= 6,
    ensures
        r == pow10(k as int),
{
    proof {
        reveal_with_fuel(pow10, 7);
    }
    match k {
        0 => 1,
        1 => 10,
        2 => 100,
        3 => 1000,
        4 => 10000,
        5 => 100000,
        _ => 1000000,
    }
}

fn parse_decimal_scaled(v: &Vec<char>, k: u32) -> (r: Option<u64>)
    requires
        k <= 6,
    ensures
        r == cap_u64(spec_decimal_scaled(v@, k as int)),
{
    let dot = to_chars(".");
    proof {
        reveal_strlit(".");
    }
    match find_sub(&v, &dot) {
        Some(i) => {
            proof {
                lemma_find_bounds(v@, dot@, i as int);
            }
            let n = v.len();
            let ip = copy_range(v, 0, i);
            let fp = copy_range(v, i + 1, n);
            if has_sub(&fp, &dot) || !all_digits_c(&ip) || !all_digits_c(&fp) {
                return None;
            }
            if ip.len() == 0 && fp.len() == 0 {
                return None;
            }
            if fp.len() > k as usize {
                return None;
            }
            proof {
                lemma_digits_val_bounds(ip@);
                lemma_digits_val_bounds(fp@);
                lemma_digits_val_upper(fp@);
                lemma_pow10_6();
                lemma_pow10_le(fp@.len() as int, 6);
                lemma_pow10_pos(k as int - fp@.len() as int);
                lemma_pow10_le(k as int - fp@.len() as int, 6);
                lemma_pow10_le(k as int, 6);
                lemma_pow10_pos(k as int);
            }
            let ip_val: u64 = if ip.len() == 0 {
                0
            } else {
                match parse_digits_u64(&ip) {
                    None => {
                        proof {
                            lemma_decimal_overflow(ip@, fp@, k as int);
                        }
                        return None;
                    },
                    Some(x) => x,
                }
            };
            let fp_val: u64 = if fp.len() == 0 {
                0
            } else {
                match parse_digits_u32(&fp) {
                    None => {
                        proof {
                            assert(digits_val(fp@) < pow10(fp@.len() as int));
                            assert(pow10(fp@.len() as int) <= pow10(6));
                            assert(false);
                        }
                        return None;
                    },
                    Some(x) => x as u64,
                }
            };
            let scale = pow10_c(k);
            let fscale = pow10_c(k - fp.len() as u32);
            proof {
                assert((ip_val as u128) * (scale as u128) <= (u64::MAX as u128) * 1000000)
                    by (nonlinear_arith)
                    requires
                        ip_val <= u64::MAX,
                        scale <= 1000000,
                ;
                assert((fp_val as u128) * (fscale as u128) <= (u64::MAX as u128) * 1000000)
                    by (nonlinear_arith)
                    requires
                        fp_val <= u64::MAX,
                        fscale <= 1000000,
                ;
            }
            let total: u128 = (ip_val as u128) * (scale as u128) + (fp_val as u128) * (fscale
                as u128);
            if total > u64::MAX as u128 {
                None
            } else {
                Some(total as u64)
            }
        },
        None => {
            if v.len() == 0 || !all_digits_c(v) {
                return None;
            }
            proof {
                lemma_digits_val_bounds(v@);
                lemma_pow10_6();
                lemma_pow10_pos(k as int);
                lemma_pow10_le(k as int, 6);
            }
            let val: u64 = match parse_digits_u64(v) {
                None => {
                    proof {
                        lemma_mul_ge_left(digits_val(v@), pow10(k as int));
                    }
                    return None;
                },
                Some(x) => x,
            };
            let scale = pow10_c(k);
            proof {
                assert((val as u128) * (scale as u128) <= (u64::MAX as u128) * 1000000)
                    by (nonlinear_arith)
                    requires
                        val <= u64::MAX,
                        scale <= 1000000,
                ;
            }
            let total: u128 = (val as u128) * (scale as u128);
            if total > u64::MAX as u128 {
                None
            } else {
                Some(total as u64)
            }
        },
    }
}

proof fn lemma_pow10_6()
    ensures
        pow10(6) == 1000000,
{
    reveal_with_fuel(pow10, 7);
}

proof fn lemma_pow10_pos(k: int)
    ensures
        pow10(k) >= 1,
    decreases k,
{
    if k > 0 {
        lemma_pow10_pos(k - 1);
    }
}

proof fn lemma_pow10_le(a: int, b: int)
    requires
        a <= b,
    ensures
        pow10(a) <= pow10(b),
    decreases b,
{
    if a < b && b > 0 {
        lemma_pow10_le(a, b - 1);
        lemma_pow10_pos(b - 1);
    }
}

proof fn lemma_mul_ge_left(a: int, b: int)
    by (nonlinear_arith)
    requires
        a >= 0,
        b >= 1,
    ensures
        a * b >= a,
{
}

/// When the integer digits alone exceed `u64::MAX`, the whole scaled
/// decimal does too.
proof fn lemma_decimal_overflow(ip: Seq<char>, fp: Seq<char>, k: int)
    requires
        all_digits(ip),
        all_digits(fp),
        digits_val(ip) > u64::MAX,
        k >= 0,
        fp.len() <= k,
    ensures
        digits_val(ip) * pow10(k) + digits_val(fp) * pow10(k - fp.len()) > u64::MAX,
{
    lemma_digits_val_bounds(ip);
    lemma_digits_val_bounds(fp);
    lemma_pow10_pos(k);
    lemma_pow10_pos(k - fp.len());
    lemma_mul_ge_left(digits_val(ip), pow10(k));
    assert(digits_val(fp) * pow10(k - fp.len()) >= 0) by (nonlinear_arith)
        requires
            digits_val(fp) >= 0,
            pow10(k - fp.len()) >= 1,
    ;
}

/// The distance in millimetres read from a localized distance string:
/// thousands separators stripped, a trailing `km` or `m` unit scaled
/// accordingly; absent for any other suffix.
pub open spec fn spec_distance_mm(s: Seq<char>) -> Option<u64> {
    let t = remove_commas(spec_trim(s));
    if t.len() >= 2 && t[t.len() - 2] == 'k' && t[t.len() - 1] == 'm' {
        cap_u64(spec_decimal_scaled(spec_trim(t.subrange(0, t.len() - 2)), 6))
    } else if t.len() >= 1 && t[t.len() - 1] == 'm' {
        cap_u64(spec_decimal_scaled(spec_trim(t.subrange(0, t.len() - 1)), 3))
    } else {
        None
    }
}

/// Parses a localized distance such as `12.3km` or `500m` into millimetres.
pub fn parse_distance_mm(s: &str) -> (r: Option<u64>)
    ensures
        r == spec_distance_mm(s@),
{
    let v0 = to_chars(s);
    let trimmed = trim_chars(&v0);
    let t = remove_commas_c(&trimmed);
    let n = t.len();
    if n >= 2 && t[n - 2] == 'k' && t[n - 1] == 'm' {
        let body0 = copy_range(&t, 0, n - 2);
        let body = trim_chars(&body0);
        parse_decimal_scaled(&body, 6)
    } else if n >= 1 && t[n - 1] == 'm' {
        let body0 = copy_range(&t, 0, n - 1);
        let body = trim_chars(&body0);
        parse_decimal_scaled(&body, 3)
    } else {
        None
    }
}

/// The transport mode inferred from a line label by first-match keyword
/// priority: walking, flight, bus, ferry keywords, then empty means
/// unknown, anything else rail.
pub open spec fn spec_infer_mode(s: Seq<char>) -> Seq<char> {
    if contains_sub(s, "徒歩"@) {
        "walk"@
    } else if contains_sub(s, "空路"@) || contains_sub(s, "フライト"@) || contains_sub(
        s,
        "飛行機"@,
    ) {
        "flight"@
    } else if contains_sub(s, "バス"@) || contains_sub(s, "連絡バス"@) || contains_sub(
        s,
        "高速"@,
    ) {
        "bus"@
    } else if contains_sub(s, "フェリー"@) || contains_sub(s, "船"@) {
        "ferry"@
    } else if s.len() == 0 {
        "unknown"@
    } else {
        "rail"@
    }
}

/// The characters of an optional line label; empty when absent.
pub open spec fn spec_opt_chars(line: Option<&str>) -> Seq<char> {
    match line {
        Some(l) => l@,
        None => Seq::empty(),
    }
}

/// Infers the transport mode of a segment from its line label.
pub fn infer_mode(line: Option<&str>) -> (r: String)
    ensures
        r@ == spec_infer_mode(spec_opt_chars(line)),
{
    let v = match line {
        Some(l) => to_chars(l),
        None => Vec::new(),
    };
    proof {
        assert(v@ =~= spec_opt_chars(line));
    }
    if has_sub(&v, &to_chars("徒歩")) {
        String::from_str("walk")
    } else if has_sub(&v, &to_chars("空路")) || has_sub(&v, &to_chars("フライト")) || has_sub(
        &v,
        &to_chars("飛行機"),
    ) {
        String::from_str("flight")
    } else if has_sub(&v, &to_chars("バス")) || has_sub(&v, &to_chars("連絡バス")) || has_sub(
        &v,
        &to_chars("高速"),
    ) {
        String::from_str("bus")
    } else if has_sub(&v, &to_chars("フェリー")) || has_sub(&v, &to_chars("船")) {
        String::from_str("ferry")
    } else if v.len() == 0 {
        String::from_str("unknown")
    } else {
        String::from_str("rail")
    }
}


/// An optional JSON reference as an optional value.
pub open spec fn deref_opt(o: Option<&Json>) -> Option<Json> {
    match o {
        Some(j) => Some(*j),
        None => None,
    }
}

/// The value under `key` of an optional object.
pub open spec fn opt_get(o: Option<Json>, key: Seq<char>) -> Option<Json> {
    match o {
        Some(j) => j.spec_get(key),
        None => None,
    }
}

/// The characters of an optional string node.
pub open spec fn opt_str(o: Option<Json>) -> Option<Seq<char>> {
    match o {
        Some(j) => j.spec_str(),
        None => None,
    }
}

/// The elements of an optional array node.
pub open spec fn opt_arr(o: Option<Json>) -> Option<Seq<Json>> {
    match o {
        Some(j) => j.spec_arr(),
        None => None,
    }
}

/// The value of an optional boolean node.
pub open spec fn opt_bool(o: Option<Json>) -> Option<bool> {
    match o {
        Some(j) => j.spec_bool(),
        None => None,
    }
}

/// The trimmed nonempty text of an optional string node.
pub open spec fn opt_nonempty(o: Option<Json>) -> Option<Seq<char>> {
    match o {
        Some(j) => spec_nonempty_str(j),
        None => None,
    }
}

fn opt_get_ref<'a>(o: Option<&'a Json>, key: &str) -> (r: Option<&'a Json>)
    ensures
        match r {
            Some(v) => opt_get(deref_opt(o), key@) == Some(*v),
            None => opt_get(deref_opt(o), key@) is None,
        },
{
    match o {
        Some(j) => j.get(key),
        None => None,
    }
}

fn opt_str_ref<'a>(o: Option<&'a Json>) -> (r: Option<&'a String>)
    ensures
        match r {
            Some(s) => opt_str(deref_opt(o)) == Some(s@),
            None => opt_str(deref_opt(o)) is None,
        },
{
    match o {
        Some(j) => j.as_str(),
        None => None,
    }
}

fn opt_arr_ref<'a>(o: Option<&'a Json>) -> (r: Option<&'a Vec<Json>>)
    ensures
        match r {
            Some(v) => opt_arr(deref_opt(o)) == Some(v@),
            None => opt_arr(deref_opt(o)) is None,
        },
{
    match o {
        Some(j) => j.as_array(),
        None => None,
    }
}

fn opt_bool_v(o: Option<&Json>) -> (r: Option<bool>)
    ensures
        r == opt_bool(deref_opt(o)),
{
    match o {
        Some(j) => j.as_bool(),
        None => None,
    }
}

fn opt_nonempty_s(o: Option<&Json>) -> (r: Option<String>)
    ensures
        match r {
            Some(s) => opt_nonempty(deref_opt(o)) == Some(s@),
            None => opt_nonempty(deref_opt(o)) is None,
        },
{
    match o {
        Some(j) => as_nonempty_str(j),
        None => None,
    }
}

/// The page-props subtree of the response document.
pub open spec fn spec_page_props(root: Json) -> Option<Json> {
    opt_get(opt_get(Some(root), "props"@), "pageProps"@)
}

/// The navigation-search subtree of the response document.
pub open spec fn spec_navi(root: Json) -> Option<Json> {
    opt_get(spec_page_props(root), "naviSearchParam"@)
}

/// The echoed page-query subtree of the response document.
pub open spec fn spec_page_query(root: Json) -> Option<Json> {
    opt_get(spec_page_props(root), "pageQuery"@)
}

/// A display name: preferred from the display-info sub-field, else the echoed
/// query field, else empty.
pub open spec fn spec_name(root: Json, display_key: Seq<char>, query_key: Seq<char>) -> Seq<char> {
    match opt_str(opt_get(opt_get(spec_navi(root), "displayInfo"@), display_key)) {
        Some(s) => s,
        None => match opt_str(opt_get(spec_page_query(root), query_key)) {
            Some(s) => s,
            None => Seq::empty(),
        },
    }
}

/// The value of a nonempty run of digits and nothing else, if it fits.
pub open spec fn spec_parse_u32_strict(s: Seq<char>) -> Option<u32> {
    if all_digits(s) {
        parse_u32_digits(s)
    } else {
        None
    }
}

fn parse_u32_strict(s: &str) -> (r: Option<u32>)
    ensures
        r == spec_parse_u32_strict(s@),
{
    let v = to_chars(s);
    if !all_digits_c(&v) {
        return None;
    }
    parse_digits_u32(&v)
}

/// A numeric field of the page query, read strictly from its string value.
pub open spec fn spec_field_u32(pq: Option<Json>, key: Seq<char>) -> Option<u32> {
    match opt_str(opt_get(pq, key)) {
        Some(s) => spec_parse_u32_strict(s),
        None => None,
    }
}

fn field_u32(pq: Option<&Json>, key: &str) -> (r: Option<u32>)
    ensures
        r == spec_field_u32(deref_opt(pq), key@),
{
    match opt_str_ref(opt_get_ref(pq, key)) {
        Some(s) => parse_u32_strict(s.as_str()),
        None => None,
    }
}

/// The provider's fixed offset: nine hours east, in minutes.
pub fn jst_offset_minutes() -> (r: i32)
    ensures
        r == 540,
{
    9 * 60
}

/// The search timestamp reconstructed from the separate year, month, day and
/// hour fields of the page query, with the two-part minute (tens digit and
/// ones digit, each defaulting to zero); absent when year, month, day or
/// hour is missing or unparsable, or the calendar values are invalid.
pub open spec fn spec_search_dt(pq: Option<Json>) -> Option<DateTimeMinute> {
    match spec_field_u32(pq, "y"@) {
        None => None,
        Some(y) => match spec_field_u32(pq, "m"@) {
            None => None,
            Some(mo) => match spec_field_u32(pq, "d"@) {
                None => None,
                Some(d) => match spec_field_u32(pq, "hh"@) {
                    None => None,
                    Some(hh) => {
                        let m1 = match spec_field_u32(pq, "m1"@) {
                            Some(v) => v as int,
                            None => 0int,
                        };
                        let m2 = match spec_field_u32(pq, "m2"@) {
                            Some(v) => v as int,
                            None => 0int,
                        };
                        let mm = m1 * 10 + m2;
                        if y <= 9999 && 1 <= mo <= 12 && 1 <= d && d as int <= days_in_month(
                            y as int,
                            mo as int,
                        ) && hh <= 23 && mm <= 59 {
                            Some(
                                DateTimeMinute {
                                    year: y as i32,
                                    month: mo,
                                    day: d,
                                    hour: hh,
                                    minute: mm as u32,
                                    offset_minutes: 540,
                                },
                            )
                        } else {
                            None
                        }
                    },
                },
            },
        },
    }
}

/// Builds the search timestamp from the page query; see `spec_search_dt`.
pub fn build_search_datetime(pq: Option<&Json>) -> (r: Option<DateTimeMinute>)
    ensures
        r == spec_search_dt(deref_opt(pq)),
        r matches Some(x) ==> x.wf(),
{
    let y = match field_u32(pq, "y") {
        None => {
            return None;
        },
        Some(v) => v,
    };
    let mo = match field_u32(pq, "m") {
        None => {
            return None;
        },
        Some(v) => v,
    };
    let d = match field_u32(pq, "d") {
        None => {
            return None;
        },
        Some(v) => v,
    };
    let hh = match field_u32(pq, "hh") {
        None => {
            return None;
        },
        Some(v) => v,
    };
    let m1 = match field_u32(pq, "m1") {
        Some(v) => v,
        None => 0,
    };
    let m2 = match field_u32(pq, "m2") {
        Some(v) => v,
        None => 0,
    };
    let mm = (m1 as u64) * 10 + (m2 as u64);
    if y <= 9999 && 1 <= mo && mo <= 12 && 1 <= d && d <= days_in_month_c(y as i32, mo) && hh
        <= 23 && mm <= 59 {
        Some(
            DateTimeMinute {
                year: y as i32,
                month: mo,
                day: d,
                hour: hh,
                minute: mm as u32,
                offset_minutes: jst_offset_minutes(),
            },
        )
    } else {
        None
    }
}

/// The bare time string of an edge: the `time` field of the first entry of
/// its time-info list, trimmed, when nonempty.
pub open spec fn spec_edge_time(e: Json) -> Option<Seq<char>> {
    match opt_arr(e.spec_get("timeInfo"@)) {
        Some(arr) => if arr.len() == 0 {
            None
        } else {
            opt_nonempty(arr[0].spec_get("time"@))
        },
        None => None,
    }
}

fn edge_time(e: &Json) -> (r: Option<String>)
    ensures
        match r {
            Some(s) => spec_edge_time(*e) == Some(s@),
            None => spec_edge_time(*e) is None,
        },
{
    match e.get("timeInfo") {
        Some(t) => match t.as_array() {
            Some(arr) => {
                if arr.len() == 0 {
                    None
                } else {
                    let first = &arr[0];
                    match first.get("time") {
                        Some(tv) => as_nonempty_str(tv),
                        None => None,
                    }
                }
            },
            None => None,
        },
        None => None,
    }
}

/// The station name of an edge; empty when absent.
pub open spec fn spec_seg_from(e: Json) -> Seq<char> {
    match opt_str(e.spec_get("stationName"@)) {
        Some(s) => s,
        None => Seq::empty(),
    }
}

/// The line label of an edge: the variant excluding the destination when
/// nonempty, else the full label when nonempty.
pub open spec fn spec_seg_line(e: Json) -> Option<Seq<char>> {
    match opt_nonempty(e.spec_get("railNameExcludingDestination"@)) {
        Some(s) => Some(s),
        None => opt_nonempty(e.spec_get("railName"@)),
    }
}

/// The destination label of an edge, trimmed, when nonempty.
pub open spec fn spec_seg_dest(e: Json) -> Option<Seq<char>> {
    opt_nonempty(e.spec_get("destination"@))
}

/// The on-board duration of an edge, read leniently.
pub open spec fn spec_seg_duration(e: Json) -> Option<u32> {
    match opt_str(e.spec_get("timeOnBoard"@)) {
        Some(s) => spec_parse_u32_loose(s),
        None => None,
    }
}

/// The fare of an edge, read leniently from its price-info record.
pub open spec fn spec_seg_fare(e: Json) -> Option<u32> {
    match opt_str(opt_get(e.spec_get("priceInfo"@), "price"@)) {
        Some(s) => spec_parse_u32_loose(s),
        None => None,
    }
}

/// One step of the segment fold: the segment spanning edge `i` to edge
/// `i + 1`, and the cursor after it. A reconstructed departure or arrival
/// advances the cursor; a missing one leaves it unchanged.
pub open spec fn spec_seg_step(
    edges: Seq<Json>,
    base: Option<DateTimeMinute>,
    cur_t: Option<DateTimeMinute>,
    i: int,
) -> (SegmentView, Option<DateTimeMinute>) {
    let cur = edges[i];
    let next = edges[i + 1];
    let line = spec_seg_line(cur);
    let dep = match spec_edge_time(cur) {
        Some(ts) => match base {
            Some(b) => spec_rollover(b, ts, cur_t),
            None => None,
        },
        None => None,
    };
    let c1 = if dep is Some {
        dep
    } else {
        cur_t
    };
    let arr = match spec_edge_time(next) {
        Some(ts) => match base {
            Some(b) => spec_rollover(b, ts, c1),
            None => None,
        },
        None => None,
    };
    let c2 = if arr is Some {
        arr
    } else {
        c1
    };
    (
        SegmentView {
            mode: spec_infer_mode(
                match line {
                    Some(l) => l,
                    None => Seq::empty(),
                },
            ),
            from: spec_seg_from(cur),
            to: spec_seg_from(next),
            line: line,
            destination: spec_seg_dest(cur),
            duration_minutes: spec_seg_duration(cur),
            fare_yen: spec_seg_fare(cur),
            departure_time: dep,
            arrival_time: arr,
        },
        c2,
    )
}

/// The rollover cursor before segment `i`: the last reconstructed timestamp
/// of the segments before it.
pub open spec fn spec_cursor(edges: Seq<Json>, base: Option<DateTimeMinute>, i: int) -> Option<
    DateTimeMinute,
>
    decreases i,
{
    if i <= 0 {
        None
    } else {
        spec_seg_step(edges, base, spec_cursor(edges, base, i - 1), i - 1).1
    }
}

/// Segment `i` of a route with the given edges and anchor date.
pub open spec fn spec_segment(edges: Seq<Json>, base: Option<DateTimeMinute>, i: int) -> SegmentView {
    spec_seg_step(edges, base, spec_cursor(edges, base, i), i).0
}

/// All segments of a route: segment `i` spans edge `i` to edge `i + 1`, so a
/// route with fewer than two edges has none.
pub open spec fn spec_segments(edges: Seq<Json>, base: Option<DateTimeMinute>) -> Seq<SegmentView> {
    if edges.len() < 2 {
        Seq::empty()
    } else {
        Seq::new((edges.len() - 1) as nat, |i: int| spec_segment(edges, base, i))
    }
}

/// The views of built segments.
pub open spec fn seg_views(v: Seq<SegmentDto>) -> Seq<SegmentView> {
    v.map_values(|s: SegmentDto| s@)
}

/// Builds the segments of one route from its ordered edge list, threading
/// the rollover cursor across the whole route; see `spec_segments`. A route
/// with fewer than two edges yields no segments.
pub fn build_segments_from_edges(edges: &Vec<Json>, base_date: Option<DateTimeMinute>) -> (r: Vec<
    SegmentDto,
>)
    requires
        base_date matches Some(b) ==> b.wf(),
    ensures
        seg_views(r@) == spec_segments(edges@, base_date),
        edges@.len() < 2 ==> r@.len() == 0,
        edges@.len() >= 2 ==> r@.len() == edges@.len() - 1,
        forall|k: int| 0 <= k < r@.len() ==> segment_times_wf(#[trigger] seg_views(r@)[k]),
{
    let mut out: Vec<SegmentDto> = Vec::new();
    let n = edges.len();
    if n < 2 {
        proof {
            assert(seg_views(out@) =~= spec_segments(edges@, base_date));
        }
        return out;
    }
    let mut last_time: Option<DateTimeMinute> = None;
    let mut i: usize = 0;
    while i < n - 1
        invariant
            n == edges@.len(),
            2 <= n,
            0 <= i <= n - 1,
            base_date matches Some(b) ==> b.wf(),
            last_time matches Some(p) ==> p.wf(),
            last_time == spec_cursor(edges@, base_date, i as int),
            out@.len() == i,
            forall|k: int|
                0 <= k < i ==> seg_views(out@)[k] == spec_segment(edges@, base_date, k),
            forall|k: int| 0 <= k < i ==> segment_times_wf(#[trigger] seg_views(out@)[k]),
        decreases n - 1 - i,
    {
        let ghost cur0 = last_time;
        let cur = &edges[i];
        let next = &edges[i + 1];
        let from = match opt_str_ref(cur.get("stationName")) {
            Some(s) => s.clone(),
            None => String::new(),
        };
        let to = match opt_str_ref(next.get("stationName")) {
            Some(s) => s.clone(),
            None => String::new(),
        };
        let line: Option<String> = match opt_nonempty_s(cur.get("railNameExcludingDestination")) {
            Some(s) => Some(s),
            None => opt_nonempty_s(cur.get("railName")),
        };
        let destination = opt_nonempty_s(cur.get("destination"));
        let mode = infer_mode(
            match &line {
                Some(l) => Some(l.as_str()),
                None => None,
            },
        );
        let duration_minutes = match opt_str_ref(cur.get("timeOnBoard")) {
            Some(s) => parse_u32_loose(s.as_str()),
            None => None,
        };
        let fare_yen = match opt_str_ref(opt_get_ref(cur.get("priceInfo"), "price")) {
            Some(s) => parse_u32_loose(s.as_str()),
            None => None,
        };
        let departure_time = match edge_time(cur) {
            Some(ts) => match &base_date {
                Some(b) => time_on_date_with_rollover(b, ts.as_str(), last_time),
                None => None,
            },
            None => None,
        };
        if departure_time.is_some() {
            last_time = departure_time;
        }
        let arrival_time = match edge_time(next) {
            Some(ts) => match &base_date {
                Some(b) => time_on_date_with_rollover(b, ts.as_str(), last_time),
                None => None,
            },
            None => None,
        };
        if arrival_time.is_some() {
            last_time = arrival_time;
        }
        let seg = SegmentDto {
            mode,
            from,
            to,
            line,
            destination,
            duration_minutes,
            fare_yen,
            departure_time,
            arrival_time,
        };
        proof {
            let step = spec_seg_step(edges@, base_date, cur0, i as int);
            assert(seg@ == step.0);
            assert(last_time == step.1);
            assert(spec_cursor(edges@, base_date, i as int + 1) == step.1);
        }
        proof {
            assert(segment_times_wf(seg@));
        }
        out.push(seg);
        i = i + 1;
        proof {
            assert forall|k: int| 0 <= k < i implies seg_views(out@)[k] == spec_segment(
                edges@,
                base_date,
                k,
            ) && segment_times_wf(seg_views(out@)[k]) by {
                if k < i - 1 {
                    assert(seg_views(out@.drop_last())[k] == spec_segment(edges@, base_date, k));
                    assert(segment_times_wf(seg_views(out@.drop_last())[k]));
                    assert(out@.drop_last()[k] == out@[k]);
                } else {
                    assert(out@[k] == seg);
                }
            }
        }
    }
    proof {
        assert(seg_views(out@) =~= spec_segments(edges@, base_date));
    }
    out
}

/// The summary of one route, each field independently optional; the summary
/// departure anchors to the search date, the summary arrival rolls over
/// against the departure.
pub open spec fn spec_summary(sum: Option<Json>, base: Option<DateTimeMinute>) -> RouteSummaryDto {
    let dep = match opt_nonempty(opt_get(sum, "departureTime"@)) {
        Some(s) => match base {
            Some(b) => spec_rollover(b, s, None),
            None => None,
        },
        None => None,
    };
    let arr = match opt_nonempty(opt_get(sum, "arrivalTime"@)) {
        Some(s) => match base {
            Some(b) => spec_rollover(b, s, dep),
            None => None,
        },
        None => None,
    };
    RouteSummaryDto {
        departure_time: dep,
        arrival_time: arr,
        duration_minutes: match opt_str(opt_get(sum, "totalTime"@)) {
            Some(s) => spec_duration_minutes(s),
            None => None,
        },
        transfer_count: match opt_str(opt_get(sum, "transferCount"@)) {
            Some(s) => spec_parse_u32_loose(s),
            None => None,
        },
        total_price_yen: match opt_str(opt_get(sum, "totalPrice"@)) {
            Some(s) => spec_parse_u32_loose(s),
            None => None,
        },
        distance_mm: match opt_str(opt_get(sum, "distance"@)) {
            Some(s) => spec_distance_mm(s),
            None => None,
        },
        is_fast: opt_bool(opt_get(sum, "isFast"@)),
        is_easy: opt_bool(opt_get(sum, "isEasy"@)),
        is_cheap: opt_bool(opt_get(sum, "isCheap"@)),
    }
}

/// Builds one route's summary; see `spec_summary`.
pub fn build_route_summary(sum: Option<&Json>, base: Option<DateTimeMinute>) -> (r: RouteSummaryDto)
    requires
        base matches Some(b) ==> b.wf(),
    ensures
        r == spec_summary(deref_opt(sum), base),
        summary_times_wf(r),
{
    let departure_time = match opt_nonempty_s(opt_get_ref(sum, "departureTime")) {
        Some(s) => match &base {
            Some(b) => time_on_date_with_rollover(b, s.as_str(), None),
            None => None,
        },
        None => None,
    };
    let arrival_time = match opt_nonempty_s(opt_get_ref(sum, "arrivalTime")) {
        Some(s) => match &base {
            Some(b) => time_on_date_with_rollover(b, s.as_str(), departure_time),
            None => None,
        },
        None => None,
    };
    RouteSummaryDto {
        departure_time,
        arrival_time,
        duration_minutes: match opt_str_ref(opt_get_ref(sum, "totalTime")) {
            Some(s) => parse_ja_duration_minutes(s.as_str()),
            None => None,
        },
        transfer_count: match opt_str_ref(opt_get_ref(sum, "transferCount")) {
            Some(s) => parse_u32_loose(s.as_str()),
            None => None,
        },
        total_price_yen: match opt_str_ref(opt_get_ref(sum, "totalPrice")) {
            Some(s) => parse_u32_loose(s.as_str()),
            None => None,
        },
        distance_mm: match opt_str_ref(opt_get_ref(sum, "distance")) {
            Some(s) => parse_distance_mm(s.as_str()),
            None => None,
        },
        is_fast: opt_bool_v(opt_get_ref(sum, "isFast")),
        is_easy: opt_bool_v(opt_get_ref(sum, "isEasy")),
        is_cheap: opt_bool_v(opt_get_ref(sum, "isCheap")),
    }
}

/// The ordered edge list of a route feature; empty when absent.
pub open spec fn spec_edges(feature: Json) -> Seq<Json> {
    match opt_arr(feature.spec_get("edgeInfoList"@)) {
        Some(a) => a,
        None => Seq::empty(),
    }
}

/// The 1-based rank of the route at position `i`, as the provider's u32.
pub open spec fn spec_rank(i: int) -> u32 {
    (((i + 1) % 0x1_0000_0000) as u32)
}

/// One normalized route: its rank, summary and segments.
pub open spec fn spec_route(feature: Json, rank: u32, base: Option<DateTimeMinute>) -> RouteView {
    RouteView {
        rank: rank,
        summary: spec_summary(feature.spec_get("summaryInfo"@), base),
        segments: spec_segments(spec_edges(feature), base),
    }
}

/// The whole normalized result: display names, the reconstructed search
/// timestamp, and one route per feature in upstream order; the only fatal
/// condition is an absent feature list.
pub open spec fn spec_transit_result(root: Json) -> Result<TransitView, TransitError> {
    let base = spec_search_dt(spec_page_query(root));
    match opt_arr(opt_get(spec_navi(root), "featureInfoList"@)) {
        None => Err(TransitError::FeatureListMissing),
        Some(features) => Ok(
            TransitView {
                from: spec_name(root, "fromName"@, "from"@),
                to: spec_name(root, "toName"@, "to"@),
                search_date_time: base,
                routes: Seq::new(features.len(), |i: int| spec_route(features[i], spec_rank(i), base)),
            },
        ),
    }
}

/// Normalizes the provider's untyped JSON tree into a typed result; see
/// `spec_transit_result`. Fails only when the top-level feature list is
/// absent.
pub fn next_data_to_transit_dto(root: &Json) -> (r: Result<TransitDto, TransitError>)
    ensures
        match r {
            Ok(t) => spec_transit_result(*root) == Ok::<TransitView, TransitError>(t@),
            Err(e) => spec_transit_result(*root) == Err::<TransitView, TransitError>(e),
        },
        r matches Ok(t) ==> result_times_wf(t@),
{
    let page_props = opt_get_ref(opt_get_ref(Some(root), "props"), "pageProps");
    let navi = opt_get_ref(page_props, "naviSearchParam");
    let pq = opt_get_ref(page_props, "pageQuery");
    let from = match opt_str_ref(opt_get_ref(opt_get_ref(navi, "displayInfo"), "fromName")) {
        Some(s) => s.clone(),
        None => match opt_str_ref(opt_get_ref(pq, "from")) {
            Some(s) => s.clone(),
            None => String::new(),
        },
    };
    let to = match opt_str_ref(opt_get_ref(opt_get_ref(navi, "displayInfo"), "toName")) {
        Some(s) => s.clone(),
        None => match opt_str_ref(opt_get_ref(pq, "to")) {
            Some(s) => s.clone(),
            None => String::new(),
        },
    };
    let base = build_search_datetime(pq);
    let features = match opt_arr_ref(opt_get_ref(navi, "featureInfoList")) {
        Some(f) => f,
        None => {
            return Err(TransitError::FeatureListMissing);
        },
    };
    let mut routes: Vec<RouteDto> = Vec::new();
    let n = features.len();
    let mut i: usize = 0;
    while i < n
        invariant
            n == features@.len(),
            0 <= i <= n,
            base == spec_search_dt(deref_opt(pq)),
            base matches Some(b) ==> b.wf(),
            routes@.len() == i,
            forall|k: int|
                0 <= k < i ==> routes@.map_values(|rt: RouteDto| rt@)[k] == spec_route(
                    features@[k],
                    spec_rank(k),
                    base,
                ),
            forall|k: int|
                0 <= k < i ==> summary_times_wf((#[trigger] routes@[k])@.summary),
            forall|k: int, j: int|
                0 <= k < i && 0 <= j < routes@[k]@.segments.len() ==> segment_times_wf(
                    #[trigger] routes@[k]@.segments[j],
                ),
        decreases n - i,
    {
        let feature = &features[i];
        let summary = build_route_summary(feature.get("summaryInfo"), base);
        let edges_default: Vec<Json> = Vec::new();
        let edges: &Vec<Json> = match feature.get("edgeInfoList") {
            Some(e) => match e.as_array() {
                Some(a) => a,
                None => &edges_default,
            },
            None => &edges_default,
        };
        let segments = build_segments_from_edges(edges, base);
        let rank: u32 = (((i as u64) + 1) % 0x1_0000_0000) as u32;
        let route = RouteDto { rank, summary, segments };
        proof {
            assert(edges@ == spec_edges(features@[i as int]));
            assert(route@ == spec_route(features@[i as int], spec_rank(i as int), base));
            assert(route@.segments == seg_views(segments@));
            assert(summary_times_wf(route@.summary));
            assert(forall|j: int|
                0 <= j < route@.segments.len() ==> segment_times_wf(#[trigger] route@.segments[j]));
        }
        let ghost routes_prev = routes@;
        routes.push(route);
        i = i + 1;
        proof {
            assert(routes@ == routes_prev.push(route));
            assert forall|k: int|
                0 <= k < i implies routes@.map_values(|rt: RouteDto| rt@)[k] == spec_route(
                features@[k],
                spec_rank(k),
                base,
            ) && summary_times_wf((#[trigger] routes@[k])@.summary) && (forall|j: int|
                0 <= j < routes@[k]@.segments.len() ==> segment_times_wf(
                    #[trigger] routes@[k]@.segments[j],
                )) by {
                if k < i - 1 {
                    assert(routes@[k] == routes_prev[k]);
                    assert(routes_prev.map_values(|rt: RouteDto| rt@)[k] == spec_route(
                        features@[k],
                        spec_rank(k),
                        base,
                    ));
                    assert(summary_times_wf(routes_prev[k]@.summary));
                    assert(forall|j: int|
                        0 <= j < routes_prev[k]@.segments.len() ==> segment_times_wf(
                            #[trigger] routes_prev[k]@.segments[j],
                        ));
                } else {
                    assert(routes@[k] == route);
                }
            }
        }
    }
    let t = TransitDto { from, to, search_date_time: base, routes };
    proof {
        assert(t@.routes =~= spec_transit_result(*root)->Ok_0.routes);
        assert(t@ == spec_transit_result(*root)->Ok_0);
        assert forall|k: int|
            0 <= k < t@.routes.len() implies summary_times_wf(
            (#[trigger] t@.routes[k]).summary,
        ) by {
            assert(t@.routes[k] == t.routes@[k]@);
        }
        assert forall|k: int, j: int|
            0 <= k < t@.routes.len() && 0 <= j < t@.routes[k].segments.len()
            implies segment_times_wf(#[trigger] t@.routes[k].segments[j]) by {
            assert(t@.routes[k] == t.routes@[k]@);
        }
        assert(result_times_wf(t@));
    }
    Ok(t)
}

/// Law: when the search timestamp is absent from the result, no summary or
/// segment timestamp anywhere in the route list is reconstructed, even where
/// bare time strings exist in the source.
pub proof fn lemma_no_anchor_no_timestamps(root: Json, i: int, j: int)
    requires
        spec_transit_result(root) is Ok,
        spec_transit_result(root)->Ok_0.search_date_time is None,
        0 <= i < spec_transit_result(root)->Ok_0.routes.len(),
    ensures
        spec_transit_result(root)->Ok_0.routes[i].summary.departure_time is None,
        spec_transit_result(root)->Ok_0.routes[i].summary.arrival_time is None,
        0 <= j < spec_transit_result(root)->Ok_0.routes[i].segments.len()
            ==> spec_transit_result(root)->Ok_0.routes[i].segments[j].departure_time is None
            && spec_transit_result(root)->Ok_0.routes[i].segments[j].arrival_time is None,
{
    let base = spec_search_dt(spec_page_query(root));
    let v = spec_transit_result(root)->Ok_0;
    assert(base is None);
    assert(v.routes[i] == spec_route(
        opt_arr(opt_get(spec_navi(root), "featureInfoList"@))->0[i],
        spec_rank(i),
        base,
    ));
    let feature = opt_arr(opt_get(spec_navi(root), "featureInfoList"@))->0[i];
    let edges = spec_edges(feature);
    if 0 <= j < v.routes[i].segments.len() {
        assert(v.routes[i].segments[j] == spec_segment(edges, base, j));
        assert(spec_segment(edges, base, j).departure_time is None);
        assert(spec_segment(edges, base, j).arrival_time is None);
    }
}

} // verus!
