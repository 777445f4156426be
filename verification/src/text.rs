//! Character-level helpers shared by the codec, the query encoder and the
//! scalar parsers: decimal digits, substring search, whitespace trimming and
//! decimal rendering of integers.

use vstd::prelude::*;

verus! {

/// An ASCII decimal digit.
pub open spec fn is_digit(c: char) -> bool {
    48 <= (c as u32) <= 57
}

/// Numeric value of an ASCII decimal digit.
pub open spec fn digit_val(c: char) -> int {
    (c as u32) - 48
}

/// The digit character for a value in 0..=9 (arbitrary elsewhere).
pub open spec fn digit_char(d: int) -> char {
    if d == 0 {
        '0'
    } else if d == 1 {
        '1'
    } else if d == 2 {
        '2'
    } else if d == 3 {
        '3'
    } else if d == 4 {
        '4'
    } else if d == 5 {
        '5'
    } else if d == 6 {
        '6'
    } else if d == 7 {
        '7'
    } else if d == 8 {
        '8'
    } else {
        '9'
    }
}

pub proof fn lemma_digit_char(d: int)
    requires
        0 <= d < 10,
    ensures
        is_digit(digit_char(d)),
        digit_val(digit_char(d)) == d,
{
}

pub fn is_digit_c(c: char) -> (r: bool)
    ensures
        r == is_digit(c),
{
    let u = c as u32;
    48 <= u && u <= 57
}

pub fn digit_char_c(d: u32) -> (r: char)
    requires
        d < 10,
    ensures
        r == digit_char(d as int),
{
    match d {
        0 => '0',
        1 => '1',
        2 => '2',
        3 => '3',
        4 => '4',
        5 => '5',
        6 => '6',
        7 => '7',
        8 => '8',
        _ => '9',
    }
}

/// Whitespace accepted by the tolerant text parsers: the common ASCII blanks
/// and the ideographic space that appears in the provider's text.
pub open spec fn is_space(c: char) -> bool {
    c == ' ' || c == '\t' || c == '\n' || c == '\r' || c == '\u{3000}'
}

pub fn is_space_c(c: char) -> (r: bool)
    ensures
        r == is_space(c),
{
    c == ' ' || c == '\t' || c == '\n' || c == '\r' || c == '\u{3000}'
}

/// The characters of `s`, in order.
pub fn to_chars(s: &str) -> (v: Vec<char>)
    ensures
        v@ == s@,
{
    let n = s.unicode_len();
    let mut v: Vec<char> = Vec::new();
    let mut i: usize = 0;
    while i < n
        invariant
            i <= n,
            n == s@.len(),
            v@ == s@.subrange(0, i as int),
        decreases n - i,
    {
        v.push(s.get_char(i));
        i = i + 1;
        proof {
            assert(v@ =~= s@.subrange(0, i as int));
        }
    }
    proof {
        assert(v@ =~= s@);
    }
    v
}

/// Relies on `core::str::Chars` and `String::from_iter` through
/// `Iterator::collect`: collecting the characters of a vector yields the
/// string with exactly those characters.
#[verifier::external_body]
pub fn chars_to_string(v: &Vec<char>) -> (s: String)
    ensures
        s@ == v@,
{
    v.iter().collect()
}

/// Whether `a` and `b` consist of the same characters.
pub fn str_eq(a: &str, b: &str) -> (r: bool)
    ensures
        r == (a@ == b@),
{
    let na = a.unicode_len();
    let nb = b.unicode_len();
    if na != nb {
        return false;
    }
    let mut i: usize = 0;
    while i < na
        invariant
            i <= na,
            na == a@.len(),
            na == b@.len(),
            forall|j: int| 0 <= j < i ==> a@[j] == b@[j],
        decreases na - i,
    {
        if a.get_char(i) != b.get_char(i) {
            return false;
        }
        i = i + 1;
    }
    proof {
        assert(a@ =~= b@);
    }
    true
}

/// The first position at or after `i` where `n` occurs in `h`.
pub open spec fn spec_find_from(h: Seq<char>, n: Seq<char>, i: int) -> Option<int>
    decreases h.len() - i,
    when 0 <= i
{
    if i + n.len() > h.len() {
        None
    } else if n.len() == 0 || h.subrange(i, i + n.len()) == n {
        Some(i)
    } else {
        spec_find_from(h, n, i + 1)
    }
}

/// The first position where `n` occurs in `h`.
pub open spec fn spec_find(h: Seq<char>, n: Seq<char>) -> Option<int> {
    spec_find_from(h, n, 0)
}

pub proof fn lemma_find_from_bounds(h: Seq<char>, n: Seq<char>, i0: int, i: int)
    requires
        0 <= i0,
        spec_find_from(h, n, i0) == Some(i),
    ensures
        i0 <= i,
        i + n.len() <= h.len(),
        n.len() > 0 ==> h.subrange(i, i + n.len()) == n,
    decreases h.len() - i0,
{
    if i0 + n.len() > h.len() {
        // impossible: the search would have returned None
    } else if n.len() == 0 || h.subrange(i0, i0 + n.len()) == n {
        // the match is at i0 itself
    } else {
        lemma_find_from_bounds(h, n, i0 + 1, i);
    }
}

pub proof fn lemma_find_bounds(h: Seq<char>, n: Seq<char>, i: int)
    requires
        spec_find(h, n) == Some(i),
    ensures
        0 <= i,
        i + n.len() <= h.len(),
        n.len() > 0 ==> h.subrange(i, i + n.len()) == n,
{
    lemma_find_from_bounds(h, n, 0, i);
}

/// `n` occurs somewhere in `h`.
pub open spec fn contains_sub(h: Seq<char>, n: Seq<char>) -> bool {
    spec_find(h, n) is Some
}

/// Whether `h[i .. i + n.len()]` equals `n`.
fn window_eq(h: &Vec<char>, n: &Vec<char>, i: usize) -> (r: bool)
    requires
        i + n@.len() <= h@.len(),
    ensures
        r == (h@.subrange(i as int, i as int + n@.len() as int) == n@),
{
    let hn = h.len();
    let mut j: usize = 0;
    while j < n.len()
        invariant
            j <= n@.len(),
            i + n@.len() <= h@.len(),
            hn == h@.len(),
            forall|k: int| 0 <= k < j ==> h@[i + k] == n@[k],
        decreases n@.len() - j,
    {
        if h[i + j] != n[j] {
            proof {
                assert(h@.subrange(i as int, i as int + n@.len() as int)[j as int] == h@[i + j]);
            }
            return false;
        }
        j = j + 1;
    }
    proof {
        assert(h@.subrange(i as int, i as int + n@.len() as int) =~= n@);
    }
    true
}

/// Position of the first occurrence of `n` in `h`, if any.
pub fn find_sub(h: &Vec<char>, n: &Vec<char>) -> (r: Option<usize>)
    ensures
        match r {
            Some(i) => spec_find(h@, n@) == Some(i as int),
            None => spec_find(h@, n@) is None,
        },
{
    if n.len() > h.len() {
        return None;
    }
    if n.len() == 0 {
        proof {
            assert(h@.subrange(0, 0) =~= n@);
        }
        return Some(0);
    }
    let mut i: usize = 0;
    let last = h.len() - n.len();
    while i <= last
        invariant
            0 <= i <= last + 1,
            last == h@.len() - n@.len(),
            0 < n@.len() <= h@.len(),
            h@.len() <= usize::MAX,
            spec_find(h@, n@) == spec_find_from(h@, n@, i as int),
        decreases last + 1 - i,
    {
        if window_eq(h, n, i) {
            return Some(i);
        }
        i = i + 1;
    }
    None
}

/// Whether `n` occurs in `h`.
pub fn has_sub(h: &Vec<char>, n: &Vec<char>) -> (r: bool)
    ensures
        r == contains_sub(h@, n@),
{
    match find_sub(h, n) {
        Some(_) => true,
        None => false,
    }
}

/// The digit characters of `s`, in order.
pub open spec fn spec_digits(s: Seq<char>) -> Seq<char>
    decreases s.len(),
{
    if s.len() == 0 {
        Seq::empty()
    } else if is_digit(s.last()) {
        spec_digits(s.drop_last()).push(s.last())
    } else {
        spec_digits(s.drop_last())
    }
}

/// The digit characters of `v`, in order.
pub fn filter_digits(v: &Vec<char>) -> (r: Vec<char>)
    ensures
        r@ == spec_digits(v@),
{
    let mut r: Vec<char> = Vec::new();
    let mut i: usize = 0;
    while i < v.len()
        invariant
            i <= v@.len(),
            r@ == spec_digits(v@.subrange(0, i as int)),
        decreases v@.len() - i,
    {
        proof {
            assert(v@.subrange(0, i as int + 1).drop_last() =~= v@.subrange(0, i as int));
            assert(v@.subrange(0, i as int + 1).last() == v@[i as int]);
        }
        if is_digit_c(v[i]) {
            r.push(v[i]);
        }
        i = i + 1;
    }
    proof {
        assert(v@.subrange(0, v@.len() as int) =~= v@);
    }
    r
}

/// Every character of `s` is a decimal digit.
pub open spec fn all_digits(s: Seq<char>) -> bool {
    forall|i: int| 0 <= i < s.len() ==> is_digit(#[trigger] s[i])
}

/// The numeric value of a string of decimal digits.
pub open spec fn digits_val(s: Seq<char>) -> int
    decreases s.len(),
{
    if s.len() == 0 {
        0
    } else {
        digits_val(s.drop_last()) * 10 + digit_val(s.last())
    }
}

pub proof fn lemma_digits_val_bounds(s: Seq<char>)
    requires
        all_digits(s),
    ensures
        digits_val(s) >= 0,
        s.len() > 0 ==> digits_val(s) >= digit_val(s[0]),
    decreases s.len(),
{
    if s.len() > 0 {
        assert(forall|i: int| 0 <= i < s.drop_last().len() ==> is_digit(#[trigger] s.drop_last()[i]));
        lemma_digits_val_bounds(s.drop_last());
        if s.len() > 1 {
            assert(s.drop_last()[0] == s[0]);
        }
    }
}

/// Extending a digit string on the right can only grow its value.
pub proof fn lemma_digits_val_prefix(s: Seq<char>, i: int)
    requires
        all_digits(s),
        0 <= i <= s.len(),
    ensures
        digits_val(s.subrange(0, i)) <= digits_val(s),
    decreases s.len() - i,
{
    if i < s.len() {
        lemma_digits_val_prefix(s, i + 1);
        let a = s.subrange(0, i);
        let b = s.subrange(0, i + 1);
        assert(b.drop_last() =~= a);
        assert(is_digit(b.last()));
        assert(forall|j: int| 0 <= j < a.len() ==> is_digit(#[trigger] a[j]));
        lemma_digits_val_bounds(a);
        assert(digits_val(b) == digits_val(a) * 10 + digit_val(b.last()));
        assert(digits_val(a) * 10 >= digits_val(a)) by (nonlinear_arith)
            requires
                digits_val(a) >= 0,
        ;
    } else {
        assert(s.subrange(0, i) =~= s);
    }
}

/// The value of a nonempty all-digit string, if it fits in a `u32`.
pub open spec fn parse_u32_digits(s: Seq<char>) -> Option<u32> {
    if s.len() == 0 || digits_val(s) > u32::MAX {
        None
    } else {
        Some(digits_val(s) as u32)
    }
}

/// Parses a string of decimal digits as a `u32`; `None` if `v` is empty or
/// the value does not fit.
pub fn parse_digits_u32(v: &Vec<char>) -> (r: Option<u32>)
    requires
        all_digits(v@),
    ensures
        r == parse_u32_digits(v@),
{
    if v.len() == 0 {
        return None;
    }
    let mut acc: u64 = 0;
    let mut i: usize = 0;
    while i < v.len()
        invariant
            i <= v@.len(),
            all_digits(v@),
            acc == digits_val(v@.subrange(0, i as int)),
            acc <= u32::MAX,
        decreases v@.len() - i,
    {
        let d = (v[i] as u32) - 48;
        proof {
            assert(v@.subrange(0, i as int + 1).drop_last() =~= v@.subrange(0, i as int));
            assert(v@.subrange(0, i as int + 1).last() == v@[i as int]);
        }
        let next = acc * 10 + (d as u64);
        i = i + 1;
        if next > u32::MAX as u64 {
            proof {
                lemma_digits_val_prefix(v@, i as int);
            }
            return None;
        }
        acc = next;
    }
    proof {
        assert(v@.subrange(0, v@.len() as int) =~= v@);
    }
    Some(acc as u32)
}

/// Every character that `spec_digits` keeps is a digit.
pub proof fn lemma_spec_digits_all(s: Seq<char>)
    ensures
        all_digits(spec_digits(s)),
    decreases s.len(),
{
    if s.len() > 0 {
        lemma_spec_digits_all(s.drop_last());
        let prev = spec_digits(s.drop_last());
        if is_digit(s.last()) {
            assert forall|i: int| 0 <= i < spec_digits(s).len() implies is_digit(
                #[trigger] spec_digits(s)[i],
            ) by {
                if i < prev.len() {
                    assert(spec_digits(s)[i] == prev[i]);
                }
            }
        }
    }
}

/// Ten to the power `k`.
pub open spec fn pow10(k: int) -> int
    decreases k,
{
    if k <= 0 {
        1
    } else {
        10 * pow10(k - 1)
    }
}

/// A digit string's value is below ten to its length.
pub proof fn lemma_digits_val_upper(s: Seq<char>)
    requires
        all_digits(s),
    ensures
        digits_val(s) < pow10(s.len() as int),
    decreases s.len(),
{
    if s.len() > 0 {
        assert(forall|i: int|
            0 <= i < s.drop_last().len() ==> is_digit(#[trigger] s.drop_last()[i]));
        lemma_digits_val_upper(s.drop_last());
        assert(digit_val(s.last()) <= 9);
    }
}

/// The value of a nonempty all-digit string, if it fits in a `u64`.
pub open spec fn parse_u64_digits(s: Seq<char>) -> Option<u64> {
    if s.len() == 0 || digits_val(s) > u64::MAX {
        None
    } else {
        Some(digits_val(s) as u64)
    }
}

/// Parses a string of decimal digits as a `u64`; `None` if `v` is empty or
/// the value does not fit.
pub fn parse_digits_u64(v: &Vec<char>) -> (r: Option<u64>)
    requires
        all_digits(v@),
    ensures
        r == parse_u64_digits(v@),
{
    if v.len() == 0 {
        return None;
    }
    let mut acc: u128 = 0;
    let mut i: usize = 0;
    while i < v.len()
        invariant
            i <= v@.len(),
            all_digits(v@),
            acc == digits_val(v@.subrange(0, i as int)),
            acc <= u64::MAX,
        decreases v@.len() - i,
    {
        let d = (v[i] as u32) - 48;
        proof {
            assert(v@.subrange(0, i as int + 1).drop_last() =~= v@.subrange(0, i as int));
            assert(v@.subrange(0, i as int + 1).last() == v@[i as int]);
        }
        let next = acc * 10 + (d as u128);
        i = i + 1;
        if next > u64::MAX as u128 {
            proof {
                lemma_digits_val_prefix(v@, i as int);
            }
            return None;
        }
        acc = next;
    }
    proof {
        assert(v@.subrange(0, v@.len() as int) =~= v@);
    }
    Some(acc as u64)
}

/// `s` with every comma removed.
pub open spec fn remove_commas(s: Seq<char>) -> Seq<char>
    decreases s.len(),
{
    if s.len() == 0 {
        Seq::empty()
    } else if s.last() == ',' {
        remove_commas(s.drop_last())
    } else {
        remove_commas(s.drop_last()).push(s.last())
    }
}

/// `v` with every comma removed.
pub fn remove_commas_c(v: &Vec<char>) -> (r: Vec<char>)
    ensures
        r@ == remove_commas(v@),
{
    let mut r: Vec<char> = Vec::new();
    let mut i: usize = 0;
    while i < v.len()
        invariant
            i <= v@.len(),
            r@ == remove_commas(v@.subrange(0, i as int)),
        decreases v@.len() - i,
    {
        proof {
            assert(v@.subrange(0, i as int + 1).drop_last() =~= v@.subrange(0, i as int));
            assert(v@.subrange(0, i as int + 1).last() == v@[i as int]);
        }
        if v[i] != ',' {
            r.push(v[i]);
        }
        i = i + 1;
    }
    proof {
        assert(v@.subrange(0, v@.len() as int) =~= v@);
    }
    r
}

/// The decimal rendering of a nonnegative integer, without leading zeros.
pub open spec fn dec_str(n: int) -> Seq<char>
    decreases n,
{
    if n < 10 {
        seq![digit_char(n)]
    } else {
        dec_str(n / 10).push(digit_char(n % 10))
    }
}

fn u32_dec_chars(n: u32) -> (v: Vec<char>)
    ensures
        v@ == dec_str(n as int),
    decreases n,
{
    if n < 10 {
        let mut v: Vec<char> = Vec::new();
        v.push(digit_char_c(n));
        proof {
            assert(v@ =~= dec_str(n as int));
        }
        v
    } else {
        let mut v = u32_dec_chars(n / 10);
        v.push(digit_char_c(n % 10));
        v
    }
}

/// The decimal rendering of `n`.
pub fn u32_string(n: u32) -> (s: String)
    ensures
        s@ == dec_str(n as int),
{
    let v = u32_dec_chars(n);
    chars_to_string(&v)
}

/// Index of the first non-space character of `s` (its length if all spaces).
pub open spec fn trim_start_count(s: Seq<char>) -> int
    decreases s.len(),
{
    if s.len() == 0 || !is_space(s[0]) {
        0
    } else {
        1 + trim_start_count(s.drop_first())
    }
}

/// Number of trailing space characters of `s`.
pub open spec fn trim_end_count(s: Seq<char>) -> int
    decreases s.len(),
{
    if s.len() == 0 || !is_space(s.last()) {
        0
    } else {
        1 + trim_end_count(s.drop_last())
    }
}

pub proof fn lemma_trim_start_count(s: Seq<char>)
    ensures
        0 <= trim_start_count(s) <= s.len(),
        forall|j: int| 0 <= j < trim_start_count(s) ==> is_space(#[trigger] s[j]),
        trim_start_count(s) < s.len() ==> !is_space(s[trim_start_count(s)]),
    decreases s.len(),
{
    if s.len() > 0 && is_space(s[0]) {
        lemma_trim_start_count(s.drop_first());
        assert forall|j: int| 0 <= j < trim_start_count(s) implies is_space(#[trigger] s[j]) by {
            if j > 0 {
                assert(is_space(s.drop_first()[j - 1]));
                assert(s.drop_first()[j - 1] == s[j]);
            }
        }
        if trim_start_count(s) < s.len() {
            assert(s.drop_first()[trim_start_count(s) - 1] == s[trim_start_count(s)]);
        }
    }
}

pub proof fn lemma_trim_end_count(s: Seq<char>)
    ensures
        0 <= trim_end_count(s) <= s.len(),
        forall|j: int| s.len() - trim_end_count(s) <= j < s.len() ==> is_space(#[trigger] s[j]),
        trim_end_count(s) < s.len() ==> !is_space(s[s.len() - trim_end_count(s) - 1]),
    decreases s.len(),
{
    if s.len() > 0 && is_space(s.last()) {
        lemma_trim_end_count(s.drop_last());
        assert forall|j: int| s.len() - trim_end_count(s) <= j < s.len() implies is_space(
            #[trigger] s[j],
        ) by {
            if j < s.len() - 1 {
                assert(is_space(s.drop_last()[j]));
                assert(s.drop_last()[j] == s[j]);
            }
        }
        if trim_end_count(s) < s.len() {
            assert(s.drop_last()[s.len() - trim_end_count(s) - 1] == s[s.len() - trim_end_count(s)
                - 1]);
        }
    }
}

/// A copy of `v[from .. to]`.
pub fn copy_range(v: &Vec<char>, from: usize, to: usize) -> (r: Vec<char>)
    requires
        from <= to <= v@.len(),
    ensures
        r@ == v@.subrange(from as int, to as int),
{
    let mut r: Vec<char> = Vec::new();
    let mut i: usize = from;
    while i < to
        invariant
            from <= i <= to <= v@.len(),
            r@ == v@.subrange(from as int, i as int),
        decreases to - i,
    {
        r.push(v[i]);
        i = i + 1;
        proof {
            assert(r@ =~= v@.subrange(from as int, i as int));
        }
    }
    r
}

/// `s` without leading and trailing spaces.
pub open spec fn spec_trim(s: Seq<char>) -> Seq<char> {
    let a = trim_start_count(s);
    let b = s.len() - trim_end_count(s);
    if a <= b {
        s.subrange(a, b)
    } else {
        Seq::empty()
    }
}

/// `v` without leading and trailing spaces.
pub fn trim_chars(v: &Vec<char>) -> (r: Vec<char>)
    ensures
        r@ == spec_trim(v@),
{
    let n = v.len();
    let mut a: usize = 0;
    while a < n && is_space_c(v[a])
        invariant
            a <= n,
            n == v@.len(),
            forall|j: int| 0 <= j < a ==> is_space(#[trigger] v@[j]),
        decreases n - a,
    {
        a = a + 1;
    }
    let mut b: usize = n;
    while b > a && is_space_c(v[b - 1])
        invariant
            a <= b <= n,
            n == v@.len(),
            forall|j: int| b <= j < n ==> is_space(#[trigger] v@[j]),
        decreases b,
    {
        b = b - 1;
    }
    let mut r: Vec<char> = Vec::new();
    let mut i: usize = a;
    while i < b
        invariant
            a <= i <= b <= n,
            n == v@.len(),
            r@ == v@.subrange(a as int, i as int),
        decreases b - i,
    {
        r.push(v[i]);
        i = i + 1;
        proof {
            assert(r@ =~= v@.subrange(a as int, i as int));
        }
    }
    proof {
        lemma_trim_start_count(v@);
        lemma_trim_end_count(v@);
        let ta = trim_start_count(v@);
        let te = trim_end_count(v@);
        if a < b {
            // the scan stopped on non-space characters at both ends
            assert(!is_space(v@[a as int]));
            assert(!is_space(v@[b - 1]));
            assert(ta == a) by {
                if ta < a {
                    assert(is_space(v@[ta]));
                } else if ta > a {
                    assert(is_space(v@[a as int]));
                }
            };
            assert(n - te == b) by {
                if n - te < b {
                    assert(is_space(v@[b - 1]));
                } else if n - te > b {
                    assert(is_space(v@[n - te - 1]));
                }
            };
            assert(r@ =~= spec_trim(v@));
        } else {
            // every character is a space, so both counts span the whole string
            assert(forall|j: int| 0 <= j < n ==> is_space(#[trigger] v@[j]));
            assert(ta == n) by {
                if ta < n {
                    assert(is_space(v@[ta]));
                }
            };
            assert(te == n) by {
                if te < n {
                    assert(is_space(v@[n - te - 1]));
                }
            };
            if n == 0 {
                assert(r@ =~= spec_trim(v@));
            } else {
                assert(ta > n - te);
                assert(r@ =~= spec_trim(v@));
            }
        }
    }
    r
}

} // verus!
