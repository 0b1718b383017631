//! The textual forms of dates: `YYYY-MM-DD` and `YYYY-MM`, written and read
//! strictly, with an exact account of every rejected input.

use vstd::prelude::*;
use crate::dates::Date;
use crate::dates::MAX_YEAR;
use crate::dates::spec_days_in_month;
use crate::dates::spec_date_valid;

verus! {

/// Why a date or month argument was rejected. Each variant carries the text
/// that was at fault.
#[derive(Debug)]
pub enum DateError {
    /// A month argument did not consist of exactly two `-`-separated parts.
    Format(String),
    /// A date string or a numeric component could not be read.
    Parse(String),
    /// The year and month are numbers but name no month this library accepts.
    Construction(String),
}

pub open spec fn spec_is_digit(c: char) -> bool {
    48 <= c as u32 <= 57
}

pub open spec fn spec_digit_val(c: char) -> int {
    c as u32 - 48
}

pub open spec fn spec_dec_digit(d: int) -> char {
    if d == 0 {
        '0'
    } else if d == 1 {
        '1'
    } else if d == 2 {
        '2'
    } else if d == 3 {
        '3'
    } else if d == 4 {
        '4'
    } else if d == 5 {
        '5'
    } else if d == 6 {
        '6'
    } else if d == 7 {
        '7'
    } else if d == 8 {
        '8'
    } else {
        '9'
    }
}

pub open spec fn spec_all_digits(s: Seq<char>) -> bool {
    forall|i: int| 0 <= i < s.len() ==> spec_is_digit(#[trigger] s[i])
}

/// The number a sequence of decimal digits denotes.
pub open spec fn spec_dec_value(s: Seq<char>) -> int
    decreases s.len(),
{
    if s.len() == 0 {
        0
    } else {
        spec_dec_value(s.drop_last()) * 10 + spec_digit_val(s.last())
    }
}

/// A number zero-padded to two digits.
pub open spec fn spec_format2(n: int) -> Seq<char> {
    seq![spec_dec_digit(n / 10), spec_dec_digit(n % 10)]
}

/// A number zero-padded to four digits.
pub open spec fn spec_format4(n: int) -> Seq<char> {
    seq![
        spec_dec_digit(n / 1000),
        spec_dec_digit((n / 100) % 10),
        spec_dec_digit((n / 10) % 10),
        spec_dec_digit(n % 10),
    ]
}

/// The ISO form `YYYY-MM-DD` of a date.
pub open spec fn spec_format_date(d: Date) -> Seq<char> {
    spec_format4(d.year as int) + seq!['-'] + spec_format2(d.month as int) + seq!['-']
        + spec_format2(d.day as int)
}

/// The form `YYYY-MM` of a month.
pub open spec fn spec_format_year_month(year: int, month: int) -> Seq<char> {
    spec_format4(year) + seq!['-'] + spec_format2(month)
}

fn digit_str(d: u32) -> (r: &'static str)
    requires
        d < 10,
    ensures
        r@ == seq![spec_dec_digit(d as int)],
{
    proof {
        reveal_strlit("0");
        reveal_strlit("1");
        reveal_strlit("2");
        reveal_strlit("3");
        reveal_strlit("4");
        reveal_strlit("5");
        reveal_strlit("6");
        reveal_strlit("7");
        reveal_strlit("8");
        reveal_strlit("9");
    }
    let r = if d == 0 {
        "0"
    } else if d == 1 {
        "1"
    } else if d == 2 {
        "2"
    } else if d == 3 {
        "3"
    } else if d == 4 {
        "4"
    } else if d == 5 {
        "5"
    } else if d == 6 {
        "6"
    } else if d == 7 {
        "7"
    } else if d == 8 {
        "8"
    } else {
        "9"
    };
    proof {
        assert(r@ =~= seq![spec_dec_digit(d as int)]);
    }
    r
}

/// Writes a date as `YYYY-MM-DD`, the form used in the request URL and the
/// output file names and keys.
pub fn format_date(d: &Date) -> (r: String)
    requires
        spec_date_valid(*d),
    ensures
        r@ == spec_format_date(*d),
{
    proof {
        reveal_strlit("-");
    }
    let mut out = String::new();
    out.append(digit_str(d.year / 1000));
    out.append(digit_str((d.year / 100) % 10));
    out.append(digit_str((d.year / 10) % 10));
    out.append(digit_str(d.year % 10));
    out.append("-");
    out.append(digit_str(d.month / 10));
    out.append(digit_str(d.month % 10));
    out.append("-");
    out.append(digit_str(d.day / 10));
    out.append(digit_str(d.day % 10));
    proof {
        assert(out@ =~= spec_format_date(*d));
    }
    out
}

/// Writes a month as `YYYY-MM`.
pub fn format_year_month(year: u32, month: u32) -> (r: String)
    requires
        year <= MAX_YEAR,
        1 <= month <= 12,
    ensures
        r@ == spec_format_year_month(year as int, month as int),
{
    proof {
        reveal_strlit("-");
    }
    let mut out = String::new();
    out.append(digit_str(year / 1000));
    out.append(digit_str((year / 100) % 10));
    out.append(digit_str((year / 10) % 10));
    out.append(digit_str(year % 10));
    out.append("-");
    out.append(digit_str(month / 10));
    out.append(digit_str(month % 10));
    proof {
        assert(out@ =~= spec_format_year_month(year as int, month as int));
    }
    out
}

proof fn lemma_dec_value_nonneg(s: Seq<char>)
    requires
        spec_all_digits(s),
    ensures
        spec_dec_value(s) >= 0,
    decreases s.len(),
{
    if s.len() > 0 {
        assert(spec_all_digits(s.drop_last()));
        lemma_dec_value_nonneg(s.drop_last());
    }
}

/// Reading more digits never makes the denoted number smaller.
proof fn lemma_dec_value_prefix(s: Seq<char>, i: int)
    requires
        spec_all_digits(s),
        0 <= i <= s.len(),
    ensures
        spec_dec_value(s) >= spec_dec_value(s.take(i)),
    decreases s.len() - i,
{
    if i < s.len() {
        assert(s.take(i + 1).drop_last() =~= s.take(i));
        assert(s.take(i + 1).last() == s[i]);
        assert(spec_all_digits(s.take(i)));
        lemma_dec_value_nonneg(s.take(i));
        assert(spec_dec_value(s.take(i + 1)) == spec_dec_value(s.take(i)) * 10 + spec_digit_val(
            s[i],
        ));
        lemma_dec_value_prefix(s, i + 1);
    } else {
        assert(s.take(i) =~= s);
    }
}

/// A nonempty, all-digit string whose value fits in a `u32`; what `parse_u32`
/// accepts.
pub open spec fn spec_parseable_u32(s: Seq<char>) -> bool {
    &&& s.len() > 0
    &&& spec_all_digits(s)
    &&& spec_dec_value(s) <= u32::MAX
}

/// Reads a nonempty string of decimal digits as a number.
pub fn parse_u32(s: &str) -> (r: Option<u32>)
    ensures
        r is Some <==> spec_parseable_u32(s@),
        r is Some ==> r.unwrap() == spec_dec_value(s@),
{
    let n = s.unicode_len();
    if n == 0 {
        return None;
    }
    let mut acc: u32 = 0;
    let mut i: usize = 0;
    while i < n
        invariant
            0 <= i <= n,
            n == s@.len(),
            spec_all_digits(s@.take(i as int)),
            acc == spec_dec_value(s@.take(i as int)),
        decreases n - i,
    {
        let c = s.get_char(i);
        let u = c as u32;
        if u < 48 || u > 57 {
            assert(!spec_is_digit(s@[i as int]));
            return None;
        }
        let d = u - 48;
        proof {
            assert(s@.take(i + 1).drop_last() =~= s@.take(i as int));
            assert(s@.take(i + 1).last() == s@[i as int]);
        }
        let next = match acc.checked_mul(10) {
            Some(x) => x.checked_add(d),
            None => None,
        };
        match next {
            Some(x) => {
                acc = x;
            },
            None => {
                proof {
                    if spec_all_digits(s@) {
                        lemma_dec_value_nonneg(s@.take(i as int));
                        assert(spec_dec_value(s@.take(i + 1)) > u32::MAX);
                        lemma_dec_value_prefix(s@, i + 1);
                    }
                }
                return None;
            },
        }
        i = i + 1;
    }
    proof {
        assert(s@.take(n as int) =~= s@);
    }
    Some(acc)
}

pub open spec fn spec_pow10(n: nat) -> int
    decreases n,
{
    if n == 0 {
        1
    } else {
        10 * spec_pow10((n - 1) as nat)
    }
}

proof fn lemma_dec_value_bound(s: Seq<char>)
    requires
        spec_all_digits(s),
    ensures
        0 <= spec_dec_value(s) < spec_pow10(s.len()),
    decreases s.len(),
{
    if s.len() > 0 {
        assert(spec_all_digits(s.drop_last()));
        lemma_dec_value_bound(s.drop_last());
    }
}

/// The text of an ISO date `YYYY-MM-DD`: ten characters, digits and hyphens
/// in their places, naming a day that exists in its month.
pub open spec fn spec_iso_date_text(s: Seq<char>) -> bool {
    &&& s.len() == 10
    &&& s[4] == '-'
    &&& s[7] == '-'
    &&& spec_all_digits(s.subrange(0, 4))
    &&& spec_all_digits(s.subrange(5, 7))
    &&& spec_all_digits(s.subrange(8, 10))
    &&& spec_date_valid(spec_date_of(s))
}

/// The date an ISO date text denotes.
pub open spec fn spec_date_of(s: Seq<char>) -> Date {
    Date {
        year: spec_dec_value(s.subrange(0, 4)) as u32,
        month: spec_dec_value(s.subrange(5, 7)) as u32,
        day: spec_dec_value(s.subrange(8, 10)) as u32,
    }
}

/// Reads a date given as strict `YYYY-MM-DD`; any other input is rejected
/// with the offending text.
pub fn parse_iso_date(s: &str) -> (r: Result<Date, DateError>)
    ensures
        r is Ok <==> spec_iso_date_text(s@),
        r is Ok ==> r.unwrap() == spec_date_of(s@) && spec_date_valid(spec_date_of(s@)),
        r is Err ==> (r.unwrap_err() matches DateError::Parse(t) && t@ == s@),
{
    proof {
        assert(spec_pow10(0) == 1);
        assert(spec_pow10(1) == 10);
        assert(spec_pow10(2) == 100);
        assert(spec_pow10(3) == 1000);
        assert(spec_pow10(4) == 10000);
    }
    let n = s.unicode_len();
    if n != 10 {
        return Err(DateError::Parse(s.to_owned()));
    }
    if !(s.get_char(4) == '-' && s.get_char(7) == '-') {
        return Err(DateError::Parse(s.to_owned()));
    }
    let yp = s.substring_char(0, 4);
    let mp = s.substring_char(5, 7);
    let dp = s.substring_char(8, 10);
    proof {
        if spec_all_digits(yp@) {
            lemma_dec_value_bound(yp@);
        }
        if spec_all_digits(mp@) {
            lemma_dec_value_bound(mp@);
        }
        if spec_all_digits(dp@) {
            lemma_dec_value_bound(dp@);
        }
    }
    let year = match parse_u32(yp) {
        Some(y) => y,
        None => {
            return Err(DateError::Parse(s.to_owned()));
        },
    };
    let month = match parse_u32(mp) {
        Some(m) => m,
        None => {
            return Err(DateError::Parse(s.to_owned()));
        },
    };
    let day = match parse_u32(dp) {
        Some(d) => d,
        None => {
            return Err(DateError::Parse(s.to_owned()));
        },
    };
    if 1 <= month && month <= 12 && 1 <= day && day <= crate::dates::days_in_month(year, month) {
        Ok(Date { year, month, day })
    } else {
        Err(DateError::Parse(s.to_owned()))
    }
}

/// How many times a character occurs in a string.
pub open spec fn spec_count_char(s: Seq<char>, c: char) -> int
    decreases s.len(),
{
    if s.len() == 0 {
        0
    } else {
        spec_count_char(s.drop_last(), c) + if s.last() == c {
            1int
        } else {
            0int
        }
    }
}

/// The index of the first occurrence of a character, or the string's length
/// if it does not occur.
pub open spec fn spec_first_index(s: Seq<char>, c: char) -> int
    decreases s.len(),
{
    if s.len() == 0 {
        0
    } else if s[0] == c {
        0
    } else {
        1 + spec_first_index(s.drop_first(), c)
    }
}

proof fn lemma_first_index_at(s: Seq<char>, c: char, k: int)
    requires
        0 <= k < s.len(),
        s[k] == c,
        forall|j: int| 0 <= j < k ==> s[j] != c,
    ensures
        spec_first_index(s, c) == k,
    decreases k,
{
    if k > 0 {
        assert(forall|j: int| 0 <= j < k - 1 ==> s.drop_first()[j] != c);
        lemma_first_index_at(s.drop_first(), c, k - 1);
    }
}

/// The year part of a `YYYY-MM` argument: what stands before the hyphen.
pub open spec fn spec_month_arg_year_text(s: Seq<char>) -> Seq<char> {
    s.take(spec_first_index(s, '-'))
}

/// The month part of a `YYYY-MM` argument: what stands after the hyphen.
pub open spec fn spec_month_arg_month_text(s: Seq<char>) -> Seq<char> {
    s.skip(spec_first_index(s, '-') + 1)
}

/// A month argument this library accepts: exactly one hyphen, a number on
/// each side, the year at most four digits' worth, the month 1 through 12.
pub open spec fn spec_month_arg_valid(s: Seq<char>) -> bool {
    &&& spec_count_char(s, '-') == 1
    &&& spec_parseable_u32(spec_month_arg_year_text(s))
    &&& spec_parseable_u32(spec_month_arg_month_text(s))
    &&& spec_dec_value(spec_month_arg_year_text(s)) <= MAX_YEAR
    &&& 1 <= spec_dec_value(spec_month_arg_month_text(s)) <= 12
}

/// The first day of the month a valid `YYYY-MM` argument names.
pub open spec fn spec_month_arg_date(s: Seq<char>) -> Date {
    Date {
        year: spec_dec_value(spec_month_arg_year_text(s)) as u32,
        month: spec_dec_value(spec_month_arg_month_text(s)) as u32,
        day: 1,
    }
}

/// Reads a month argument `YYYY-MM` and returns the first day of that month.
/// The error tells the two-part shape, the unreadable number and the
/// impossible month apart, as the month-mode input checks do.
pub fn parse_month_arg(s: &str) -> (r: Result<Date, DateError>)
    ensures
        r is Ok <==> spec_month_arg_valid(s@),
        r is Ok ==> r.unwrap() == spec_month_arg_date(s@) && spec_date_valid(r.unwrap()),
        spec_count_char(s@, '-') != 1 ==> (r.unwrap_err() matches DateError::Format(t) && t@
            == s@),
        spec_count_char(s@, '-') == 1 && !spec_parseable_u32(spec_month_arg_year_text(s@)) ==> (
        r.unwrap_err() matches DateError::Parse(t) && t@ == spec_month_arg_year_text(s@)),
        spec_count_char(s@, '-') == 1 && spec_parseable_u32(spec_month_arg_year_text(s@))
            && !spec_parseable_u32(spec_month_arg_month_text(s@)) ==> (
        r.unwrap_err() matches DateError::Parse(t) && t@ == spec_month_arg_month_text(s@)),
        spec_count_char(s@, '-') == 1 && spec_parseable_u32(spec_month_arg_year_text(s@))
            && spec_parseable_u32(spec_month_arg_month_text(s@)) && !spec_month_arg_valid(s@) ==> (
        r.unwrap_err() matches DateError::Construction(t) && t@ == s@),
{
    let n = s.unicode_len();
    let mut hyphens: usize = 0;
    let mut first: usize = n;
    let mut i: usize = 0;
    while i < n
        invariant
            0 <= i <= n,
            n == s@.len(),
            hyphens <= i,
            hyphens == spec_count_char(s@.take(i as int), '-'),
            hyphens == 0 ==> first == n && (forall|j: int| 0 <= j < i ==> s@[j] != '-'),
            hyphens > 0 ==> first < i && s@[first as int] == '-' && (forall|j: int|
                0 <= j < first ==> s@[j] != '-'),
        decreases n - i,
    {
        proof {
            assert(s@.take(i + 1).drop_last() =~= s@.take(i as int));
            assert(s@.take(i + 1).last() == s@[i as int]);
        }
        if s.get_char(i) == '-' {
            if hyphens == 0 {
                first = i;
            }
            hyphens = hyphens + 1;
        }
        i = i + 1;
    }
    proof {
        assert(s@.take(n as int) =~= s@);
    }
    if hyphens != 1 {
        return Err(DateError::Format(s.to_owned()));
    }
    proof {
        lemma_first_index_at(s@, '-', first as int);
    }
    let yp = s.substring_char(0, first);
    let mp = s.substring_char(first + 1, n);
    proof {
        assert(yp@ =~= spec_month_arg_year_text(s@));
        assert(mp@ =~= spec_month_arg_month_text(s@));
    }
    let year = match parse_u32(yp) {
        Some(y) => y,
        None => {
            return Err(DateError::Parse(yp.to_owned()));
        },
    };
    let month = match parse_u32(mp) {
        Some(m) => m,
        None => {
            return Err(DateError::Parse(mp.to_owned()));
        },
    };
    if 1 <= month && month <= 12 && year <= MAX_YEAR {
        Ok(Date { year, month, day: 1 })
    } else {
        Err(DateError::Construction(s.to_owned()))
    }
}

} // verus!
