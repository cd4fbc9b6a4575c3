//! Parsing primitives for the input rows: splitting a line at a separator,
//! reading decimal numbers, and the `day.month.year` date pattern.

use vstd::prelude::*;
use crate::date::{Date, spec_date_valid, MAX_YEAR};
use crate::text::push_char;

verus! {

/// Splits `s` at every occurrence of `sep`, keeping empty fields: `n`
/// separators yield `n + 1` fields whose concatenation, with `sep` between,
/// is `s` again.
pub open spec fn spec_split(s: Seq<char>, sep: char) -> Seq<Seq<char>>
    decreases s.len(),
{
    if s.len() == 0 {
        seq![Seq::<char>::empty()]
    } else if s.last() == sep {
        spec_split(s.drop_last(), sep).push(Seq::<char>::empty())
    } else {
        let rest = spec_split(s.drop_last(), sep);
        rest.update(rest.len() - 1, rest.last().push(s.last()))
    }
}

pub proof fn lemma_split_nonempty(s: Seq<char>, sep: char)
    ensures
        spec_split(s, sep).len() >= 1,
    decreases s.len(),
{
    if s.len() > 0 {
        lemma_split_nonempty(s.drop_last(), sep);
    }
}

/// Splits a line into its fields, in order.
pub fn split_on(s: &str, sep: char) -> (r: Vec<String>)
    ensures
        r.deep_view() == spec_split(s@, sep),
{
    let mut fields: Vec<String> = Vec::new();
    let mut cur: String = String::new();
    let len = s.unicode_len();
    let mut i: usize = 0;
    while i < len
        invariant
            i <= len,
            len == s@.len(),
            fields.deep_view().push(cur@) == spec_split(s@.subrange(0, i as int), sep),
        decreases len - i,
    {
        let c = s.get_char(i);
        proof {
            lemma_split_nonempty(s@.subrange(0, i as int), sep);
            assert(s@.subrange(0, i as int + 1).drop_last() =~= s@.subrange(0, i as int));
        }
        if c == sep {
            fields.push(cur);
            cur = String::new();
            proof {
                assert(fields.deep_view().push(cur@) =~= spec_split(
                    s@.subrange(0, i as int + 1),
                    sep,
                ));
            }
        } else {
            push_char(&mut cur, c);
            proof {
                assert(fields.deep_view().push(cur@) =~= spec_split(
                    s@.subrange(0, i as int + 1),
                    sep,
                ));
            }
        }
        i = i + 1;
    }
    proof {
        assert(s@.subrange(0, len as int) =~= s@);
    }
    fields.push(cur);
    proof {
        assert(fields.deep_view() =~= spec_split(s@, sep));
    }
    fields
}

/// `c` is a decimal digit.
pub open spec fn spec_is_digit(c: char) -> bool {
    '0' as int <= c as int <= '9' as int
}

/// The value of one decimal digit.
pub open spec fn spec_digit_val(c: char) -> int {
    c as int - '0' as int
}

/// Every character of `s` is a decimal digit.
pub open spec fn spec_all_digits(s: Seq<char>) -> bool {
    forall|i: int| 0 <= i < s.len() ==> spec_is_digit(s[i])
}

/// The number that the digit string `s` denotes, most significant digit
/// first; leading zeros are allowed.
pub open spec fn spec_dec_value(s: Seq<char>) -> int
    decreases s.len(),
{
    if s.len() == 0 {
        0
    } else {
        spec_dec_value(s.drop_last()) * 10 + spec_digit_val(s.last())
    }
}

pub open spec fn spec_pow10(n: nat) -> int
    decreases n,
{
    if n == 0 {
        1
    } else {
        10 * spec_pow10((n - 1) as nat)
    }
}

pub proof fn lemma_pow10_le(n: nat, m: nat)
    requires
        n <= m,
    ensures
        1 <= spec_pow10(n) <= spec_pow10(m),
    decreases m,
{
    if m > 0 {
        if n == m {
            lemma_pow10_le((n - 1) as nat, (m - 1) as nat);
        } else {
            lemma_pow10_le(n, (m - 1) as nat);
        }
    }
}

pub proof fn lemma_dec_value_bound(s: Seq<char>)
    requires
        spec_all_digits(s),
    ensures
        0 <= spec_dec_value(s) < spec_pow10(s.len()),
    decreases s.len(),
{
    if s.len() > 0 {
        assert(spec_all_digits(s.drop_last()));
        lemma_dec_value_bound(s.drop_last());
    }
}

/// Reads a number of one to `max_len` digits; anything else is rejected.
pub fn parse_number(s: &str, max_len: usize) -> (r: Option<u32>)
    requires
        1 <= max_len <= 4,
    ensures
        (match r {
            Some(v) => 1 <= s@.len() <= max_len && spec_all_digits(s@) && v as int
                == spec_dec_value(s@) && v < 10000,
            None => !(1 <= s@.len() <= max_len && spec_all_digits(s@)),
        }),
{
    let len = s.unicode_len();
    if len < 1 || len > max_len {
        return None;
    }
    let mut acc: u32 = 0;
    let mut i: usize = 0;
    while i < len
        invariant
            i <= len,
            len == s@.len(),
            1 <= len <= max_len <= 4,
            spec_all_digits(s@.subrange(0, i as int)),
            acc as int == spec_dec_value(s@.subrange(0, i as int)),
            acc < 10000,
        decreases len - i,
    {
        let c = s.get_char(i);
        let cv = c as u32;
        if cv < 48 || cv > 57 {
            return None;
        }
        proof {
            lemma_dec_value_bound(s@.subrange(0, i as int));
            lemma_pow10_le((i as nat), 3nat);
            assert(spec_pow10(0nat) == 1);
            assert(spec_pow10(1nat) == 10);
            assert(spec_pow10(2nat) == 100);
            assert(spec_pow10(3nat) == 1000);
            assert(s@.subrange(0, i as int + 1).drop_last() =~= s@.subrange(0, i as int));
        }
        acc = acc * 10 + (cv - 48);
        i = i + 1;
    }
    proof {
        assert(s@.subrange(0, len as int) =~= s@);
    }
    Some(acc)
}

/// The `day.month.year` date pattern: one or two digits of day, one or two
/// of month, one to four of year, separated by dots, naming a real calendar
/// day.
pub open spec fn spec_parse_date(s: Seq<char>) -> Option<Date> {
    let parts = spec_split(s, '.');
    if parts.len() == 3
        && 1 <= parts[0].len() <= 2 && spec_all_digits(parts[0])
        && 1 <= parts[1].len() <= 2 && spec_all_digits(parts[1])
        && 1 <= parts[2].len() <= 4 && spec_all_digits(parts[2]) {
        let d = spec_dec_value(parts[0]);
        let m = spec_dec_value(parts[1]);
        let y = spec_dec_value(parts[2]);
        if spec_date_valid(y, m, d) {
            Some(Date { year: y as i32, month: m as u32, day: d as u32 })
        } else {
            None
        }
    } else {
        None
    }
}

/// Parses a date in the `day.month.year` pattern; rejects everything that
/// does not name a real calendar day in that shape.
pub fn parse_date(s: &str) -> (r: Option<Date>)
    ensures
        r == spec_parse_date(s@),
        (r matches Some(d) ==> d.wf() && 0 <= d.year <= 9999),
{
    let parts = split_on(s, '.');
    if parts.len() != 3 {
        return None;
    }
    let day = match parse_number(parts[0].as_str(), 2) {
        Some(v) => v,
        None => {
            return None;
        },
    };
    let month = match parse_number(parts[1].as_str(), 2) {
        Some(v) => v,
        None => {
            return None;
        },
    };
    let year = match parse_number(parts[2].as_str(), 4) {
        Some(v) => v,
        None => {
            return None;
        },
    };
    Date::new(year as i32, month, day)
}

} // verus!
