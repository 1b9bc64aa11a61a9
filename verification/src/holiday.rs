//! The holiday rule and the holiday-table date format.
//!
//! Whether a day is a trading holiday is decided from its weekday and
//! from a table of listed market holidays; fetching and storing that
//! table is a collaborator's concern. The table's dates arrive as
//! `YYYYMMDD` digit strings, parsed here.

use vstd::prelude::*;
use vstd::string::StringSliceAdditionalSpecFns;

verus! {

/// Whether a queried day is a holiday.
#[derive(Clone, Copy, Debug, PartialEq, Eq, Structural)]
pub struct HolidayQueryResult {
    /// The day is a weekend day or a listed market holiday.
    pub is_holiday: bool,
}

/// Decides whether a day is a holiday from its ISO weekday number
/// (1 = Monday … 7 = Sunday) and from whether the holiday table lists it:
/// weekend days are holidays without consulting the table.
pub fn holiday_decision(weekday_number: u32, listed: bool) -> (r: HolidayQueryResult)
    ensures
        r.is_holiday == (weekday_number == 6 || weekday_number == 7 || listed),
{
    if weekday_number == 6 || weekday_number == 7 {
        HolidayQueryResult { is_holiday: true }
    } else {
        HolidayQueryResult { is_holiday: listed }
    }
}

/// The byte is an ASCII decimal digit.
pub open spec fn spec_is_digit(b: u8) -> bool {
    48 <= b <= 57
}

/// Numeric value of a string of ASCII decimal digits, most significant
/// first.
pub open spec fn spec_digits_value(b: Seq<u8>) -> int
    recommends
        forall|i: int| 0 <= i < b.len() ==> spec_is_digit(#[trigger] b[i]),
    decreases b.len(),
{
    if b.len() == 0 {
        0
    } else {
        spec_digits_value(b.drop_last()) * 10 + (b.last() - 48)
    }
}

/// Powers of ten.
pub open spec fn spec_pow10(n: int) -> int
    decreases n,
{
    if n <= 0 {
        1
    } else {
        10 * spec_pow10(n - 1)
    }
}

proof fn lemma_digits_value_bound(b: Seq<u8>)
    requires
        forall|i: int| 0 <= i < b.len() ==> spec_is_digit(#[trigger] b[i]),
    ensures
        0 <= spec_digits_value(b) < spec_pow10(b.len() as int),
    decreases b.len(),
{
    if b.len() > 0 {
        lemma_digits_value_bound(b.drop_last());
    }
}

proof fn lemma_digits_value_step(b: Seq<u8>, k: int)
    requires
        0 <= k < b.len(),
    ensures
        spec_digits_value(b.subrange(0, k + 1)) == spec_digits_value(b.subrange(0, k)) * 10 + (
        b[k] - 48),
{
    let a = b.subrange(0, k + 1);
    assert(a.drop_last() =~= b.subrange(0, k));
    assert(a.last() == b[k]);
}

/// Numeric value of the digit slice `[lo, hi)`, at most eight digits.
#[verifier::loop_isolation(false)]
fn parse_digits(b: &[u8], lo: usize, hi: usize) -> (r: u64)
    requires
        lo <= hi <= b@.len(),
        hi - lo <= 8,
        forall|i: int| lo <= i < hi ==> spec_is_digit(#[trigger] b@[i]),
    ensures
        r == spec_digits_value(b@.subrange(lo as int, hi as int)),
        r < spec_pow10(hi - lo),
{
    let mut value: u64 = 0;
    let mut j: usize = lo;
    while j < hi
        invariant
            lo <= j <= hi,
            value == spec_digits_value(b@.subrange(lo as int, j as int)),
        decreases hi - j,
    {
        proof {
            lemma_digits_value_bound(b@.subrange(lo as int, j as int));
            lemma_digits_value_step(b@.subrange(lo as int, hi as int), j - lo);
            assert(b@.subrange(lo as int, hi as int).subrange(0, j - lo + 1) =~= b@.subrange(
                lo as int,
                j + 1,
            ));
            assert(b@.subrange(lo as int, hi as int).subrange(0, j - lo) =~= b@.subrange(
                lo as int,
                j as int,
            ));
            assert(b@.subrange(lo as int, hi as int)[j - lo] == b@[j as int]);
            lemma_pow10_small();
            lemma_pow10_increases(j - lo, 8);
        }
        value = value * 10 + (b[j] - 48) as u64;
        j = j + 1;
    }
    proof {
        lemma_digits_value_bound(b@.subrange(lo as int, hi as int));
    }
    value
}

proof fn lemma_pow10_small()
    ensures
        spec_pow10(2) == 100,
        spec_pow10(4) == 10000,
        spec_pow10(8) == 100000000,
{
    assert(spec_pow10(0) == 1);
    assert(spec_pow10(1) == 10);
    assert(spec_pow10(2) == 100);
    assert(spec_pow10(3) == 1000);
    assert(spec_pow10(4) == 10000);
    assert(spec_pow10(5) == 100000);
    assert(spec_pow10(6) == 1000000);
    assert(spec_pow10(7) == 10000000);
    assert(spec_pow10(8) == 100000000);
}

proof fn lemma_pow10_pos(n: int)
    ensures
        spec_pow10(n) >= 1,
    decreases n,
{
    if n > 0 {
        lemma_pow10_pos(n - 1);
    }
}

proof fn lemma_pow10_increases(m: int, n: int)
    requires
        m <= n,
    ensures
        spec_pow10(m) <= spec_pow10(n),
    decreases n - m,
{
    if m < n {
        lemma_pow10_increases(m, n - 1);
        lemma_pow10_pos(n - 1);
    }
}

/// Parses a holiday-table date of the form `YYYYMMDD` — exactly eight
/// ASCII digits — into its numeric key and its year, month and day
/// parts; anything else is rejected.
#[verifier::loop_isolation(false)]
pub fn parse_holiday_date(s: &str) -> (r: Option<(u64, u16, u8, u8)>)
    ensures
        r is Some <==> (s.spec_bytes().len() == 8 && forall|i: int|
            0 <= i < 8 ==> spec_is_digit(#[trigger] s.spec_bytes()[i])),
        match r {
            Some(p) => {
                &&& p.0 == spec_digits_value(s.spec_bytes())
                &&& p.1 == spec_digits_value(s.spec_bytes().subrange(0, 4))
                &&& p.2 == spec_digits_value(s.spec_bytes().subrange(4, 6))
                &&& p.3 == spec_digits_value(s.spec_bytes().subrange(6, 8))
            },
            None => true,
        },
{
    let b = s.as_bytes();
    if b.len() != 8 {
        return None;
    }
    let mut j: usize = 0;
    while j < 8
        invariant
            j <= 8,
            forall|i: int| 0 <= i < j ==> spec_is_digit(#[trigger] b@[i]),
        decreases 8 - j,
    {
        let c = b[j];
        if c < 48 || c > 57 {
            return None;
        }
        j = j + 1;
    }
    proof {
        lemma_pow10_small();
        assert(b@.subrange(0, 8) =~= b@);
    }
    let id = parse_digits(b, 0, 8);
    let year = parse_digits(b, 0, 4) as u16;
    let month = parse_digits(b, 4, 6) as u8;
    let day = parse_digits(b, 6, 8) as u8;
    Some((id, year, month, day))
}

} // verus!
