//! Bandwidth limits: texts such as `500K` or `10M`, and the quota they stand for.
use vstd::prelude::*;
use vstd::string::*;
use vstd::utf8::*;
use crate::text::{
    all_ascii_lower, all_ascii_upper, decimal, decimal_reads_back, parse_u64, to_uppercase, trim,
    trimmed, trimming_drops_what_surrounds, trimming_ignores_case, trimming_is_final, u64_value, uppercase,
};

verus! {

/// Why a text is no rate.
#[derive(Clone, Copy, Debug, PartialEq, Eq, Structural)]
pub enum RateError {
    /// What stands before the unit is no number.
    InvalidNumber,
}

impl RateError {
    pub fn message(&self) -> (r: String)
        ensures
            r@ == "Invalid rate number"@,
    {
        "Invalid rate number".to_string()
    }
}

pub open spec fn times(number: Option<nat>, unit: nat) -> Option<nat> {
    match number {
        Some(n) => Some(n * unit),
        None => None,
    }
}

/// The number of bytes per second that an upper-case text stands for: a number, which
/// may be followed by one of the units `K`, `M` and `G`.
pub open spec fn rate_value(upper: Seq<char>) -> Option<nat> {
    if upper.len() > 0 && upper.last() == 'K' {
        times(u64_value(upper.drop_last()), 1024)
    } else if upper.len() > 0 && upper.last() == 'M' {
        times(u64_value(upper.drop_last()), 1024 * 1024)
    } else if upper.len() > 0 && upper.last() == 'G' {
        times(u64_value(upper.drop_last()), 1024 * 1024 * 1024)
    } else {
        u64_value(upper)
    }
}

/// The rate, if there is one, is a number of 64 bits.
pub open spec fn rate_fits(upper: Seq<char>) -> bool {
    rate_value(upper) matches Some(v) ==> v <= u64::MAX
}

/// `r` reports the rate that `value` gives.
pub open spec fn reports(r: Result<u64, RateError>, value: Option<nat>) -> bool {
    match r {
        Ok(n) => value == Some(n as nat),
        Err(e) => value is None && e == RateError::InvalidNumber,
    }
}

/// The number before the unit, and the unit.
fn split_unit(upper: &str) -> (r: (Option<u64>, u64))
    ensures
        r.1 == 1 || r.1 == 1024 || r.1 == 1024 * 1024 || r.1 == 1024 * 1024 * 1024,
        match r.0 {
            Some(n) => rate_value(upper@) == Some((n * r.1) as nat),
            None => rate_value(upper@) is None,
        },
{
    let len: usize = upper.unicode_len();
    let unit: u64 = if len == 0 {
        1
    } else {
        let last = upper.get_char(len - 1);
        if last == 'K' {
            1024
        } else if last == 'M' {
            1024 * 1024
        } else if last == 'G' {
            1024 * 1024 * 1024
        } else {
            1
        }
    };
    let number = if unit == 1 {
        upper
    } else {
        upper.substring_char(0, len - 1)
    };
    assert(unit != 1 ==> number@ =~= upper@.drop_last());
    (parse_u64(number).ok(), unit)
}

/// Whether the rate that an upper-case text stands for is a number of 64 bits.
pub fn fits(upper: &str) -> (r: bool)
    ensures
        r == rate_fits(upper@),
{
    match split_unit(upper) {
        (Some(n), unit) => n.checked_mul(unit).is_some(),
        (None, _) => true,
    }
}

/// The rate that an upper-case text stands for.
pub fn rate_of(upper: &str) -> (r: Result<u64, RateError>)
    requires
        rate_fits(upper@),
    ensures
        reports(r, rate_value(upper@)),
{
    match split_unit(upper) {
        (Some(n), unit) => Ok(n * unit),
        (None, _) => Err(RateError::InvalidNumber),
    }
}

/// `parse_rate` can be asked about `s`, and answers `r`.
pub open spec fn answers(s: Seq<char>, r: Result<u64, RateError>) -> bool {
    &&& rate_fits(uppercase(trimmed(s)))
    &&& reports(r, rate_value(uppercase(trimmed(s))))
}

/// `s` between two blanks.
pub open spec fn between_blanks(s: Seq<char>) -> Seq<char> {
    (seq![' '] + s).push(' ')
}

/// What `parse_rate` looks at does not depend on the case of ASCII letters nor on the
/// white space around a text, if upper-casing does not depend on the case.
proof fn lemma_variants(s: Seq<char>)
    requires
        uppercase(all_ascii_lower(trimmed(s))) == uppercase(trimmed(s)),
        uppercase(all_ascii_upper(trimmed(s))) == uppercase(trimmed(s)),
    ensures
        uppercase(trimmed(all_ascii_lower(s))) == uppercase(trimmed(s)),
        uppercase(trimmed(all_ascii_upper(s))) == uppercase(trimmed(s)),
        uppercase(trimmed(trimmed(s))) == uppercase(trimmed(s)),
        uppercase(trimmed(between_blanks(s))) == uppercase(trimmed(s)),
{
    trimming_ignores_case(s);
    trimming_is_final(s);
    trimming_drops_what_surrounds(s, ' ');
    trimming_drops_what_surrounds(seq![' '] + s, ' ');
}

/// The number of bytes per second that `s` stands for. The answer is the same for the text
/// in ASCII lower case or upper case, without the white space around it, and with more.
pub fn parse_rate(s: &str) -> (r: Result<u64, RateError>)
    requires
        rate_fits(uppercase(trimmed(s@))),
    ensures
        reports(r, rate_value(uppercase(trimmed(s@)))),
        is_ascii_chars(trimmed(s@)) ==> reports(r, rate_value(all_ascii_upper(trimmed(s@)))),
        answers(all_ascii_lower(s@), r),
        answers(all_ascii_upper(s@), r),
        answers(trimmed(s@), r),
        answers(between_blanks(s@), r),
{
    let upper = to_uppercase(trim(s));
    proof {
        lemma_variants(s@);
    }
    rate_of(upper.as_str())
}

/// As `parse_rate`, for any text; nothing where the rate has more than 64 bits.
pub fn checked_parse_rate(s: &str) -> (r: Option<Result<u64, RateError>>)
    ensures
        r is Some <==> rate_fits(uppercase(trimmed(s@))),
        r matches Some(rate) ==> reports(rate, rate_value(uppercase(trimmed(s@)))),
        is_ascii_chars(trimmed(s@)) ==> match r {
            Some(rate) => reports(rate, rate_value(all_ascii_upper(trimmed(s@)))),
            None => !rate_fits(all_ascii_upper(trimmed(s@))),
        },
        checked_answers(all_ascii_lower(s@), r),
        checked_answers(all_ascii_upper(s@), r),
        checked_answers(trimmed(s@), r),
        checked_answers(between_blanks(s@), r),
{
    let upper = to_uppercase(trim(s));
    proof {
        lemma_variants(s@);
    }
    if fits(upper.as_str()) {
        Some(parse_rate(s))
    } else {
        None
    }
}

/// `checked_parse_rate` answers `r` when asked about `s`.
pub open spec fn checked_answers(s: Seq<char>, r: Option<Result<u64, RateError>>) -> bool {
    match r {
        Some(rate) => answers(s, rate),
        None => !rate_fits(uppercase(trimmed(s))),
    }
}

/// `governor::Quota`, carried through and never looked into.
#[verifier::external_type_specification]
#[verifier::external_body]
pub struct ExQuota(governor::Quota);

/// The quota of so many cells per second, with a burst of as many.
pub uninterp spec fn second_quota(cells: u32) -> governor::Quota;

/// Calls `governor::Quota::per_second`: the quota that lets `cells` cells through per
/// second, and as many at once.
#[verifier::external_body]
fn quota_per_second(cells: u32) -> (q: governor::Quota)
    requires
        cells != 0,
    ensures
        q == second_quota(cells),
{
    governor::Quota::per_second(std::num::NonZeroU32::new(cells).unwrap())
}

/// How many cells per second the limiter lets through for a rate: it counts in 32 bits.
pub open spec fn limit_cells(rate: int) -> int {
    rate % 0x1_0000_0000
}

/// The rate, if there is one, is a number of 64 bits that leaves the limiter some cells.
pub open spec fn usable(upper: Seq<char>) -> bool {
    rate_value(upper) matches Some(v) ==> v <= u64::MAX && limit_cells(v as int) != 0
}

/// Whether the limiter can work with the rate that an upper-case text stands for.
pub fn is_usable(upper: &str) -> (r: bool)
    ensures
        r == usable(upper@),
{
    if !fits(upper) {
        return false;
    }
    match rate_of(upper) {
        Ok(rate) => rate % 0x1_0000_0000 != 0,
        Err(_) => true,
    }
}

/// A bandwidth limit: how many cells the limiter grants at once, and its quota.
#[derive(Clone, Copy, Debug)]
pub struct RateLimit {
    pub burst: u32,
    pub quota: governor::Quota,
}

/// The limit of so many cells per second.
pub open spec fn second_limit(cells: u32) -> RateLimit {
    RateLimit { burst: cells, quota: second_quota(cells) }
}

/// The limit for a rate in bytes per second.
pub fn rate_limit(rate: u64) -> (limit: RateLimit)
    requires
        limit_cells(rate as int) != 0,
    ensures
        limit == second_limit(limit_cells(rate as int) as u32),
        limit.burst != 0,
        limit.quota == second_quota(limit.burst),
        rate < 0x1_0000_0000 ==> limit.burst == rate,
        (rate - limit.burst) % 0x1_0000_0000 == 0,
{
    let burst: u32 = (rate % 0x1_0000_0000) as u32;
    RateLimit { burst, quota: quota_per_second(burst) }
}

/// A number alone counts bytes; with a unit it counts units of 1024, of 1024 squared
/// or of 1024 cubed bytes.
pub proof fn units_scale_by_1024(number: Seq<char>)
    requires
        u64_value(number) is Some,
    ensures
        rate_value(number) == u64_value(number),
        rate_value(number.push('K')) == Some(u64_value(number)->0 * 1024),
        rate_value(number.push('M')) == Some(u64_value(number)->0 * (1024 * 1024)),
        rate_value(number.push('G')) == Some(u64_value(number)->0 * (1024 * 1024 * 1024)),
{
    assert(number.push('K').drop_last() =~= number);
    assert(number.push('M').drop_last() =~= number);
    assert(number.push('G').drop_last() =~= number);
    let digits = crate::text::unsigned_part(number);
    assert(crate::text::is_digit(digits[digits.len() - 1]));
    assert(number.last() == digits.last());
}

/// The case of the letters does not matter.
pub proof fn case_of_unit_does_not_matter(s: Seq<char>)
    ensures
        rate_value(all_ascii_upper(all_ascii_lower(s))) == rate_value(all_ascii_upper(s)),
{
    assert(all_ascii_upper(all_ascii_lower(s)) =~= all_ascii_upper(s));
}

/// A rate of less than 32 bits is the limit: as many bytes per second, and as many at once.
pub proof fn limit_grants_the_rate(rate: u64)
    requires
        0 < rate < 0x1_0000_0000,
    ensures
        limit_cells(rate as int) == rate,
        second_limit(limit_cells(rate as int) as u32).burst == rate,
        second_limit(limit_cells(rate as int) as u32).quota == second_quota(rate as u32),
{
}

/// The limiter counts in 32 bits: whole multiples of what they hold make no difference to the
/// limit, and its burst is always what its quota grants in a second.
pub proof fn limit_counts_in_32_bits(rate: int, cells: u32)
    requires
        rate >= 0,
    ensures
        0 <= limit_cells(rate) < 0x1_0000_0000,
        limit_cells(rate + 0x1_0000_0000) == limit_cells(rate),
        rate < 0x1_0000_0000 ==> limit_cells(rate) == rate,
        second_limit(cells).burst == cells,
        second_limit(cells).quota == second_quota(cells),
{
}

/// A rate is a number, or a number and one of three letters behind it, and each letter has its
/// own factor; nothing else is a rate.
pub proof fn letter_behind_the_number_is_its_factor(upper: Seq<char>)
    ensures
        upper.len() > 0 && upper.last() == 'K' ==> match u64_value(upper.drop_last()) {
            Some(n) => rate_value(upper) == Some(n * 1024),
            None => rate_value(upper) is None,
        },
        upper.len() > 0 && upper.last() == 'M' ==> match u64_value(upper.drop_last()) {
            Some(n) => rate_value(upper) == Some(n * 1_048_576),
            None => rate_value(upper) is None,
        },
        upper.len() > 0 && upper.last() == 'G' ==> match u64_value(upper.drop_last()) {
            Some(n) => rate_value(upper) == Some(n * 1_073_741_824),
            None => rate_value(upper) is None,
        },
        upper.len() > 0 && upper.last() != 'K' && upper.last() != 'M' && upper.last() != 'G'
            ==> rate_value(upper) == u64_value(upper),
        rate_value(Seq::empty()) is None,
{
    crate::text::numbers_are_digits_behind_an_optional_sign(Seq::empty());
}

/// The text of a number with a small or a capital letter behind it, in upper case, stands for
/// that many units.
pub proof fn written_rate_is_the_rate(n: u64)
    ensures
        rate_value(all_ascii_upper(decimal(n as nat))) == Some(n as nat),
        rate_value(all_ascii_upper(decimal(n as nat).push('k'))) == Some(n as nat * 1024),
        rate_value(all_ascii_upper(decimal(n as nat).push('K'))) == Some(n as nat * 1024),
        rate_value(all_ascii_upper(decimal(n as nat).push('m'))) == Some(n as nat * 1_048_576),
        rate_value(all_ascii_upper(decimal(n as nat).push('M'))) == Some(n as nat * 1_048_576),
        rate_value(all_ascii_upper(decimal(n as nat).push('g'))) == Some(n as nat * 1_073_741_824),
        rate_value(all_ascii_upper(decimal(n as nat).push('G'))) == Some(n as nat * 1_073_741_824),
{
    let number = decimal(n as nat);
    decimal_reads_back(n);
    units_scale_by_1024(number);
    crate::text::lemma_decimal_digits(n as nat);
    assert forall|i: int| 0 <= i < number.len() implies crate::text::ascii_upper(number[i])
        == number[i] by {
        assert(crate::text::is_digit(number[i]));
    }
    assert(all_ascii_upper(number) =~= number);
    assert(all_ascii_upper(number.push('k')) =~= number.push('K'));
    assert(all_ascii_upper(number.push('K')) =~= number.push('K'));
    assert(all_ascii_upper(number.push('m')) =~= number.push('M'));
    assert(all_ascii_upper(number.push('M')) =~= number.push('M'));
    assert(all_ascii_upper(number.push('g')) =~= number.push('G'));
    assert(all_ascii_upper(number.push('G')) =~= number.push('G'));
}

/// A rate is reported as its number and anything else as an error; a rate fits if it needs no
/// more than 64 bits, and is of use if moreover its lower 32 bits are not all zero.
pub proof fn rates_are_reported_as_they_are(upper: Seq<char>, r: Result<u64, RateError>)
    ensures
        reports(r, rate_value(upper)) <==> match rate_value(upper) {
            Some(v) => r matches Ok(n) && n == v,
            None => r is Err,
        },
        rate_fits(upper) <==> match rate_value(upper) {
            Some(v) => v <= 0xffff_ffff_ffff_ffff,
            None => true,
        },
        usable(upper) <==> match rate_value(upper) {
            Some(v) => v <= 0xffff_ffff_ffff_ffff && v % 0x1_0000_0000 != 0,
            None => true,
        },
{
}

/// To answer about a text is to report its rate, with the white space around it trimmed and its
/// letters in upper case.
pub proof fn answers_are_about_the_trimmed_text(s: Seq<char>, r: Result<u64, RateError>)
    ensures
        answers(s, r) <==> rate_fits(uppercase(trimmed(s))) && reports(
            r,
            rate_value(uppercase(trimmed(s))),
        ),
        checked_answers(s, Some(r)) <==> answers(s, r),
        checked_answers(s, None) <==> !rate_fits(uppercase(trimmed(s))),
        between_blanks(s) == seq![' '] + s + seq![' '],
{
    assert(between_blanks(s) =~= seq![' '] + s + seq![' ']);
}

} // verus!
