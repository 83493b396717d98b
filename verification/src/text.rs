//! Text as sequences of characters: trimming, searching, splitting and numbers.
use vstd::prelude::*;
use vstd::string::*;
use vstd::utf8::*;

verus! {

/// The view of an optional text.
pub open spec fn opt_text(s: Option<String>) -> Option<Seq<char>> {
    match s {
        Some(t) => Some(t@),
        None => None,
    }
}

/// Whether `c` has the Unicode property White_Space.
pub open spec fn is_white_space(c: char) -> bool {
    ||| '\u{9}' <= c <= '\u{d}'
    ||| c == '\u{20}'
    ||| c == '\u{85}'
    ||| c == '\u{a0}'
    ||| c == '\u{1680}'
    ||| '\u{2000}' <= c <= '\u{200a}'
    ||| c == '\u{2028}'
    ||| c == '\u{2029}'
    ||| c == '\u{202f}'
    ||| c == '\u{205f}'
    ||| c == '\u{3000}'
}

/// `s` without the white space at its two ends.
pub open spec fn trimmed(s: Seq<char>) -> Seq<char>
    decreases s.len(),
{
    if s.len() == 0 {
        s
    } else if is_white_space(s.first()) {
        trimmed(s.drop_first())
    } else if is_white_space(s.last()) {
        trimmed(s.drop_last())
    } else {
        s
    }
}

/// Whether `part` occurs in `s` at position `i`.
pub open spec fn part_at(s: Seq<char>, part: Seq<char>, i: int) -> bool {
    0 <= i <= s.len() - part.len() && s.subrange(i, i + part.len()) == part
}

/// Whether `part` occurs somewhere in `s`.
pub open spec fn has_part(s: Seq<char>, part: Seq<char>) -> bool {
    exists|i: int| part_at(s, part, i)
}

/// The position of the first `c` in `s`, or the length of `s` where there is none.
pub open spec fn first_of(s: Seq<char>, c: char) -> int
    decreases s.len(),
{
    if s.len() == 0 || s.first() == c {
        0
    } else {
        1 + first_of(s.drop_first(), c)
    }
}

/// What follows the last `c` in `s`; all of `s` where there is none.
pub open spec fn after_last(s: Seq<char>, c: char) -> Seq<char>
    decreases s.len(),
{
    if s.len() == 0 || s.last() == c {
        Seq::empty()
    } else {
        after_last(s.drop_last(), c).push(s.last())
    }
}

/// The parts of `s` between one `separator` and the next; there is always one at least.
pub open spec fn split_by(s: Seq<char>, separator: char) -> Seq<Seq<char>>
    decreases s.len(),
{
    if s.len() == 0 {
        seq![Seq::empty()]
    } else {
        let before = split_by(s.drop_last(), separator);
        if s.last() == separator {
            before.push(Seq::empty())
        } else {
            before.drop_last().push(before.last().push(s.last()))
        }
    }
}

/// The upper-case form of `s`, as Unicode maps it.
pub uninterp spec fn uppercase(s: Seq<char>) -> Seq<char>;

/// The lower-case form of `s`, as Unicode maps it.
pub uninterp spec fn lowercase(s: Seq<char>) -> Seq<char>;

pub open spec fn ascii_upper(c: char) -> char {
    if 'a' <= c <= 'z' {
        (c as u32 - 32) as char
    } else {
        c
    }
}

pub open spec fn ascii_lower(c: char) -> char {
    if 'A' <= c <= 'Z' {
        (c as u32 + 32) as char
    } else {
        c
    }
}

pub open spec fn all_ascii_upper(s: Seq<char>) -> Seq<char> {
    s.map_values(|c: char| ascii_upper(c))
}

pub open spec fn all_ascii_lower(s: Seq<char>) -> Seq<char> {
    s.map_values(|c: char| ascii_lower(c))
}

pub open spec fn is_digit(c: char) -> bool {
    '0' <= c <= '9'
}

/// The number that a run of decimal digits stands for.
pub open spec fn digits_value(s: Seq<char>) -> nat
    decreases s.len(),
{
    if s.len() == 0 {
        0
    } else {
        10 * digits_value(s.drop_last()) + (s.last() as nat - '0' as nat) as nat
    }
}

pub open spec fn all_digits(s: Seq<char>) -> bool {
    &&& s.len() > 0
    &&& forall|i: int| 0 <= i < s.len() ==> is_digit(#[trigger] s[i])
}

/// `s` without one leading plus sign, if it has one.
pub open spec fn unsigned_part(s: Seq<char>) -> Seq<char> {
    if s.len() > 0 && s.first() == '+' {
        s.drop_first()
    } else {
        s
    }
}

/// The `u64` that `s` writes in decimal: an optional plus sign and then digits.
pub open spec fn u64_value(s: Seq<char>) -> Option<nat> {
    let digits = unsigned_part(s);
    if all_digits(digits) && digits_value(digits) <= u64::MAX {
        Some(digits_value(digits))
    } else {
        None
    }
}

/// The shortest decimal text of `n`.
pub open spec fn decimal(n: nat) -> Seq<char>
    decreases n,
{
    let digit = ('0' as nat + n % 10) as char;
    if n < 10 {
        seq![digit]
    } else {
        decimal(n / 10).push(digit)
    }
}

/// `std::num::ParseIntError`, carried through and never looked into.
#[verifier::external_type_specification]
#[verifier::external_body]
pub struct ExParseIntError(std::num::ParseIntError);

/// Calls `str::trim`: the result lacks exactly the leading and trailing characters
/// that have the Unicode property White_Space.
#[verifier::external_body]
pub(crate) fn trim(s: &str) -> (r: &str)
    ensures
        r@ == trimmed(s@),
{
    s.trim()
}

/// Calls `str::contains` with a text to look for: whether it occurs in `s`.
#[verifier::external_body]
pub(crate) fn contains(s: &str, part: &str) -> (r: bool)
    ensures
        r == has_part(s@, part@),
{
    s.contains(part)
}

/// Calls `str::to_uppercase`. Its result is named; on ASCII text it changes the letters
/// `a` to `z` and nothing else, and on any text the case of the ASCII letters makes no
/// difference to it.
#[verifier::external_body]
pub(crate) fn to_uppercase(s: &str) -> (r: String)
    ensures
        r@ == uppercase(s@),
        is_ascii_chars(s@) ==> r@ == all_ascii_upper(s@),
        r@ == uppercase(all_ascii_lower(s@)),
        r@ == uppercase(all_ascii_upper(s@)),
{
    s.to_uppercase()
}

/// Calls `str::to_lowercase`. Its result is named; on ASCII text it changes the
/// letters `A` to `Z` and nothing else.
#[verifier::external_body]
pub(crate) fn to_lowercase(s: &str) -> (r: String)
    ensures
        r@ == lowercase(s@),
        is_ascii_chars(s@) ==> r@ == all_ascii_lower(s@),
{
    s.to_lowercase()
}

/// Calls `str::parse` for `u64`: it accepts an optional plus sign followed by decimal
/// digits alone, with a value that a `u64` holds. Which error it gives otherwise is
/// left open.
#[verifier::external_body]
pub(crate) fn parse_u64(s: &str) -> (r: Result<u64, std::num::ParseIntError>)
    ensures
        match r {
            Ok(n) => u64_value(s@) == Some(n as nat),
            Err(_) => u64_value(s@) is None,
        },
{
    s.parse::<u64>()
}

/// Calls `u64::to_string`: the decimal digits of `n`, without leading zeros.
#[verifier::external_body]
pub(crate) fn u64_to_string(n: u64) -> (r: String)
    ensures
        r@ == decimal(n as nat),
{
    n.to_string()
}

/// The characters of `s`, in order.
pub(crate) fn chars_of(s: &str) -> (v: Vec<char>)
    ensures
        v@ == s@,
{
    let mut v: Vec<char> = Vec::new();
    for c in it: s.chars()
        invariant
            v@ == it.seq().take(it.index()),
            it.seq() == s@,
    {
        v.push(c);
    }
    v
}

/// The position of the first `c` in `v`, or the length of `v` where there is none.
pub(crate) fn find_first(v: &Vec<char>, c: char) -> (i: usize)
    ensures
        i == first_of(v@, c),
        i <= v.len(),
        i < v.len() ==> v[i as int] == c,
{
    let mut i: usize = 0;
    assert(v@.skip(0) =~= v@);
    while i < v.len() && v[i] != c
        invariant
            i <= v.len(),
            first_of(v@, c) == i + first_of(v@.skip(i as int), c),
        decreases v.len() - i,
    {
        assert(v@.skip(i as int).drop_first() =~= v@.skip(i + 1));
        i = i + 1;
    }
    i
}

/// What follows the last `c` in `s`; all of `s` where there is none.
pub(crate) fn tail_after(s: &str, c: char) -> (r: &str)
    ensures
        r@ == after_last(s@, c),
{
    let v = chars_of(s);
    let mut i: usize = v.len();
    assert(v@.take(v@.len() as int) =~= v@);
    assert(after_last(v@, c) =~= after_last(v@, c) + v@.skip(v@.len() as int));
    while i > 0 && v[i - 1] != c
        invariant
            i <= v.len(),
            after_last(v@, c) == after_last(v@.take(i as int), c) + v@.skip(i as int),
        decreases i,
    {
        assert(v@.take(i as int).drop_last() =~= v@.take(i - 1));
        assert(v@.take(i as int).last() == v@[i - 1]);
        assert(after_last(v@.take(i - 1), c).push(v@[i - 1]) + v@.skip(i as int) =~= after_last(
            v@.take(i - 1),
            c,
        ) + v@.skip(i - 1));
        i = i - 1;
    }
    assert(after_last(v@.take(i as int), c) =~= Seq::empty());
    assert(s@.subrange(i as int, s@.len() as int) =~= v@.skip(i as int));
    s.substring_char(i, v.len())
}

/// Trimming twice is trimming once, and what it leaves has no white space at its ends.
pub proof fn trimming_is_final(s: Seq<char>)
    ensures
        trimmed(trimmed(s)) == trimmed(s),
        trimmed(s).len() > 0 ==> !is_white_space(trimmed(s).first()) && !is_white_space(
            trimmed(s).last(),
        ),
    decreases s.len(),
{
    if s.len() > 0 {
        if is_white_space(s.first()) {
            trimming_is_final(s.drop_first());
        } else if is_white_space(s.last()) {
            trimming_is_final(s.drop_last());
        }
    }
}

/// White space around a text does not change what trimming it leaves.
pub proof fn trimming_drops_what_surrounds(s: Seq<char>, c: char)
    requires
        is_white_space(c),
    ensures
        trimmed(seq![c] + s) == trimmed(s),
        trimmed(s.push(c)) == trimmed(s),
    decreases s.len(),
{
    assert((seq![c] + s).drop_first() =~= s);
    let t = s.push(c);
    if s.len() == 0 {
        assert(t.drop_first() =~= s);
    } else if is_white_space(s.first()) {
        trimming_drops_what_surrounds(s.drop_first(), c);
        assert(t.drop_first() =~= s.drop_first().push(c));
    } else {
        assert(t.drop_last() =~= s);
    }
}

/// Changing the case of the ASCII letters and trimming can be done in either order.
pub proof fn trimming_ignores_case(s: Seq<char>)
    ensures
        trimmed(all_ascii_lower(s)) == all_ascii_lower(trimmed(s)),
        trimmed(all_ascii_upper(s)) == all_ascii_upper(trimmed(s)),
    decreases s.len(),
{
    let lower = all_ascii_lower(s);
    let upper = all_ascii_upper(s);
    if s.len() > 0 {
        trimming_ignores_case(s.drop_first());
        trimming_ignores_case(s.drop_last());
        assert(lower.drop_first() =~= all_ascii_lower(s.drop_first()));
        assert(lower.drop_last() =~= all_ascii_lower(s.drop_last()));
        assert(upper.drop_first() =~= all_ascii_upper(s.drop_first()));
        assert(upper.drop_last() =~= all_ascii_upper(s.drop_last()));
    } else {
        assert(lower =~= s);
        assert(upper =~= s);
    }
}

/// The last part of a text that is split is what follows its last separator, and no part
/// holds a separator.
pub proof fn last_part_follows_the_last_separator(s: Seq<char>, separator: char)
    ensures
        split_by(s, separator).len() > 0,
        split_by(s, separator).last() == after_last(s, separator),
        forall|i: int|
            0 <= i < split_by(s, separator).len() ==> !(#[trigger] split_by(
                s,
                separator,
            )[i]).contains(separator),
    decreases s.len(),
{
    if s.len() > 0 {
        let before = split_by(s.drop_last(), separator);
        let parts = split_by(s, separator);
        last_part_follows_the_last_separator(s.drop_last(), separator);
        assert forall|i: int| 0 <= i < parts.len() implies !(#[trigger] parts[i]).contains(
            separator,
        ) by {
            if i < before.len() {
                assert(!before[i].contains(separator));
            }
            if i == parts.len() - 1 && s.last() != separator {
                assert forall|j: int| 0 <= j < parts[i].len() implies parts[i][j] != separator by {
                    if j < before.last().len() {
                        assert(before.last().contains(before.last()[j]));
                    }
                }
            }
        }
    }
}

pub(crate) proof fn lemma_decimal_digits(n: nat)
    ensures
        all_digits(decimal(n)),
        digits_value(decimal(n)) == n,
    decreases n,
{
    let digit = ('0' as nat + n % 10) as char;
    assert(is_digit(digit) && digit as nat - '0' as nat == n % 10);
    if n < 10 {
        assert(decimal(n).drop_last() =~= Seq::empty());
        assert(digits_value(Seq::<char>::empty()) == 0);
    } else {
        lemma_decimal_digits(n / 10);
        assert(decimal(n).drop_last() =~= decimal(n / 10));
    }
}

/// Reading the decimal text of a `u64` gives the number back.
pub proof fn decimal_reads_back(n: u64)
    ensures
        u64_value(decimal(n as nat)) == Some(n as nat),
{
    lemma_decimal_digits(n as nat);
    assert(is_digit(decimal(n as nat)[0]));
}

/// The decimal text of a number has no superfluous zeros, and no other number has it.
pub proof fn decimal_is_shortest_and_unique(n: nat, m: nat)
    ensures
        all_digits(decimal(n)),
        digits_value(decimal(n)) == n,
        n >= 10 ==> decimal(n).first() != '0',
        n < 10 <==> decimal(n).len() == 1,
        decimal(n) == decimal(m) ==> n == m,
    decreases n,
{
    lemma_decimal_digits(n);
    lemma_decimal_digits(m);
    if n >= 10 {
        decimal_is_shortest_and_unique(n / 10, n / 10);
        let digit = ('0' as nat + n / 10) as char;
        assert(n < 100 ==> decimal(n / 10) =~= seq![digit]);
        assert(decimal(n).first() == decimal(n / 10).first());
    }
}

/// A number is read digit by digit, each of which counts ten times the one behind it.
pub proof fn digits_count_by_tens(s: Seq<char>, c: char)
    requires
        is_digit(c),
    ensures
        '0' <= c && c <= '9',
        digits_value(seq![c]) == c as nat - '0' as nat,
        digits_value(s.push(c)) == 10 * digits_value(s) + (c as nat - '0' as nat),
        digits_value(seq!['0'] + s) == digits_value(s),
    decreases s.len(),
{
    assert(seq![c].drop_last() =~= Seq::empty());
    assert(digits_value(Seq::<char>::empty()) == 0);
    assert(s.push(c).drop_last() =~= s);
    let t = seq!['0'] + s;
    if s.len() == 0 {
        assert(t.drop_last() =~= Seq::empty());
    } else {
        digits_count_by_tens(s.drop_last(), c);
        assert(t.drop_last() =~= seq!['0'] + s.drop_last());
        assert(t.last() == s.last());
    }
}

/// A text is a number if and only if it has digits and nothing else, but for one plus sign
/// before them, and its value fits in 64 bits; the sign does not change the value.
pub proof fn numbers_are_digits_behind_an_optional_sign(s: Seq<char>)
    ensures
        all_digits(s) <==> s.len() > 0 && forall|i: int|
            0 <= i < s.len() ==> '0' <= #[trigger] s[i] <= '9',
        all_digits(s) && digits_value(s) <= 0xffff_ffff_ffff_ffff ==> u64_value(s) == Some(
            digits_value(s),
        ) && u64_value(seq!['+'] + s) == Some(digits_value(s)),
        all_digits(s) && digits_value(s) > 0xffff_ffff_ffff_ffff ==> u64_value(s) is None
            && u64_value(seq!['+'] + s) is None,
        u64_value(s) is Some && s.first() != '+' ==> all_digits(s),
        u64_value(s) is Some && s.first() == '+' ==> all_digits(s.drop_first()),
        u64_value(s) is Some ==> s.len() > 0,
{
    assert((seq!['+'] + s).drop_first() =~= s);
    assert forall|i: int| all_digits(s) && 0 <= i < s.len() implies '0' <= #[trigger] s[i]
        <= '9' by {
        assert(is_digit(s[i]));
    }
    if all_digits(s) {
        assert(is_digit(s[0]));
    }
    if s.len() > 0 && forall|i: int| 0 <= i < s.len() ==> '0' <= #[trigger] s[i] <= '9' {
        assert forall|i: int| 0 <= i < s.len() implies is_digit(#[trigger] s[i]) by {}
    }
}

/// What trimming takes away is white space, at the two ends alone.
pub proof fn trimming_takes_only_white_space(s: Seq<char>) -> (r: (int, int))
    ensures
        0 <= r.0 <= r.1 <= s.len(),
        trimmed(s) == s.subrange(r.0, r.1),
        forall|i: int| 0 <= i < r.0 ==> is_white_space(#[trigger] s[i]),
        forall|i: int| r.1 <= i < s.len() ==> is_white_space(#[trigger] s[i]),
    decreases s.len(),
{
    if s.len() == 0 {
        assert(s.subrange(0, 0) =~= s);
        (0, 0)
    } else if is_white_space(s.first()) {
        let (n, m) = trimming_takes_only_white_space(s.drop_first());
        assert(s.drop_first().subrange(n, m) =~= s.subrange(n + 1, m + 1));
        assert forall|i: int| 0 <= i < n + 1 implies is_white_space(#[trigger] s[i]) by {
            if i > 0 {
                assert(is_white_space(s.drop_first()[i - 1]));
            }
        }
        assert forall|i: int| m + 1 <= i < s.len() implies is_white_space(#[trigger] s[i]) by {
            assert(is_white_space(s.drop_first()[i - 1]));
        }
        (n + 1, m + 1)
    } else if is_white_space(s.last()) {
        let (n, m) = trimming_takes_only_white_space(s.drop_last());
        assert(s.drop_last().subrange(n, m) =~= s.subrange(n, m));
        assert forall|i: int| 0 <= i < n implies is_white_space(#[trigger] s[i]) by {
            assert(is_white_space(s.drop_last()[i]));
        }
        assert forall|i: int| m <= i < s.len() implies is_white_space(#[trigger] s[i]) by {
            if i < s.len() - 1 {
                assert(is_white_space(s.drop_last()[i]));
            }
        }
        (n, m)
    } else {
        assert(s.subrange(0, s.len() as int) =~= s);
        (0, s.len() as int)
    }
}

/// Blanks, tabs and line ends are white space; what leaves ink in ASCII is not.
pub proof fn ink_is_no_white_space(c: char)
    ensures
        is_white_space(' ') && is_white_space('\t') && is_white_space('\n') && is_white_space('\r'),
        '!' <= c <= '~' ==> !is_white_space(c),
{
}

/// A part occurs in every text that has it between two others, and in no other text.
pub proof fn parts_stand_between_others(s: Seq<char>, before: Seq<char>, part: Seq<char>, after: Seq<
    char,
>)
    ensures
        has_part(before + part + after, part),
        has_part(s, part) ==> exists|a: Seq<char>, b: Seq<char>| s == #[trigger] (a + part + b),
{
    let whole = before + part + after;
    assert(whole.subrange(before.len() as int, (before.len() + part.len()) as int) =~= part);
    assert(part_at(whole, part, before.len() as int));
    if has_part(s, part) {
        let i = choose|i: int| part_at(s, part, i);
        let a = s.take(i);
        let b = s.skip(i + part.len());
        assert(s =~= (a + part) + b);
    }
}

/// The position of the first occurrence: before it there is none.
pub proof fn first_of_is_the_first(s: Seq<char>, c: char)
    ensures
        0 <= first_of(s, c) <= s.len(),
        first_of(s, c) < s.len() ==> s[first_of(s, c)] == c,
        forall|i: int| 0 <= i < first_of(s, c) ==> #[trigger] s[i] != c,
    decreases s.len(),
{
    if s.len() > 0 && s.first() != c {
        first_of_is_the_first(s.drop_first(), c);
        assert forall|i: int| 0 <= i < first_of(s, c) implies #[trigger] s[i] != c by {
            if i > 0 {
                assert(s.drop_first()[i - 1] != c);
            }
        }
    }
}

/// What follows the last occurrence ends the text, and what stands before it, if anything
/// does, ends in that occurrence.
pub proof fn after_last_ends_the_text(s: Seq<char>, c: char) -> (n: int)
    ensures
        0 <= n <= s.len(),
        after_last(s, c) == s.skip(n),
        n > 0 ==> s[n - 1] == c,
        !after_last(s, c).contains(c),
    decreases s.len(),
{
    if s.len() == 0 || s.last() == c {
        assert(s.skip(s.len() as int) =~= Seq::empty());
        s.len() as int
    } else {
        let n = after_last_ends_the_text(s.drop_last(), c);
        let before = after_last(s.drop_last(), c);
        assert(s.drop_last().skip(n).push(s.last()) =~= s.skip(n));
        assert forall|i: int| 0 <= i < after_last(s, c).len() implies after_last(s, c)[i] != c by {
            if i < before.len() {
                assert(before.contains(before[i]));
            }
        }
        n
    }
}

/// A text without separators is its only part, and a separator between two texts separates
/// their parts.
pub proof fn separators_divide_a_text(first: Seq<char>, second: Seq<char>, separator: char)
    ensures
        !first.contains(separator) ==> split_by(first, separator) == seq![first],
        split_by(first.push(separator) + second, separator) == split_by(first, separator)
            + split_by(second, separator),
    decreases first.len(), second.len(),
{
    if first.len() == 0 {
        assert(first =~= Seq::empty());
    } else if !first.contains(separator) {
        assert(first.contains(first.last()));
        assert forall|i: int| 0 <= i < first.drop_last().len() implies first.drop_last()[i]
            != separator by {
            assert(first.contains(first[i]));
        }
        separators_divide_a_text(first.drop_last(), second, separator);
        assert(first.drop_last().push(first.last()) =~= first);
        assert(split_by(first, separator) =~= seq![first]);
    }
    lemma_split_concat(first, second, separator);
}

proof fn lemma_split_concat(first: Seq<char>, second: Seq<char>, separator: char)
    ensures
        split_by(second, separator).len() > 0,
        split_by(first.push(separator) + second, separator) == split_by(first, separator)
            + split_by(second, separator),
    decreases second.len(),
{
    let both = first.push(separator) + second;
    if second.len() == 0 {
        assert(both.drop_last() =~= first);
        assert(split_by(both, separator) =~= split_by(first, separator) + split_by(
            second,
            separator,
        ));
    } else {
        lemma_split_concat(first, second.drop_last(), separator);
        assert(both.drop_last() =~= first.push(separator) + second.drop_last());
        assert(split_by(both, separator) =~= split_by(first, separator) + split_by(
            second,
            separator,
        ));
    }
}

/// Changing the case moves the 26 ASCII letters by the distance between `A` and `a`, and no
/// other character.
pub proof fn only_ascii_letters_change_case(s: Seq<char>)
    ensures
        all_ascii_lower(s).len() == s.len(),
        all_ascii_upper(s).len() == s.len(),
        forall|i: int|
            0 <= i < s.len() ==> #[trigger] all_ascii_lower(s)[i] as int == if 'A' <= s[i] <= 'Z' {
                s[i] as int - 'A' as int + 'a' as int
            } else {
                s[i] as int
            },
        forall|i: int|
            0 <= i < s.len() ==> #[trigger] all_ascii_upper(s)[i] as int == if 'a' <= s[i] <= 'z' {
                s[i] as int - 'a' as int + 'A' as int
            } else {
                s[i] as int
            },
{
}

/// An optional text is there if and only if the string is, and reads as the string does.
pub proof fn optional_text_reads_as_the_string(s: Option<String>)
    ensures
        s matches Some(t) ==> opt_text(s) == Some(t@),
        s is None ==> opt_text(s) is None,
{
}

} // verus!
