//! Decimal numbers as text: reading them, and rounding them to whole units.
use vstd::prelude::*;

use crate::text;
use crate::text::{all_digits, number_of};

verus! {

/// How many decimal digits `s` begins with.
pub open spec fn leading_digits(s: Seq<char>) -> int
    decreases s.len(),
{
    if s.len() > 0 && '0' <= s[0] <= '9' {
        1 + leading_digits(s.skip(1))
    } else {
        0
    }
}

/// The part of `s` behind a sign, if it begins with one.
pub open spec fn unsigned_part(s: Seq<char>) -> Seq<char> {
    if s.len() > 0 && (s[0] == '+' || s[0] == '-') {
        s.skip(1)
    } else {
        s
    }
}

/// An exponent beyond this counts as this: it is past what any unit can hold.
pub const MAX_EXPONENT: u64 = 1_000_000;

/// The exponent that `s` (what follows the digits of a number) stands for:
/// nothing, or `e` with an optional sign and digits.
pub open spec fn exponent_of(s: Seq<char>) -> Option<int> {
    if s.len() == 0 {
        Some(0)
    } else if s[0] == 'e' || s[0] == 'E' {
        let tail = s.skip(1);
        let digits = unsigned_part(tail);
        if digits.len() == 0 || !all_digits(digits) {
            None
        } else {
            let n = number_of(digits);
            let size = if n > MAX_EXPONENT {
                MAX_EXPONENT as int
            } else {
                n
            };
            if tail[0] == '-' {
                Some(-size)
            } else {
                Some(size)
            }
        }
    } else {
        None
    }
}

/// A decimal number: its sign, its digits, and how many of them stand behind the
/// decimal point (a negative count means zeros to append).
#[verifier::ext_equal]
pub struct DecimalView {
    pub negative: bool,
    pub digits: Seq<char>,
    pub places: int,
}

/// How many digits stand behind the point that `rest` begins with, if it does.
pub open spec fn fraction_digits(rest: Seq<char>) -> int {
    if rest.len() > 0 && rest[0] == '.' {
        leading_digits(rest.skip(1))
    } else {
        0
    }
}

/// What follows the digits behind the point, where there is one.
pub open spec fn behind_fraction(rest: Seq<char>) -> Seq<char> {
    if rest.len() > 0 && rest[0] == '.' {
        rest.skip(1 + fraction_digits(rest))
    } else {
        rest
    }
}

/// The digits of a number, those before the point and those behind it.
pub open spec fn number_digits(body: Seq<char>) -> Seq<char> {
    let whole = leading_digits(body);
    let rest = body.skip(whole);
    if rest.len() > 0 && rest[0] == '.' {
        body.take(whole) + rest.subrange(1, 1 + fraction_digits(rest))
    } else {
        body.take(whole)
    }
}

/// The number that `s` spells: an optional sign, digits with an optional point
/// among, before or behind them, and an optional exponent.
pub open spec fn decimal_of(s: Seq<char>) -> Option<DecimalView> {
    let body = unsigned_part(s);
    let rest = body.skip(leading_digits(body));
    if number_digits(body).len() == 0 {
        None
    } else {
        match exponent_of(behind_fraction(rest)) {
            None => None,
            Some(exponent) => Some(
                DecimalView {
                    negative: s.len() > 0 && s[0] == '-',
                    digits: number_digits(body),
                    places: fraction_digits(rest) - exponent,
                },
            ),
        }
    }
}

/// A decimal number that was read from a text.
pub struct Decimal {
    pub negative: bool,
    pub digits: Vec<char>,
    pub places: i128,
}

impl Decimal {
    /// The digits are digits, and the point is not further from them than the
    /// largest exponent takes it.
    pub open spec fn well_formed(self) -> bool {
        &&& all_digits(self.digits@)
        &&& self.digits@.len() <= usize::MAX
        &&& -(MAX_EXPONENT as int) <= self.places <= self.digits@.len() + MAX_EXPONENT
    }
}

impl View for Decimal {
    type V = DecimalView;

    open spec fn view(&self) -> DecimalView {
        DecimalView {
            negative: self.negative,
            digits: self.digits@,
            places: self.places as int,
        }
    }
}

proof fn lemma_leading_digits(s: Seq<char>, n: int)
    requires
        0 <= n <= s.len(),
        forall|j: int| 0 <= j < n ==> '0' <= #[trigger] s[j] <= '9',
        n < s.len() ==> !('0' <= s[n] <= '9'),
    ensures
        leading_digits(s) == n,
    decreases s.len(),
{
    if n > 0 {
        assert('0' <= s[0] <= '9');
        assert forall|j: int| 0 <= j < n - 1 implies '0' <= #[trigger] s.skip(1)[j] <= '9' by {
            assert(s.skip(1)[j] == s[j + 1]);
        }
        lemma_leading_digits(s.skip(1), n - 1);
    }
}

pub proof fn lemma_leading_digits_bounds(s: Seq<char>)
    ensures
        0 <= leading_digits(s) <= s.len(),
        all_digits(s.take(leading_digits(s))),
    decreases s.len(),
{
    if s.len() > 0 && '0' <= s[0] <= '9' {
        lemma_leading_digits_bounds(s.skip(1));
        let n = leading_digits(s);
        assert forall|i: int| 0 <= i < n implies '0' <= #[trigger] s.take(n)[i] <= '9' by {
            if i > 0 {
                assert(s.skip(1).take(n - 1)[i - 1] == s.take(n)[i]);
            }
        }
    }
}

/// Where the run of digits that starts at `from` ends.
fn skip_digits(s: &[char], from: usize) -> (r: usize)
    requires
        from <= s@.len(),
    ensures
        from <= r <= s@.len(),
        r - from == leading_digits(s@.skip(from as int)),
        forall|j: int| from <= j < r ==> '0' <= #[trigger] s@[j] <= '9',
{
    let mut i: usize = from;
    while i < s.len() && '0' <= s[i] && s[i] <= '9'
        invariant
            from <= i <= s@.len(),
            forall|j: int| from <= j < i ==> '0' <= #[trigger] s@[j] <= '9',
        decreases s@.len() - i,
    {
        i = i + 1;
    }
    proof {
        let rest = s@.skip(from as int);
        assert forall|j: int| 0 <= j < i - from implies '0' <= #[trigger] rest[j] <= '9' by {
            assert(rest[j] == s@[from + j]);
        }
        lemma_leading_digits(rest, i - from);
    }
    i
}

/// The value of the digits from `from` on, as far as it does not pass the
/// largest exponent.
fn exponent_size(s: &[char], from: usize) -> (r: u64)
    requires
        from <= s@.len(),
        all_digits(s@.skip(from as int)),
    ensures
        r == (if number_of(s@.skip(from as int)) > MAX_EXPONENT {
            MAX_EXPONENT as int
        } else {
            number_of(s@.skip(from as int))
        }),
{
    let ghost digits = s@.skip(from as int);
    let mut size: u64 = 0;
    assert(digits.take(0) =~= Seq::empty());
    for i in from..s.len()
        invariant
            digits == s@.skip(from as int),
            all_digits(digits),
            size <= MAX_EXPONENT,
            number_of(digits.take(i - from)) >= 0,
            size == (if number_of(digits.take(i - from)) > MAX_EXPONENT {
                MAX_EXPONENT as int
            } else {
                number_of(digits.take(i - from))
            }),
    {
        proof {
            assert(digits.take(i - from + 1).drop_last() =~= digits.take(i - from));
            assert(digits[i - from] == s@[i as int]);
            assert('0' <= digits[i - from] <= '9');
        }
        let d: u64 = s[i] as u64 - 48;
        size = size * 10 + d;
        if size > MAX_EXPONENT {
            size = MAX_EXPONENT;
        }
    }
    assert(digits.take(s@.len() - from) =~= digits);
    size
}

fn read_exponent(s: &[char], from: usize) -> (r: Option<i64>)
    requires
        from <= s@.len(),
    ensures
        match r {
            Some(e) => exponent_of(s@.skip(from as int)) == Some(e as int) && -1_000_000 <= e
                <= 1_000_000,
            None => exponent_of(s@.skip(from as int)) is None,
        },
{
    let ghost rest = s@.skip(from as int);
    if from == s.len() {
        return Some(0);
    }
    if s[from] != 'e' && s[from] != 'E' {
        return None;
    }
    let mut start: usize = from + 1;
    let ghost tail = rest.skip(1);
    assert(tail =~= s@.skip(from + 1));
    let negative = start < s.len() && s[start] == '-';
    if start < s.len() && (s[start] == '+' || s[start] == '-') {
        start = start + 1;
    }
    let ghost digits = unsigned_part(tail);
    assert(digits =~= s@.skip(start as int));
    let end = skip_digits(s, start);
    proof {
        lemma_leading_digits_bounds(digits);
    }
    if end < s.len() || start == s.len() {
        proof {
            if start < s@.len() {
                assert(!('0' <= s@[end as int] <= '9')) by {
                    if '0' <= s@[end as int] <= '9' {
                        assert forall|j: int| 0 <= j < end + 1 - start implies '0'
                            <= #[trigger] digits[j] <= '9' by {
                            assert(digits[j] == s@[start + j]);
                        }
                        lemma_leading_digits_at_least(digits, end + 1 - start);
                    }
                }
                assert(digits[end - start] == s@[end as int]);
            }
        }
        return None;
    }
    assert(digits.take(end - start) =~= digits);
    let size: i64 = exponent_size(s, start) as i64;
    assert(tail[0] == s@[from + 1]);
    if negative {
        Some(-size)
    } else {
        Some(size)
    }
}

proof fn lemma_leading_digits_at_least(s: Seq<char>, n: int)
    requires
        0 <= n <= s.len(),
        forall|j: int| 0 <= j < n ==> '0' <= #[trigger] s[j] <= '9',
    ensures
        leading_digits(s) >= n,
    decreases n,
{
    if n > 0 {
        assert('0' <= s[0] <= '9');
        assert forall|j: int| 0 <= j < n - 1 implies '0' <= #[trigger] s.skip(1)[j] <= '9' by {
            assert(s.skip(1)[j] == s[j + 1]);
        }
        lemma_leading_digits_at_least(s.skip(1), n - 1);
    } else {
        lemma_leading_digits_bounds(s);
    }
}

/// Reads a decimal number.
pub fn parse_decimal(s: &[char]) -> (r: Option<Decimal>)
    ensures
        match r {
            Some(d) => decimal_of(s@) == Some(d@) && d.well_formed(),
            None => decimal_of(s@) is None,
        },
{
    let mut start: usize = 0;
    let negative = s.len() > 0 && s[0] == '-';
    if s.len() > 0 && (s[0] == '+' || s[0] == '-') {
        start = 1;
    }
    let ghost body = unsigned_part(s@);
    assert(body =~= s@.skip(start as int));
    let whole_end = skip_digits(s, start);
    let ghost rest = body.skip(whole_end - start);
    assert(rest =~= s@.skip(whole_end as int));
    let mut digits = text::slice_of(s, start, whole_end);
    assert(digits@ =~= body.take(whole_end - start));
    let mut fraction: usize = 0;
    let mut tail: usize = whole_end;
    if whole_end < s.len() && s[whole_end] == '.' {
        let end = skip_digits(s, whole_end + 1);
        assert(rest.skip(1) =~= s@.skip(whole_end + 1));
        fraction = end - (whole_end + 1);
        let mut more = text::slice_of(s, whole_end + 1, end);
        assert(more@ =~= rest.subrange(1, 1 + fraction));
        digits.append(&mut more);
        tail = end;
        assert(rest.skip(1 + fraction) =~= s@.skip(tail as int));
    }
    assert(fraction == fraction_digits(rest));
    assert(s@.skip(tail as int) == behind_fraction(rest));
    assert(digits@ =~= number_digits(body));
    proof {
        lemma_number_digits(body);
    }
    if digits.len() == 0 {
        return None;
    }
    match read_exponent(s, tail) {
        None => None,
        Some(e) => Some(Decimal { negative, digits, places: fraction as i128 - e as i128 }),
    }
}

proof fn lemma_number_digits(body: Seq<char>)
    ensures
        all_digits(number_digits(body)),
        number_digits(body).len() >= fraction_digits(body.skip(leading_digits(body))),
{
    let whole = leading_digits(body);
    let rest = body.skip(whole);
    lemma_leading_digits_bounds(body);
    if rest.len() > 0 && rest[0] == '.' {
        lemma_leading_digits_bounds(rest.skip(1));
        let fraction = fraction_digits(rest);
        let all = number_digits(body);
        assert forall|i: int| 0 <= i < all.len() implies '0' <= #[trigger] all[i] <= '9' by {
            if i < whole {
                assert(body.take(whole)[i] == all[i]);
            } else {
                assert(rest.skip(1).take(fraction)[i - whole] == all[i]);
            }
        }
    }
}

/// The first `n` digits, with zeros appended where there are fewer.
pub open spec fn digits_before(digits: Seq<char>, n: int) -> Seq<char> {
    if n <= digits.len() {
        digits.take(n)
    } else {
        digits + Seq::new((n - digits.len()) as nat, |i: int| '0')
    }
}

/// The size of a number counted in units of ten to the power of `-scale`, to the
/// nearest unit, a half counting up: the digits before the unit's point, and one
/// more where the first digit behind it is five or more.
pub open spec fn units(d: DecimalView, scale: int) -> int {
    let n = d.digits.len() - d.places + scale;
    if n < 0 {
        0
    } else {
        number_of(digits_before(d.digits, n)) + if n < d.digits.len() && d.digits[n] >= '5' {
            1int
        } else {
            0
        }
    }
}

/// The units of a number, capped at the largest machine integer.
pub open spec fn capped_units(d: DecimalView, scale: int) -> int {
    if units(d, scale) > u64::MAX {
        u64::MAX as int
    } else {
        units(d, scale)
    }
}

proof fn lemma_digits_before_step(digits: Seq<char>, n: int)
    requires
        0 <= n,
        all_digits(digits),
    ensures
        number_of(digits_before(digits, n + 1)) == number_of(digits_before(digits, n)) * 10 + (
        if n < digits.len() {
            digits[n] as int - 48
        } else {
            0
        }),
        number_of(digits_before(digits, n)) >= 0,
    decreases n,
{
    let longer = digits_before(digits, n + 1);
    assert(longer.drop_last() =~= digits_before(digits, n));
    if n > 0 {
        lemma_digits_before_step(digits, n - 1);
        if n - 1 < digits.len() {
            assert('0' <= digits[n - 1] <= '9');
        }
    } else {
        assert(digits_before(digits, 0) =~= Seq::empty());
    }
}

proof fn lemma_digits_before_grows(digits: Seq<char>, n: int, m: int)
    requires
        0 <= n <= m,
        all_digits(digits),
    ensures
        number_of(digits_before(digits, n)) <= number_of(digits_before(digits, m)),
    decreases m - n,
{
    if n < m {
        lemma_digits_before_grows(digits, n, m - 1);
        lemma_digits_before_step(digits, m - 1);
        if m - 1 < digits.len() {
            assert('0' <= digits[m - 1] <= '9');
        }
    }
}

proof fn lemma_zero_stays_zero(digits: Seq<char>, n: int, m: int)
    requires
        digits.len() <= n <= m,
        all_digits(digits),
        number_of(digits_before(digits, n)) == 0,
    ensures
        number_of(digits_before(digits, m)) == 0,
    decreases m - n,
{
    if n < m {
        lemma_zero_stays_zero(digits, n, m - 1);
        lemma_digits_before_step(digits, m - 1);
    }
}

/// The number counted in units of ten to the power of `-scale`, to the nearest
/// unit (its sign left aside), where a machine integer counts so far.
pub fn exact_units(d: &Decimal, scale: i64) -> (r: Option<u64>)
    requires
        d.well_formed(),
    ensures
        match r {
            Some(n) => n == units(d@, scale as int),
            None => units(d@, scale as int) > u64::MAX,
        },
{
    let count: i128 = d.digits.len() as i128 - d.places + scale as i128;
    if count < 0 {
        return Some(0);
    }
    let n: u128 = count as u128;
    let ghost digits = d@.digits;
    let mut value: u64 = 0;
    let mut i: u128 = 0;
    assert(digits_before(digits, 0) =~= Seq::empty());
    while i < n
        invariant
            digits == d.digits@,
            all_digits(digits),
            i <= n,
            n <= i128::MAX,
            n == digits.len() - d@.places + scale,
            value == number_of(digits_before(digits, i as int)),
            d@.digits == digits,
        decreases n - i,
    {
        proof {
            lemma_digits_before_step(digits, i as int);
        }
        let more: u64 = if i < d.digits.len() as u128 {
            assert('0' <= digits[i as int] <= '9');
            d.digits[i as usize] as u64 - 48
        } else {
            0
        };
        if i >= d.digits.len() as u128 && value == 0 {
            proof {
                lemma_zero_stays_zero(digits, i as int, n as int);
            }
            return Some(0);
        }
        if value > (u64::MAX - more) / 10 {
            proof {
                assert(value * 10 + more > u64::MAX);
                lemma_digits_before_grows(digits, i + 1, n as int);
            }
            return None;
        }
        value = value * 10 + more;
        i = i + 1;
    }
    if n < d.digits.len() as u128 && d.digits[n as usize] >= '5' {
        value.checked_add(1)
    } else {
        Some(value)
    }
}

/// The number counted in units of ten to the power of `-scale`, to the nearest
/// unit (its sign left aside), capped at the largest machine integer.
pub fn to_units(d: &Decimal, scale: i64) -> (r: u64)
    requires
        d.well_formed(),
    ensures
        r == capped_units(d@, scale as int),
{
    match exact_units(d, scale) {
        Some(n) => n,
        None => u64::MAX,
    }
}

/// Tells whether the number is zero.
pub fn is_zero(d: &Decimal) -> (r: bool)
    requires
        d.well_formed(),
    ensures
        r == (number_of(d@.digits) == 0),
{
    let ghost digits = d@.digits;
    assert(digits_before(digits, 0) =~= Seq::empty());
    assert(digits_before(digits, digits.len() as int) =~= digits);
    for i in 0..d.digits.len()
        invariant
            digits == d.digits@,
            all_digits(digits),
            digits_before(digits, digits.len() as int) == digits,
            number_of(digits_before(digits, i as int)) == 0,
    {
        proof {
            lemma_digits_before_step(digits, i as int);
            assert('0' <= digits[i as int] <= '9');
        }
        if d.digits[i] != '0' {
            proof {
                lemma_digits_before_grows(digits, i + 1, digits.len() as int);
            }
            return false;
        }
    }
    true
}

} // verus!
