//! What holds of the numbers that are read.
use vstd::prelude::*;

use crate::number::{
    decimal_of, digits_before, exponent_of, leading_digits, number_digits, units, DecimalView,
};
use crate::reading::{law_fixed_point_reads_back, power_of_ten};
use crate::text::{
    all_digits, decimal, fixed_point, law_decimal_reads_back, law_padded_decimal_reads_back,
    number_of, zero_padded,
};

verus! {

proof fn lemma_power_step(n: nat)
    ensures
        power_of_ten(n + 1) == 10 * power_of_ten(n),
        power_of_ten(n) > 0,
    decreases n,
{
    if n > 0 {
        lemma_power_step((n - 1) as nat);
    }
}

/// Digits that are dropped divide, and what is dropped is the remainder.
proof fn lemma_dropped(digits: Seq<char>, drop: nat)
    requires
        all_digits(digits),
        drop <= digits.len(),
    ensures
        ({
            let kept = number_of(digits.take(digits.len() - drop));
            let rest = number_of(digits) - kept * power_of_ten(drop);
            &&& kept >= 0
            &&& 0 <= rest < power_of_ten(drop)
            &&& drop > 0 ==> {
                let d = digits[digits.len() - drop] as int - 48;
                d >= 5 <==> 2 * rest >= power_of_ten(drop)
            }
        }),
    decreases drop,
{
    let n = digits.len() - drop;
    let all = number_of(digits);
    if drop == 0 {
        assert(digits.take(n) =~= digits);
        crate::text::lemma_number_grows(digits, n);
        assert(number_of(digits) * 1 == number_of(digits));
    } else {
        let less = (drop - 1) as nat;
        lemma_dropped(digits, less);
        lemma_power_step(less);
        crate::text::lemma_number_grows(digits, n);
        let longer = digits.take(n + 1);
        assert(longer.drop_last() =~= digits.take(n));
        assert('0' <= digits[n] <= '9');
        let d = digits[n] as int - 48;
        let kept = number_of(digits.take(n));
        let more = number_of(longer);
        assert(more == kept * 10 + d);
        let p = power_of_ten(less);
        assert(more * p == kept * (10 * p) + d * p) by (nonlinear_arith)
            requires
                more == kept * 10 + d,
        ;
        let rest = all - kept * (10 * p);
        let inner = all - more * p;
        assert(rest == d * p + inner);
        assert(0 <= rest < 10 * p) by (nonlinear_arith)
            requires
                rest == d * p + inner,
                0 <= inner < p,
                0 <= d <= 9,
        ;
        assert(d >= 5 <==> 2 * rest >= 10 * p) by (nonlinear_arith)
            requires
                rest == d * p + inner,
                0 <= inner < p,
                0 <= d <= 9,
        ;
    }
}

proof fn lemma_appended(digits: Seq<char>, zeros: nat)
    requires
        all_digits(digits),
    ensures
        number_of(digits_before(digits, (digits.len() + zeros) as int)) == number_of(digits)
            * power_of_ten(zeros),
    decreases zeros,
{
    let n = digits.len() + zeros;
    let s = digits_before(digits, n as int);
    if zeros == 0 {
        assert(s =~= digits);
        assert(number_of(digits) * 1 == number_of(digits));
    } else {
        let less = (zeros - 1) as nat;
        lemma_appended(digits, less);
        lemma_power_step(less);
        assert(s.drop_last() =~= digits_before(digits, n - 1));
        assert(s.last() == '0');
        let v = number_of(digits);
        let p = power_of_ten(less);
        assert(v * (10 * p) == (v * p) * 10) by (nonlinear_arith);
    }
}

/// A number is counted in units to the nearest one, a half counting up: `places`
/// digits of it stand behind the point, and a unit is ten to the power of `-scale`.
pub proof fn law_units_are_the_nearest(d: DecimalView, scale: int)
    requires
        all_digits(d.digits),
    ensures
        d.places <= scale ==> units(d, scale) == number_of(d.digits) * power_of_ten(
            (scale - d.places) as nat,
        ),
        d.places > scale ==> {
            let unit = power_of_ten((d.places - scale) as nat);
            -unit < 2 * (units(d, scale) * unit - number_of(d.digits)) <= unit
        },
{
    let n = d.digits.len() - d.places + scale;
    crate::text::lemma_number_grows(d.digits, 0);
    if d.places <= scale {
        lemma_appended(d.digits, (scale - d.places) as nat);
    } else {
        let drop = (d.places - scale) as nat;
        let unit = power_of_ten(drop);
        let all = number_of(d.digits);
        if drop <= d.digits.len() {
            lemma_dropped(d.digits, drop);
            lemma_power_step(drop);
            let kept = number_of(d.digits.take(n));
            assert(digits_before(d.digits, n) == d.digits.take(n));
            let up = if d.digits[n] >= '5' {
                1int
            } else {
                0
            };
            assert(units(d, scale) == kept + up);
            assert((kept + up) * unit == kept * unit + up * unit) by (nonlinear_arith);
            assert(up * unit == (if up == 1 {
                unit as int
            } else {
                0
            })) by (nonlinear_arith)
                requires
                    up == 0 || up == 1,
            ;
        } else {
            lemma_dropped(d.digits, d.digits.len());
            assert(d.digits.take(0) =~= Seq::empty());
            assert(0 * power_of_ten(d.digits.len()) == 0) by (nonlinear_arith);
            lemma_power_grows(d.digits.len(), (drop - 1) as nat);
            lemma_power_step((drop - 1) as nat);
            assert(0 * unit == 0) by (nonlinear_arith);
        }
    }
}

proof fn lemma_power_grows(a: nat, b: nat)
    requires
        a <= b,
    ensures
        power_of_ten(a) <= power_of_ten(b),
    decreases b - a,
{
    if a < b {
        lemma_power_grows(a, (b - 1) as nat);
        lemma_power_step((b - 1) as nat);
    }
}

proof fn lemma_leading(s: Seq<char>, n: int)
    requires
        0 <= n <= s.len(),
        forall|i: int| 0 <= i < n ==> '0' <= #[trigger] s[i] <= '9',
        n < s.len() ==> !('0' <= s[n] <= '9'),
    ensures
        leading_digits(s) == n,
    decreases n,
{
    if n > 0 {
        assert('0' <= s[0] <= '9');
        let t = s.skip(1);
        assert forall|i: int| 0 <= i < n - 1 implies '0' <= #[trigger] t[i] <= '9' by {
            assert(t[i] == s[i + 1]);
        }
        lemma_leading(t, n - 1);
    }
}

proof fn lemma_number_concat(a: Seq<char>, b: Seq<char>)
    ensures
        number_of(a + b) == number_of(a) * power_of_ten(b.len()) + number_of(b),
    decreases b.len(),
{
    if b.len() == 0 {
        assert(a + b =~= a);
        assert(number_of(a) * 1 == number_of(a));
    } else {
        let c = b.drop_last();
        lemma_number_concat(a, c);
        lemma_power_step(c.len());
        assert((a + b).drop_last() =~= a + c);
        assert((a + b).last() == b.last());
        let x = number_of(a);
        let p = power_of_ten(c.len());
        assert(x * (10 * p) == (x * p) * 10) by (nonlinear_arith);
    }
}

/// A whole number that is written is the number that is read.
pub proof fn law_whole_numbers_are_read(n: nat)
    ensures
        decimal_of(decimal(n)) == Some(
            DecimalView { negative: false, digits: decimal(n), places: 0 },
        ),
        units(decimal_of(decimal(n))->0, 0) == n,
{
    let s = decimal(n);
    law_decimal_reads_back(n);
    assert('0' <= s[0] <= '9');
    lemma_leading(s, s.len() as int);
    assert(s.skip(s.len() as int) =~= Seq::empty());
    assert(s.take(s.len() as int) =~= s);
    assert(exponent_of(Seq::empty()) == Some(0int));
    law_units_are_the_nearest(decimal_of(s)->0, 0);
    assert(number_of(s) * 1 == number_of(s));
}

/// A number with a point that is written is the number that is read: `n` in units of
/// its last digit.
pub proof fn law_numbers_with_a_point_are_read(n: nat, places: nat)
    requires
        1 <= places <= 6,
    ensures
        ({
            let s = fixed_point(n, power_of_ten(places), places);
            &&& decimal_of(s) is Some
            &&& !decimal_of(s)->0.negative
            &&& decimal_of(s)->0.places == places
            &&& number_of(decimal_of(s)->0.digits) == n
            &&& units(decimal_of(s)->0, places as int) == n
        }),
{
    let scale = power_of_ten(places);
    lemma_power_step(places);
    let s = fixed_point(n, scale, places);
    let whole = decimal(n / scale);
    let frac = zero_padded(decimal(n % scale), places);
    reveal_strlit(".");
    law_decimal_reads_back(n / scale);
    law_padded_decimal_reads_back(n % scale, places);
    law_fixed_point_reads_back(n, places);
    let p = whole.len() as int;
    assert(s[p] == '.');
    assert forall|i: int| 0 <= i < p implies '0' <= #[trigger] s[i] <= '9' by {
        assert(s[i] == whole[i]);
    }
    assert forall|j: int| 0 <= j < p implies s[j] != '.' by {
        assert('0' <= s[j] <= '9');
    }
    crate::text::lemma_first_index(s, '.', p);
    lemma_leading(s, p);
    assert('0' <= s[0] <= '9');
    let rest = s.skip(p);
    assert(rest.skip(1) =~= frac);
    lemma_leading(frac, frac.len() as int);
    assert(frac.len() == places);
    assert(rest.skip(1 + frac.len() as int) =~= Seq::empty());
    assert(rest.subrange(1, 1 + frac.len() as int) =~= frac);
    assert(s.take(p) =~= whole);
    assert(exponent_of(Seq::empty()) == Some(0int));
    let digits = whole + frac;
    assert(number_digits(s) == digits);
    lemma_number_concat(whole, frac);
    vstd::arithmetic::div_mod::lemma_fundamental_div_mod(n as int, scale as int);
    assert((n / scale) * scale == scale * (n / scale)) by (nonlinear_arith);
    assert forall|i: int| 0 <= i < digits.len() implies '0' <= #[trigger] digits[i] <= '9' by {
        if i < p {
            assert(digits[i] == whole[i]);
        } else {
            assert(digits[i] == frac[i - p]);
        }
    }
    law_units_are_the_nearest(decimal_of(s)->0, places as int);
    assert(number_of(digits) * 1 == number_of(digits));
}

/// An exponent moves the point by its size, to the right, or with a minus sign to the
/// left.
pub proof fn law_exponents_move_the_point(n: nat, k: nat)
    requires
        k <= 1_000_000,
    ensures
        decimal_of(decimal(n) + seq!['e'] + decimal(k)) == Some(
            DecimalView { negative: false, digits: decimal(n), places: -(k as int) },
        ),
        decimal_of(decimal(n) + seq!['e', '-'] + decimal(k)) == Some(
            DecimalView { negative: false, digits: decimal(n), places: k as int },
        ),
{
    law_decimal_reads_back(n);
    law_decimal_reads_back(k);
    let p = decimal(n).len() as int;
    let a = decimal(n) + seq!['e'] + decimal(k);
    let b = decimal(n) + seq!['e', '-'] + decimal(k);
    assert('0' <= decimal(n)[0] <= '9' && '0' <= decimal(k)[0] <= '9');
    assert(a[0] == decimal(n)[0] && b[0] == decimal(n)[0]);
    assert(a[p] == 'e' && b[p] == 'e');
    assert forall|i: int| 0 <= i < p implies '0' <= #[trigger] a[i] <= '9' by {
        assert(a[i] == decimal(n)[i]);
    }
    assert forall|i: int| 0 <= i < p implies '0' <= #[trigger] b[i] <= '9' by {
        assert(b[i] == decimal(n)[i]);
    }
    lemma_leading(a, p);
    lemma_leading(b, p);
    assert(a.take(p) =~= decimal(n) && b.take(p) =~= decimal(n));
    assert(a.skip(p).skip(1) =~= decimal(k));
    assert(b.skip(p).skip(1) =~= seq!['-'] + decimal(k));
    assert(b.skip(p).skip(1).skip(1) =~= decimal(k));
}

/// A minus sign makes a number negative and leaves its size alone.
pub proof fn law_a_minus_sign_makes_a_number_negative(n: nat)
    ensures
        decimal_of(seq!['-'] + decimal(n)) == Some(
            DecimalView { negative: true, digits: decimal(n), places: 0 },
        ),
{
    law_decimal_reads_back(n);
    let s = seq!['-'] + decimal(n);
    let d = decimal(n);
    assert('0' <= d[0] <= '9');
    assert(s.skip(1) =~= d);
    lemma_leading(d, d.len() as int);
    assert(d.skip(d.len() as int) =~= Seq::empty());
    assert(d.take(d.len() as int) =~= d);
    assert(exponent_of(Seq::empty()) == Some(0int));
}

} // verus!
