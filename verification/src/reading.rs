//! How the texts that the library writes are read: the options of an argument list,
//! the options inside a filter, the labels of a filtergraph, numbers of seconds.
//! Nothing here knows how such a text is made, so what holds of a text through these
//! readers holds of what its reader makes of it.
use vstd::prelude::*;

use crate::text::{
    all_digits, contains, decimal, first_index, fixed_point, law_decimal_reads_back,
    law_padded_decimal_reads_back, lemma_first_index, joined, nearest_even, number_of, occurs_at,
    seconds1, seconds3, seconds6, zero_padded,
};
use crate::video::ffmpeg::seconds2;

verus! {

// ---------------------------------------------------------------------------
// Argument lists
// ---------------------------------------------------------------------------

/// Whether an argument list gives an option this value.
pub open spec fn gives(args: Seq<Seq<char>>, flag: Seq<char>, value: Seq<char>) -> bool {
    exists|i: int| 0 <= i && i + 1 < args.len() && #[trigger] args[i] == flag && args[i + 1] == value
}

/// Whether an argument list holds this argument.
pub open spec fn lists(args: Seq<Seq<char>>, arg: Seq<char>) -> bool {
    exists|i: int| 0 <= i < args.len() && #[trigger] args[i] == arg
}

/// An option at a known place is given.
pub proof fn lemma_gives(args: Seq<Seq<char>>, i: int, flag: Seq<char>, value: Seq<char>)
    requires
        0 <= i,
        i + 1 < args.len(),
        args[i] == flag,
        args[i + 1] == value,
    ensures
        gives(args, flag, value),
        lists(args, flag),
        lists(args, value),
{
    assert(args[i] == flag);
    assert(args[i + 1] == value);
}

// ---------------------------------------------------------------------------
// Options inside a text
// ---------------------------------------------------------------------------

/// Whether a character ends the value of an option.
pub open spec fn closes(c: char) -> bool {
    c == ':' || c == '[' || c == ']' || c == ',' || c == ';' || c == '\n' || c == '\''
}

/// Whether a text holds `key`, with exactly this value behind it.
pub open spec fn states(s: Seq<char>, key: Seq<char>, value: Seq<char>) -> bool {
    exists|at: int|
        #![trigger occurs_at(s, key + value, at)]
        occurs_at(s, key + value, at) && (at + key.len() + value.len() == s.len() || closes(
            s[at + key.len() + value.len()],
        ))
}

/// A text that is known to hold an option states it.
pub proof fn lemma_states(
    s: Seq<char>,
    a: Seq<char>,
    key: Seq<char>,
    value: Seq<char>,
    b: Seq<char>,
)
    requires
        s == a + key + value + b,
        b.len() == 0 || closes(b[0]),
    ensures
        states(s, key, value),
        contains(s, key),
{
    let at = a.len() as int;
    assert(s.subrange(at, at + (key + value).len()) =~= key + value);
    assert(occurs_at(s, key + value, at));
    assert(s.subrange(at, at + key.len()) =~= key);
    assert(occurs_at(s, key, at));
    if b.len() > 0 {
        assert(s[at + key.len() + value.len()] == b[0]);
    }
}

// ---------------------------------------------------------------------------
// Numbers of seconds
// ---------------------------------------------------------------------------

/// Ten to the power of `n`.
pub open spec fn power_of_ten(n: nat) -> nat
    decreases n,
{
    if n == 0 {
        1
    } else {
        10 * power_of_ten((n - 1) as nat)
    }
}

/// How many digits a number has behind its point.
pub open spec fn places_in(s: Seq<char>) -> int {
    s.len() - first_index(s, '.') - 1
}

/// The microseconds that a number of seconds with a point (and up to six digits
/// behind it) stands for.
pub open spec fn micros_in(s: Seq<char>) -> int {
    let p = first_index(s, '.');
    number_of(s.take(p)) * 1_000_000 + number_of(s.skip(p + 1)) * power_of_ten(
        (6 - places_in(s)) as nat,
    )
}

proof fn lemma_decimal_length(n: nat, places: nat)
    requires
        places >= 1,
        n < power_of_ten(places),
    ensures
        decimal(n).len() <= places,
    decreases places,
{
    reveal_with_fuel(power_of_ten, 2);
    if n >= 10 {
        lemma_decimal_length(n / 10, (places - 1) as nat);
    }
}

/// A number with a point reads back: the digits before the point and as many as asked
/// for behind it.
pub proof fn law_fixed_point_reads_back(n: nat, places: nat)
    requires
        1 <= places <= 6,
    ensures
        ({
            let scale = power_of_ten(places);
            let s = fixed_point(n, scale, places);
            let p = first_index(s, '.');
            &&& 1 <= p < s.len() && s[p] == '.'
            &&& places_in(s) == places
            &&& all_digits(s.take(p)) && all_digits(s.skip(p + 1))
            &&& number_of(s.take(p)) == n / scale
            &&& number_of(s.skip(p + 1)) == n % scale
        }),
{
    let scale = power_of_ten(places);
    lemma_power_positive(places);
    let whole = decimal(n / scale);
    let frac = zero_padded(decimal(n % scale), places);
    let s = fixed_point(n, scale, places);
    reveal_strlit(".");
    law_decimal_reads_back(n / scale);
    law_padded_decimal_reads_back(n % scale, places);
    lemma_decimal_length(n % scale, places);
    let p = whole.len() as int;
    assert forall|j: int| 0 <= j < p implies s[j] != '.' by {
        assert(s[j] == whole[j]);
        assert('0' <= whole[j] <= '9');
    }
    assert(s[p] == '.');
    lemma_first_index(s, '.', p);
    assert(s.take(p) =~= whole);
    assert(s.skip(p + 1) =~= frac);
}

proof fn lemma_power_positive(n: nat)
    ensures
        power_of_ten(n) > 0,
    decreases n,
{
    if n > 0 {
        lemma_power_positive((n - 1) as nat);
    }
}

proof fn lemma_powers()
    ensures
        power_of_ten(0) == 1,
        power_of_ten(1) == 10,
        power_of_ten(2) == 100,
        power_of_ten(3) == 1_000,
        power_of_ten(4) == 10_000,
        power_of_ten(5) == 100_000,
        power_of_ten(6) == 1_000_000,
{
    reveal_with_fuel(power_of_ten, 8);
}

/// Rounding gives the nearest whole number, and of two that are equally near the even
/// one.
pub proof fn law_rounding_is_to_the_nearest(n: nat, unit: nat)
    requires
        unit > 0,
    ensures
        2 * (nearest_even(n, unit) * unit - n) <= unit,
        2 * (n - nearest_even(n, unit) * unit) <= unit,
        2 * (n % unit) == unit ==> nearest_even(n, unit) % 2 == 0,
        n % unit == 0 ==> nearest_even(n, unit) * unit == n,
{
    vstd::arithmetic::div_mod::lemma_fundamental_div_mod(n as int, unit as int);
    let q = n / unit;
    let r = n % unit;
    assert(q * unit == unit * q) by (nonlinear_arith);
    assert((q + 1) * unit == q * unit + unit) by (nonlinear_arith);
}

/// A length written in seconds reads back as the length: exactly with six digits, and
/// to the nearest digit with fewer.
pub proof fn law_seconds_read_back(us: nat)
    ensures
        micros_in(seconds6(us)) == us && places_in(seconds6(us)) == 6,
        -500 <= micros_in(seconds3(us)) - us <= 500 && places_in(seconds3(us)) == 3,
        -5_000 <= micros_in(seconds2(us)) - us <= 5_000 && places_in(seconds2(us)) == 2,
        -50_000 <= micros_in(seconds1(us)) - us <= 50_000 && places_in(seconds1(us)) == 1,
{
    lemma_powers();
    law_fixed_point_reads_back(us, 6);
    law_fixed_point_reads_back(nearest_even(us, 1_000), 3);
    law_fixed_point_reads_back(nearest_even(us, 10_000), 2);
    law_fixed_point_reads_back(nearest_even(us, 100_000), 1);
    law_rounding_is_to_the_nearest(us, 1_000);
    law_rounding_is_to_the_nearest(us, 10_000);
    law_rounding_is_to_the_nearest(us, 100_000);
    let a = nearest_even(us, 1_000);
    let b = nearest_even(us, 10_000);
    let c = nearest_even(us, 100_000);
    let whole = seconds6(us);
    let frac = number_of(whole.skip(first_index(whole, '.') + 1));
    assert(frac * power_of_ten((6 - places_in(whole)) as nat) == frac) by (nonlinear_arith)
        requires
            power_of_ten((6 - places_in(whole)) as nat) == 1,
    ;
    assert(micros_in(whole) == (us / 1_000_000) * 1_000_000 + us % 1_000_000);
    assert(micros_in(seconds3(us)) == (a / 1_000) * 1_000_000 + (a % 1_000) * 1_000);
    assert(micros_in(seconds2(us)) == (b / 100) * 1_000_000 + (b % 100) * 10_000);
    assert(micros_in(seconds1(us)) == (c / 10) * 1_000_000 + (c % 10) * 100_000);
}

// ---------------------------------------------------------------------------
// Pieces and labels
// ---------------------------------------------------------------------------

/// Whether a character does not stand in a text.
pub open spec fn free_of(s: Seq<char>, c: char) -> bool {
    forall|i: int| 0 <= i < s.len() ==> #[trigger] s[i] != c
}

/// The pieces of a text between the separators in it.
pub open spec fn pieces(s: Seq<char>, sep: char) -> Seq<Seq<char>>
    decreases s.len(),
{
    if s.len() == 0 {
        seq![s]
    } else {
        let rest = pieces(s.drop_last(), sep);
        if s.last() == sep {
            rest.push(Seq::empty())
        } else {
            rest.drop_last().push(rest.last().push(s.last()))
        }
    }
}

proof fn lemma_pieces_exist(s: Seq<char>, sep: char)
    ensures
        pieces(s, sep).len() >= 1,
    decreases s.len(),
{
    if s.len() > 0 {
        lemma_pieces_exist(s.drop_last(), sep);
    }
}

proof fn lemma_pieces_grow(s: Seq<char>, more: Seq<char>, sep: char)
    requires
        free_of(more, sep),
    ensures
        ({
            let p = pieces(s, sep);
            pieces(s + more, sep) == p.drop_last().push(p.last() + more)
        }),
    decreases more.len(),
{
    let p = pieces(s, sep);
    lemma_pieces_exist(s, sep);
    if more.len() == 0 {
        assert(s + more =~= s);
        assert(p.last() + more =~= p.last());
        assert(p.drop_last().push(p.last()) =~= p);
    } else {
        let front = more.drop_last();
        assert forall|i: int| 0 <= i < front.len() implies #[trigger] front[i] != sep by {
            assert(front[i] == more[i]);
        }
        lemma_pieces_grow(s, front, sep);
        assert((s + more).drop_last() =~= s + front);
        assert((s + more).last() == more[more.len() - 1]);
        let q = p.drop_last().push(p.last() + front);
        assert(q.drop_last() =~= p.drop_last());
        assert((p.last() + front).push(more.last()) =~= p.last() + more);
    }
}

/// Texts that are joined with a separator that none of them holds come apart again.
pub proof fn lemma_joined_comes_apart(list: Seq<Seq<char>>, sep: char)
    requires
        list.len() >= 1,
        forall|i: int| 0 <= i < list.len() ==> free_of(#[trigger] list[i], sep),
    ensures
        pieces(joined(list, seq![sep]), sep) == list,
    decreases list.len(),
{
    let nothing = Seq::<char>::empty();
    assert(pieces(nothing, sep) == seq![nothing]);
    if list.len() == 1 {
        lemma_pieces_grow(nothing, list[0], sep);
        assert(nothing + list[0] =~= list[0]);
        assert(pieces(nothing, sep).drop_last().push(nothing + list[0]) =~= list);
    } else {
        let front = list.drop_last();
        assert forall|i: int| 0 <= i < front.len() implies free_of(#[trigger] front[i], sep) by {
            assert(front[i] == list[i]);
        }
        lemma_joined_comes_apart(front, sep);
        let a = joined(front, seq![sep]);
        let b = a + seq![sep];
        assert(b.drop_last() =~= a);
        assert(pieces(b, sep) == front.push(nothing));
        assert(free_of(list[list.len() - 1], sep));
        lemma_pieces_grow(b, list.last(), sep);
        assert(nothing + list.last() =~= list.last());
        assert(front.push(nothing).drop_last().push(list.last()) =~= list);
    }
}

/// A text in square brackets.
pub open spec fn bracketed(body: Seq<char>) -> Seq<char> {
    seq!['['] + body + seq![']']
}

/// The labels that a filter chain begins with: those of the streams that it takes.
pub open spec fn taken_labels(s: Seq<char>) -> Seq<Seq<char>>
    decreases s.len(),
{
    let end = first_index(s, ']');
    if s.len() > 0 && s[0] == '[' && 0 <= end < s.len() {
        seq![s.take(end + 1)] + taken_labels(s.skip(end + 1))
    } else {
        Seq::empty()
    }
}

/// Where the last opening bracket of a text stands.
pub open spec fn last_open(s: Seq<char>) -> int
    decreases s.len(),
{
    if s.len() == 0 || s.last() == '[' {
        s.len() - 1
    } else {
        last_open(s.drop_last())
    }
}

/// The label that a filter chain ends with: that of the stream that it makes.
pub open spec fn made_label(s: Seq<char>) -> Seq<char> {
    if last_open(s) < 0 {
        Seq::empty()
    } else {
        s.skip(last_open(s))
    }
}

/// The streams that play one after the other in the stream with this label, where
/// chains make streams of streams: those that no chain makes, in the order in which
/// the chains take them. (Only the first `upto` chains are looked at, and a chain sees
/// those before it.)
pub open spec fn played(chains: Seq<Seq<char>>, upto: nat, label: Seq<char>) -> Seq<Seq<char>>
    decreases upto, 0nat,
{
    if upto == 0 {
        seq![label]
    } else {
        let chain = chains[upto - 1];
        if made_label(chain) == label {
            played_all(chains, (upto - 1) as nat, taken_labels(chain))
        } else {
            played(chains, (upto - 1) as nat, label)
        }
    }
}

/// The same for several streams, one after the other.
pub open spec fn played_all(chains: Seq<Seq<char>>, upto: nat, labels: Seq<Seq<char>>) -> Seq<
    Seq<char>,
>
    decreases upto, labels.len() + 1,
{
    if labels.len() == 0 {
        Seq::empty()
    } else {
        played_all(chains, upto, labels.drop_last()) + played(chains, upto, labels.last())
    }
}

pub proof fn lemma_taken_label(body: Seq<char>, rest: Seq<char>)
    requires
        free_of(body, ']'),
    ensures
        taken_labels(bracketed(body) + rest) == seq![bracketed(body)] + taken_labels(rest),
{
    let s = bracketed(body) + rest;
    let end = body.len() as int + 1;
    assert(s[end] == ']');
    assert forall|j: int| 0 <= j < end implies s[j] != ']' by {
        if j > 0 {
            assert(s[j] == body[j - 1]);
        }
    }
    lemma_first_index(s, ']', end);
    assert(s.take(end + 1) =~= bracketed(body));
    assert(s.skip(end + 1) =~= rest);
}

pub proof fn lemma_made_label(front: Seq<char>, body: Seq<char>)
    requires
        free_of(body, '['),
    ensures
        made_label(front + bracketed(body)) == bracketed(body),
{
    let s = front + bracketed(body);
    lemma_last_open(s, front.len() as int);
    assert(s.skip(front.len() as int) =~= bracketed(body));
}

proof fn lemma_last_open(s: Seq<char>, at: int)
    requires
        0 <= at < s.len(),
        s[at] == '[',
        forall|j: int| at < j < s.len() ==> s[j] != '[',
    ensures
        last_open(s) == at,
    decreases s.len(),
{
    if at < s.len() - 1 {
        assert(s.last() == s[s.len() - 1]);
        lemma_last_open(s.drop_last(), at);
    }
}

/// Different texts in brackets are different labels.
pub proof fn lemma_brackets_are_distinct(a: Seq<char>, b: Seq<char>)
    requires
        bracketed(a) == bracketed(b),
    ensures
        a == b,
{
    assert(a.len() == b.len()) by {
        assert(bracketed(a).len() == a.len() + 2);
        assert(bracketed(b).len() == b.len() + 2);
    }
    assert forall|i: int| 0 <= i < a.len() implies a[i] == b[i] by {
        assert(bracketed(a)[i + 1] == a[i]);
        assert(bracketed(b)[i + 1] == b[i]);
    }
    assert(a =~= b);
}

} // verus!
