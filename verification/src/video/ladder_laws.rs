//! What holds of every combine ladder.
use vstd::prelude::*;

use crate::text::{
    decimal, first_index, law_decimal_reads_back, law_padded_decimal_reads_back, lemma_first_index,
    number_of, zero_padded,
};
use crate::video::ladder::{
    batch_count, batch_name, batch_pass, batch_start, final_pass, first_level, group, item_lengths,
    item_names, ladder, law_batches_are_even_and_within_the_limit, lemma_batch_count,
    lemma_batch_start_bound, next_level, round_passes, Item, PassView,
};
use crate::video::timeline::{fits, joined_length, lemma_sum_part, lemma_transition_part, sum};

verus! {

// ---------------------------------------------------------------------------
// File names
// ---------------------------------------------------------------------------

/// No two batches of a ladder write the same file.
pub proof fn law_batch_names_are_distinct(r1: nat, i1: nat, r2: nat, i2: nat)
    requires
        batch_name(r1, i1) == batch_name(r2, i2),
    ensures
        r1 == r2,
        i1 == i2,
{
    lemma_batch_name_parts(r1, i1);
    lemma_batch_name_parts(r2, i2);
}

/// The round and the number of a batch can be read off its file name.
proof fn lemma_batch_name_parts(r: nat, i: nat)
    ensures
        ({
            let name = batch_name(r, i);
            let k = first_index(name.skip(7), '_');
            &&& number_of(name.subrange(7, 7 + k)) == r
            &&& number_of(name.subrange(8 + k, name.len() - 4)) == i
        }),
{
    reveal_strlit("batch_r");
    reveal_strlit("_");
    reveal_strlit(".mkv");
    law_decimal_reads_back(r);
    law_padded_decimal_reads_back(i, 4);
    let name = batch_name(r, i);
    let d = decimal(r);
    let p = zero_padded(decimal(i), 4);
    let rest = name.skip(7);
    assert(rest =~= d + seq!['_'] + p + ".mkv"@);
    assert forall|j: int| 0 <= j < d.len() implies rest[j] != '_' by {
        assert(rest[j] == d[j]);
        assert('0' <= d[j] <= '9');
    }
    assert(rest[d.len() as int] == '_');
    lemma_first_index(rest, '_', d.len() as int);
    assert(name.subrange(7, 7int + d.len()) =~= d);
    assert(name.subrange(8int + d.len(), name.len() - 4) =~= p);
}

// ---------------------------------------------------------------------------
// Shape
// ---------------------------------------------------------------------------

/// Every pass of a round combines at least two and at most `cap` files and is
/// not the final one.
proof fn lemma_round_passes(level: Seq<Item>, cap: int, round: nat, upto: nat)
    requires
        cap >= 2,
        level.len() > cap,
        upto <= batch_count(level.len() as int, cap),
    ensures
        forall|i: int|
            0 <= i < round_passes(level, cap, round, upto).len() ==> {
                let p = #[trigger] round_passes(level, cap, round, upto)[i];
                &&& !p.is_final
                &&& 2 <= p.inputs.len() <= cap
                &&& p.durations.len() == p.inputs.len()
            },
    decreases upto,
{
    if upto > 0 {
        let i = (upto - 1) as nat;
        lemma_round_passes(level, cap, round, i);
        lemma_group_size(level, cap, i as int);
        let earlier = round_passes(level, cap, round, i);
        let all = round_passes(level, cap, round, upto);
        assert forall|k: int| 0 <= k < all.len() implies {
            let p = #[trigger] all[k];
            &&& !p.is_final
            &&& 2 <= p.inputs.len() <= cap
            &&& p.durations.len() == p.inputs.len()
        } by {
            if k < earlier.len() {
                assert(all[k] == earlier[k]);
            }
        }
    }
}

/// A batch holds at least one item and no more than the cap, and ends where the
/// next one starts.
pub proof fn lemma_group_size(level: Seq<Item>, cap: int, i: int)
    requires
        cap >= 2,
        level.len() > cap,
        0 <= i < batch_count(level.len() as int, cap),
    ensures
        1 <= group(level, cap, i).len() <= cap,
        0 <= batch_start(level.len() as int, batch_count(level.len() as int, cap), i),
        batch_start(level.len() as int, batch_count(level.len() as int, cap), i) + group(
            level,
            cap,
            i,
        ).len() == batch_start(level.len() as int, batch_count(level.len() as int, cap), i + 1),
        batch_start(level.len() as int, batch_count(level.len() as int, cap), i + 1)
            <= level.len(),
{
    let n = level.len() as int;
    lemma_batch_count(n, cap);
    law_batches_are_even_and_within_the_limit(n, cap, i, i);
    lemma_batch_start_bound(n, batch_count(n, cap), i);
    lemma_batch_start_bound(n, batch_count(n, cap), i + 1);
}

/// A ladder has exactly one final pass, it runs last, and it writes the output.
pub proof fn law_exactly_one_final_pass_and_it_is_last(
    level: Seq<Item>,
    transition: u64,
    output: Seq<char>,
    leaf_max: int,
    batch_max: int,
    round: nat,
)
    requires
        leaf_max >= 2,
        batch_max >= 2,
    ensures
        ({
            let passes = ladder(level, transition, output, leaf_max, batch_max, round);
            &&& passes.len() >= 1
            &&& passes.last().is_final
            &&& passes.last().output == output
            &&& forall|i: int| 0 <= i < passes.len() - 1 ==> !(#[trigger] passes[i]).is_final
        }),
    decreases level.len(),
{
    let cap = if round == 0 {
        leaf_max
    } else {
        batch_max
    };
    if level.len() > cap {
        let count = batch_count(level.len() as int, cap);
        lemma_batch_count(level.len() as int, cap);
        lemma_round_passes(level, cap, round + 1, count as nat);
        law_exactly_one_final_pass_and_it_is_last(
            next_level(level, cap, transition, round + 1),
            transition,
            output,
            leaf_max,
            batch_max,
            round + 1,
        );
    }
}

/// Every pass of a ladder has one length for each of its inputs.
pub proof fn law_every_input_has_a_length(
    level: Seq<Item>,
    transition: u64,
    output: Seq<char>,
    leaf_max: int,
    batch_max: int,
    round: nat,
)
    requires
        leaf_max >= 2,
        batch_max >= 2,
    ensures
        ({
            let passes = ladder(level, transition, output, leaf_max, batch_max, round);
            forall|i: int|
                0 <= i < passes.len() ==> (#[trigger] passes[i]).inputs.len()
                    == passes[i].durations.len()
        }),
    decreases level.len(),
{
    let cap = if round == 0 {
        leaf_max
    } else {
        batch_max
    };
    if level.len() > cap {
        let count = batch_count(level.len() as int, cap);
        lemma_batch_count(level.len() as int, cap);
        lemma_round_passes(level, cap, round + 1, count as nat);
        let next = next_level(level, cap, transition, round + 1);
        law_every_input_has_a_length(next, transition, output, leaf_max, batch_max, round + 1);
        let here = round_passes(level, cap, round + 1, count as nat);
        let above = ladder(next, transition, output, leaf_max, batch_max, round + 1);
        let passes = ladder(level, transition, output, leaf_max, batch_max, round);
        assert forall|i: int| 0 <= i < passes.len() implies (#[trigger] passes[i]).inputs.len()
            == passes[i].durations.len() by {
            if i < here.len() {
                assert(passes[i] == here[i]);
            } else {
                assert(passes[i] == above[i - here.len()]);
            }
        }
    }
}

/// No pass opens more than its tier allows: the passes of the first round (the
/// first ones of the plan) take at most `leaf_max` clips, every pass after them
/// at most `batch_max` files. Clips that fit in one pass make a single pass.
pub proof fn law_no_pass_exceeds_its_cap(
    level: Seq<Item>,
    transition: u64,
    output: Seq<char>,
    leaf_max: int,
    batch_max: int,
)
    requires
        leaf_max >= 2,
        batch_max >= 2,
    ensures
        ({
            let passes = ladder(level, transition, output, leaf_max, batch_max, 0);
            let first = round_passes(
                level,
                leaf_max,
                1,
                batch_count(level.len() as int, leaf_max) as nat,
            ).len();
            if level.len() <= leaf_max {
                passes.len() == 1 && passes[0].inputs.len() == level.len()
            } else {
                &&& first < passes.len()
                &&& forall|i: int| 0 <= i < first ==> (#[trigger] passes[i]).inputs.len() <= leaf_max
                &&& forall|i: int|
                    first <= i < passes.len() ==> (#[trigger] passes[i]).inputs.len() <= batch_max
            }
        }),
{
    if level.len() > leaf_max {
        let count = batch_count(level.len() as int, leaf_max);
        lemma_batch_count(level.len() as int, leaf_max);
        lemma_round_passes(level, leaf_max, 1, count as nat);
        lemma_upper_passes(
            next_level(level, leaf_max, transition, 1),
            transition,
            output,
            leaf_max,
            batch_max,
            1,
        );
        law_exactly_one_final_pass_and_it_is_last(
            next_level(level, leaf_max, transition, 1),
            transition,
            output,
            leaf_max,
            batch_max,
            1,
        );
    }
}

proof fn lemma_upper_passes(
    level: Seq<Item>,
    transition: u64,
    output: Seq<char>,
    leaf_max: int,
    batch_max: int,
    round: nat,
)
    requires
        leaf_max >= 2,
        batch_max >= 2,
        round > 0,
    ensures
        ({
            let passes = ladder(level, transition, output, leaf_max, batch_max, round);
            forall|i: int| 0 <= i < passes.len() ==> (#[trigger] passes[i]).inputs.len() <= batch_max
        }),
    decreases level.len(),
{
    if level.len() > batch_max {
        let count = batch_count(level.len() as int, batch_max);
        lemma_batch_count(level.len() as int, batch_max);
        lemma_round_passes(level, batch_max, round + 1, count as nat);
        let next = next_level(level, batch_max, transition, round + 1);
        lemma_upper_passes(next, transition, output, leaf_max, batch_max, round + 1);
        let here = round_passes(level, batch_max, round + 1, count as nat);
        let above = ladder(next, transition, output, leaf_max, batch_max, round + 1);
        let passes = ladder(level, transition, output, leaf_max, batch_max, round);
        assert(passes == here + above);
        assert forall|i: int| 0 <= i < passes.len() implies (#[trigger] passes[i]).inputs.len()
            <= batch_max by {
            if i < here.len() {
                assert(passes[i] == here[i]);
            } else {
                assert(passes[i] == above[i - here.len()]);
            }
        }
    } else {
        assert(item_names(level).len() == level.len());
    }
}

/// The first round does not depend on the cap of the upper ones: two plans for
/// the same clips begin with the same passes, so the batches that an interrupted
/// run left behind still match.
pub proof fn law_first_round_is_independent_of_the_batch_cap(
    level: Seq<Item>,
    transition: u64,
    output: Seq<char>,
    leaf_max: int,
    batch_max: int,
    other_max: int,
)
    requires
        leaf_max >= 2,
        batch_max >= 2,
        other_max >= 2,
        level.len() > leaf_max,
    ensures
        ({
            let first = round_passes(
                level,
                leaf_max,
                1,
                batch_count(level.len() as int, leaf_max) as nat,
            );
            let n = first.len() as int;
            let one = ladder(level, transition, output, leaf_max, batch_max, 0);
            let two = ladder(level, transition, output, leaf_max, other_max, 0);
            &&& n <= one.len() && one.take(n) == first
            &&& n <= two.len() && two.take(n) == first
        }),
{
    let first = round_passes(
        level,
        leaf_max,
        1,
        batch_count(level.len() as int, leaf_max) as nat,
    );
    let n = first.len() as int;
    assert(ladder(level, transition, output, leaf_max, batch_max, 0).take(n) =~= first);
    assert(ladder(level, transition, output, leaf_max, other_max, 0).take(n) =~= first);
}

// ---------------------------------------------------------------------------
// Durations
// ---------------------------------------------------------------------------

/// What the first `upto` batches of a round leave for the next level lasts as long
/// as their items did, less the transitions within the batches.
pub proof fn lemma_round_lengths(level: Seq<Item>, cap: int, transition: u64, round: nat, upto: int)
    requires
        cap >= 2,
        level.len() > cap,
        fits(item_lengths(level), transition),
        forall|i: int| 0 <= i < level.len() ==> transition <= (#[trigger] level[i]).1,
        0 <= upto <= batch_count(level.len() as int, cap),
    ensures
        ({
            let n = level.len() as int;
            let next = next_level(level, cap, transition, round);
            let at = batch_start(n, batch_count(n, cap), upto);
            &&& sum(item_lengths(next.take(upto))) == sum(item_lengths(level).take(at)) - transition
                * (at - upto)
            &&& forall|i: int| 0 <= i < upto ==> transition <= (#[trigger] next[i]).1
        }),
    decreases upto,
{
    let n = level.len() as int;
    let count = batch_count(n, cap);
    let next = next_level(level, cap, transition, round);
    let lengths = item_lengths(level);
    lemma_batch_count(n, cap);
    if upto == 0 {
        assert(0 * (n / count) == 0) by (nonlinear_arith);
        assert(lengths.take(0) =~= Seq::empty());
        assert(item_lengths(next.take(0)) =~= Seq::empty());
        assert(transition * 0 == 0) by (nonlinear_arith);
    } else {
        let i = upto - 1;
        lemma_round_lengths(level, cap, transition, round, i);
        lemma_group_size(level, cap, i);
        let g = group(level, cap, i);
        let from = batch_start(n, count, i);
        let to = batch_start(n, count, upto);
        let d = item_lengths(g);
        assert(d =~= lengths.subrange(from, to));
        lemma_sum_part(lengths, from, to);
        lemma_group_length(d, transition);
        assert(item_lengths(next.take(upto)).drop_last() =~= item_lengths(next.take(i)));
        assert(item_lengths(next.take(upto)).last() == next[i].1);
        lemma_transition_part(transition, d.len() as int, n);
        assert(fits(d, transition));
        assert(next[i].1 == joined_length(d, transition)) by {
            if g.len() == 1 {
                reveal_with_fuel(sum, 2);
                assert(d.len() == 1 && d[0] == g[0].1);
                assert(transition * 0 == 0) by (nonlinear_arith);
            }
        }
        assert(transition * (to - upto) == transition * (from - i) + transition * (d.len() - 1))
            by (nonlinear_arith)
            requires
                to - upto == (from - i) + (d.len() - 1),
        ;
    }
}

/// Clips that outlast the transition make a batch that outlasts it too, and
/// nothing is cut off at zero.
proof fn lemma_group_length(d: Seq<u64>, transition: u64)
    requires
        d.len() >= 1,
        forall|i: int| 0 <= i < d.len() ==> transition <= #[trigger] d[i],
    ensures
        joined_length(d, transition) == sum(d) - transition * (d.len() - 1),
        joined_length(d, transition) >= transition,
    decreases d.len(),
{
    if d.len() == 1 {
        reveal_with_fuel(sum, 2);
        assert(transition * 0 == 0) by (nonlinear_arith);
    } else {
        let front = d.drop_last();
        assert forall|i: int| 0 <= i < front.len() implies transition <= #[trigger] front[i] by {
            assert(front[i] == d[i]);
        }
        lemma_group_length(front, transition);
        assert(transition * (d.len() - 1) == transition * (front.len() - 1) + transition)
            by (nonlinear_arith)
            requires
                front.len() + 1 == d.len(),
        ;
        assert(d.last() == d[d.len() - 1]);
    }
}

/// The next level lasts as long as the level before it, and its items outlast the
/// transition too.
pub proof fn lemma_next_level(level: Seq<Item>, cap: int, transition: u64, round: nat)
    requires
        cap >= 2,
        level.len() > cap,
        fits(item_lengths(level), transition),
        forall|i: int| 0 <= i < level.len() ==> transition <= (#[trigger] level[i]).1,
    ensures
        ({
            let next = next_level(level, cap, transition, round);
            &&& next.len() < level.len()
            &&& fits(item_lengths(next), transition)
            &&& forall|i: int| 0 <= i < next.len() ==> transition <= (#[trigger] next[i]).1
            &&& joined_length(item_lengths(next), transition) == joined_length(
                item_lengths(level),
                transition,
            )
        }),
{
    let n = level.len() as int;
    let count = batch_count(n, cap);
    let next = next_level(level, cap, transition, round);
    let lengths = item_lengths(level);
    lemma_batch_count(n, cap);
    lemma_round_lengths(level, cap, transition, round, count);
    law_batches_are_even_and_within_the_limit(n, cap, 0, 0);
    assert(next.take(count) =~= next);
    assert(lengths.take(n) =~= lengths);
    lemma_transition_part(transition, n - count, n);
    lemma_transition_part(transition, count, n);
    assert(transition * (n - 1) == transition * (n - count) + transition * (count - 1))
        by (nonlinear_arith);
    assert forall|i: int| 0 <= i < lengths.len() implies transition <= #[trigger] lengths[i] by {
        assert(level[i].1 == lengths[i]);
    }
    lemma_group_length(lengths, transition);
    assert forall|i: int| 0 <= i < item_lengths(next).len() implies transition
        <= #[trigger] item_lengths(next)[i] by {
        assert(next[i].1 == item_lengths(next)[i]);
    }
    lemma_group_length(item_lengths(next), transition);
}

/// Batching changes nothing of the length: the final pass of a ladder lasts
/// exactly as long as joining all clips in one pass would. (Every clip has to
/// outlast the transition, as a transition that is safe for the clips does.)
pub proof fn law_batching_preserves_total_duration(
    level: Seq<Item>,
    transition: u64,
    output: Seq<char>,
    leaf_max: int,
    batch_max: int,
    round: nat,
)
    requires
        leaf_max >= 2,
        batch_max >= 2,
        fits(item_lengths(level), transition),
        forall|i: int| 0 <= i < level.len() ==> transition <= (#[trigger] level[i]).1,
    ensures
        joined_length(
            ladder(level, transition, output, leaf_max, batch_max, round).last().durations,
            transition,
        ) == joined_length(item_lengths(level), transition),
    decreases level.len(),
{
    let cap = if round == 0 {
        leaf_max
    } else {
        batch_max
    };
    if level.len() > cap {
        let next = next_level(level, cap, transition, round + 1);
        lemma_next_level(level, cap, transition, round + 1);
        law_batching_preserves_total_duration(
            next,
            transition,
            output,
            leaf_max,
            batch_max,
            round + 1,
        );
        law_exactly_one_final_pass_and_it_is_last(
            next,
            transition,
            output,
            leaf_max,
            batch_max,
            round + 1,
        );
    }
}

// ---------------------------------------------------------------------------
// Contents
// ---------------------------------------------------------------------------

/// What each file holds: the clips that play one after the other in it.
pub type Contents = Map<Seq<char>, Seq<Seq<char>>>;

/// The clips that play when the named files are joined.
pub open spec fn play(files: Contents, names: Seq<Seq<char>>) -> Seq<Seq<char>>
    decreases names.len(),
{
    if names.len() == 0 {
        Seq::empty()
    } else {
        play(files, names.drop_last()) + files[names.last()]
    }
}

/// The files after the passes have run one after the other, each joining its
/// inputs into its output.
pub open spec fn run(files: Contents, passes: Seq<PassView>) -> Contents
    decreases passes.len(),
{
    if passes.len() == 0 {
        files
    } else {
        let before = run(files, passes.drop_last());
        before.insert(passes.last().output, play(before, passes.last().inputs))
    }
}

proof fn lemma_play_concat(files: Contents, a: Seq<Seq<char>>, b: Seq<Seq<char>>)
    ensures
        play(files, a + b) == play(files, a) + play(files, b),
    decreases b.len(),
{
    if b.len() == 0 {
        assert(a + b =~= a);
        assert(play(files, a) + play(files, b) =~= play(files, a));
    } else {
        assert((a + b).drop_last() =~= a + b.drop_last());
        lemma_play_concat(files, a, b.drop_last());
        assert(play(files, a + b) =~= play(files, a) + play(files, b));
    }
}

proof fn lemma_play_frame(one: Contents, two: Contents, names: Seq<Seq<char>>)
    requires
        forall|i: int| 0 <= i < names.len() ==> one[#[trigger] names[i]] == two[names[i]],
    ensures
        play(one, names) == play(two, names),
    decreases names.len(),
{
    if names.len() > 0 {
        assert(names.last() == names[names.len() - 1]);
        assert forall|i: int| 0 <= i < names.drop_last().len() implies one[#[trigger] names.drop_last()[i]]
            == two[names.drop_last()[i]] by {
            assert(names.drop_last()[i] == names[i]);
        }
        lemma_play_frame(one, two, names.drop_last());
    }
}

proof fn lemma_run_concat(files: Contents, p: Seq<PassView>, q: Seq<PassView>)
    ensures
        run(files, p + q) == run(run(files, p), q),
    decreases q.len(),
{
    if q.len() == 0 {
        assert(p + q =~= p);
    } else {
        assert((p + q).drop_last() =~= p + q.drop_last());
        lemma_run_concat(files, p, q.drop_last());
    }
}

/// Whether no item of the level has the name of a batch of this round or a later
/// one.
pub open spec fn unclaimed(level: Seq<Item>, round: nat) -> bool {
    forall|k: int, r: nat, i: nat|
        0 <= k < level.len() && r >= round ==> (#[trigger] level[k]).0 != #[trigger] batch_name(r, i)
}

/// The items of the next level have no name of a later round's batch.
pub proof fn lemma_next_level_is_unclaimed(
    level: Seq<Item>,
    cap: int,
    transition: u64,
    round: nat,
)
    requires
        cap >= 2,
        level.len() > cap,
        unclaimed(level, round),
    ensures
        unclaimed(next_level(level, cap, transition, round), round + 1),
{
    let n = level.len() as int;
    let count = batch_count(n, cap);
    let next = next_level(level, cap, transition, round);
    assert forall|k: int, r: nat, i: nat|
        0 <= k < next.len() && r >= round + 1 implies (#[trigger] next[k]).0
        != #[trigger] batch_name(r, i) by {
        lemma_group_size(level, cap, k);
        let items = group(level, cap, k);
        if items.len() == 1 {
            assert(items[0] == level[batch_start(n, count, k)]);
            assert(level[batch_start(n, count, k)].0 != batch_name(r, i));
        } else if batch_name(round, k as nat) == batch_name(r, i) {
            law_batch_names_are_distinct(round, k as nat, r, i);
        }
    }
}

/// After the passes for the first `upto` batches of a round, what these batches
/// left for the next level plays what their items played, and no file but the
/// batches of the round has changed.
proof fn lemma_round_plays(
    files: Contents,
    level: Seq<Item>,
    cap: int,
    transition: u64,
    round: nat,
    upto: nat,
)
    requires
        cap >= 2,
        level.len() > cap,
        unclaimed(level, round),
        upto <= batch_count(level.len() as int, cap),
    ensures
        ({
            let n = level.len() as int;
            let after = run(files, round_passes(level, cap, round, upto));
            let next = next_level(level, cap, transition, round);
            let at = batch_start(n, batch_count(n, cap), upto as int);
            &&& play(after, item_names(next.take(upto as int))) == play(
                files,
                item_names(level).take(at),
            )
            &&& forall|k: int|
                0 <= k < level.len() ==> after[(#[trigger] level[k]).0] == files[level[k].0]
        }),
    decreases upto,
{
    let n = level.len() as int;
    let count = batch_count(n, cap);
    let next = next_level(level, cap, transition, round);
    let names = item_names(level);
    lemma_batch_count(n, cap);
    if upto == 0 {
        assert(0 * (n / count) == 0) by (nonlinear_arith);
        assert(names.take(0) =~= Seq::empty());
        assert(item_names(next.take(0)) =~= Seq::empty());
    } else {
        let i = (upto - 1) as nat;
        lemma_round_plays(files, level, cap, transition, round, i);
        lemma_group_size(level, cap, i as int);
        let g = group(level, cap, i as int);
        let from = batch_start(n, count, i as int);
        let to = batch_start(n, count, upto as int);
        let before = run(files, round_passes(level, cap, round, i));
        let passes = round_passes(level, cap, round, upto);
        let after = run(files, passes);
        // The batch plays what its items played at the start of the round.
        assert(item_names(g) =~= names.subrange(from, to));
        assert forall|k: int| 0 <= k < item_names(g).len() implies before[#[trigger] item_names(g)[k]]
            == files[item_names(g)[k]] by {
            assert(item_names(g)[k] == level[from + k].0);
        }
        lemma_play_frame(before, files, item_names(g));
        assert(names.take(from) + item_names(g) =~= names.take(to));
        lemma_play_concat(files, names.take(from), item_names(g));
        let fresh = batch_name(round, i);
        if g.len() == 1 {
            assert(passes =~= round_passes(level, cap, round, i));
            assert(next[i as int] == g[0]);
            assert(g[0] == level[from]);
            reveal_with_fuel(play, 2);
            assert(item_names(g).drop_last() =~= Seq::empty());
            assert(item_names(g).last() == g[0].0);
            assert(play(files, item_names(g)) =~= files[g[0].0]);
        } else {
            assert(passes.drop_last() =~= round_passes(level, cap, round, i));
            assert(passes.last() == batch_pass(g, round, i));
            assert(after == before.insert(fresh, play(before, item_names(g))));
            assert(next[i as int].0 == fresh);
        }
        assert forall|k: int| 0 <= k < level.len() implies after[(#[trigger] level[k]).0]
            == files[level[k].0] by {
            assert(level[k].0 != fresh);
        }
        // Earlier items of the next level are not touched by this pass.
        let earlier = item_names(next.take(i as int));
        assert forall|k: int| 0 <= k < earlier.len() implies after[#[trigger] earlier[k]]
            == before[earlier[k]] by {
            assert(earlier[k] == next[k].0);
            lemma_group_size(level, cap, k);
            let items = group(level, cap, k);
            if items.len() == 1 {
                assert(items[0] == level[batch_start(n, count, k)]);
                assert(level[batch_start(n, count, k)].0 != fresh);
            } else {
                if batch_name(round, k as nat) == fresh {
                    law_batch_names_are_distinct(round, k as nat, round, i);
                }
            }
        }
        lemma_play_frame(after, before, earlier);
        assert(item_names(next.take(upto as int)).drop_last() =~= earlier);
        assert(item_names(next.take(upto as int)).last() == next[i as int].0);
        assert(after[next[i as int].0] == play(files, item_names(g)));
        assert(play(after, item_names(next.take(upto as int))) =~= play(
            files,
            names.take(to),
        ));
    }
}

proof fn lemma_ladder_plays(
    files: Contents,
    level: Seq<Item>,
    transition: u64,
    output: Seq<char>,
    leaf_max: int,
    batch_max: int,
    round: nat,
)
    requires
        leaf_max >= 2,
        batch_max >= 2,
        unclaimed(level, round + 1),
    ensures
        run(files, ladder(level, transition, output, leaf_max, batch_max, round))[output] == play(
            files,
            item_names(level),
        ),
    decreases level.len(),
{
    let cap = if round == 0 {
        leaf_max
    } else {
        batch_max
    };
    let passes = ladder(level, transition, output, leaf_max, batch_max, round);
    if level.len() <= cap {
        assert(passes.drop_last() =~= Seq::empty());
        assert(passes.last() == final_pass(level, output));
        assert(run(files, passes.drop_last()) == files);
    } else {
        let n = level.len() as int;
        let count = batch_count(n, cap);
        let next = next_level(level, cap, transition, round + 1);
        lemma_batch_count(n, cap);
        law_batches_are_even_and_within_the_limit(n, cap, 0, 0);
        lemma_round_plays(files, level, cap, transition, round + 1, count as nat);
        assert(next.take(count) =~= next);
        assert(item_names(level).take(n) =~= item_names(level));
        let first = round_passes(level, cap, round + 1, count as nat);
        let rest = ladder(next, transition, output, leaf_max, batch_max, round + 1);
        lemma_run_concat(files, first, rest);
        lemma_next_level_is_unclaimed(level, cap, transition, round + 1);
        lemma_ladder_plays(
            run(files, first),
            next,
            transition,
            output,
            leaf_max,
            batch_max,
            round + 1,
        );
    }
}

proof fn lemma_clips_play_themselves(files: Contents, names: Seq<Seq<char>>)
    requires
        forall|i: int| 0 <= i < names.len() ==> files[#[trigger] names[i]] == seq![names[i]],
    ensures
        play(files, names) == names,
    decreases names.len(),
{
    if names.len() > 0 {
        assert forall|i: int| 0 <= i < names.drop_last().len() implies files[#[trigger] names.drop_last()[i]]
            == seq![names.drop_last()[i]] by {
            assert(names.drop_last()[i] == names[i]);
        }
        lemma_clips_play_themselves(files, names.drop_last());
        assert(names.last() == names[names.len() - 1]);
        assert(play(files, names) =~= names);
    } else {
        assert(play(files, names) =~= names);
    }
}

/// Running the passes of a plan in order leaves a video that plays every clip
/// exactly once and in the order given, however many levels the ladder has.
/// (No clip may have the file name of a batch.)
pub proof fn law_ladder_plays_every_clip_once_in_order(
    files: Contents,
    names: Seq<Seq<char>>,
    lengths: Seq<u64>,
    transition: u64,
    output: Seq<char>,
    leaf_max: int,
    batch_max: int,
)
    requires
        leaf_max >= 2,
        batch_max >= 2,
        names.len() == lengths.len(),
        forall|i: int| 0 <= i < names.len() ==> files[#[trigger] names[i]] == seq![names[i]],
        forall|k: int, r: nat, i: nat|
            0 <= k < names.len() ==> #[trigger] names[k] != #[trigger] batch_name(r, i),
    ensures
        run(
            files,
            ladder(
                first_level(names, lengths),
                transition,
                output,
                leaf_max,
                batch_max,
                0,
            ),
        )[output] == names,
{
    let level = first_level(names, lengths);
    assert(item_names(level) =~= names);
    assert forall|k: int, r: nat, i: nat| 0 <= k < level.len() && r >= 1 implies (#[trigger] level[k]).0
        != #[trigger] batch_name(r, i) by {
        assert(names[k] != batch_name(r, i));
    }
    lemma_ladder_plays(files, level, transition, output, leaf_max, batch_max, 0);
    lemma_clips_play_themselves(files, names);
}

/// Clips that fit in one pass are combined in one pass, all of them, in order.
pub proof fn law_few_clips_need_one_pass(
    names: Seq<Seq<char>>,
    lengths: Seq<u64>,
    transition: u64,
    output: Seq<char>,
    leaf_max: int,
    batch_max: int,
)
    requires
        names.len() == lengths.len(),
        names.len() <= leaf_max,
    ensures
        ({
            let plan = ladder(first_level(names, lengths), transition, output, leaf_max, batch_max, 0);
            &&& plan.len() == 1
            &&& plan[0].inputs == names
            &&& plan[0].durations == lengths
            &&& plan[0].output == output
            &&& plan[0].is_final
        }),
{
    let level = first_level(names, lengths);
    assert(item_names(level) =~= names);
    assert(item_lengths(level) =~= lengths);
}

} // verus!
