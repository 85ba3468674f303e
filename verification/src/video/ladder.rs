//! The ladder of ffmpeg passes that combines any number of clips.
//!
//! One pass per playlist does not scale: every clip costs an input on the
//! command line. So the clips are split into first-level batches of at most
//! `leaf_max`, and the batch files are combined in turn, at most `batch_max` at
//! a time (a batch is a full video, far heavier to decode than a clip), until
//! one pass can finish.
use std::ops::Range;
use vstd::prelude::*;
use vstd::string::*;

use crate::text;
use crate::text::{decimal, views, zero_padded};
use crate::video::timeline::{
    fits, joined_length, lemma_sum_part, lemma_transition_part, sum, total_duration,
};

verus! {

// ---------------------------------------------------------------------------
// Batches
// ---------------------------------------------------------------------------

/// How many batches of at most `max` items `n` items are split into.
pub open spec fn batch_count(n: int, max: int) -> int {
    if n <= max {
        1
    } else {
        (n + max - 1) / max
    }
}

/// Where batch `i` of `count` starts when `n` items are split evenly, the first
/// ones taking the items that are left over, one each.
pub open spec fn batch_start(n: int, count: int, i: int) -> int {
    i * (n / count) + if i < n % count {
        i
    } else {
        n % count
    }
}

/// The number of items in batch `i`.
pub open spec fn batch_size(n: int, count: int, i: int) -> int {
    n / count + if i < n % count {
        1int
    } else {
        0
    }
}

/// Splits `n` items into consecutive batches of at most `max`, as evenly as
/// possible.
pub fn plan_batches(n: usize, max: usize) -> (r: Vec<Range<usize>>)
    requires
        max >= 2,
    ensures
        r@.len() == batch_count(n as int, max as int),
        forall|i: int|
            0 <= i < r@.len() ==> (#[trigger] r@[i]).start == batch_start(
                n as int,
                r@.len() as int,
                i,
            ) && r@[i].end == batch_start(n as int, r@.len() as int, i + 1),
{
    let mut out: Vec<Range<usize>> = Vec::new();
    if n <= max {
        out.push(0..n);
        assert(batch_start(n as int, 1, 0) == 0 && batch_start(n as int, 1, 1) == n) by {
            assert(0 * (n as int / 1) == 0) by (nonlinear_arith);
        }
        return out;
    }
    let batches: usize = (n - 1) / max + 1;
    proof {
        lemma_batch_count(n as int, max as int);
        assert((n as int - 1) / (max as int) + 1 == (n as int + max as int - 1) / (max as int))
            by (nonlinear_arith)
            requires
                max >= 2,
        ;
    }
    let base: usize = n / batches;
    // The first `extra` batches take one more item than the rest.
    let extra: usize = n % batches;
    let mut start: usize = 0;
    assert(0 * (n as int / batches as int) == 0) by (nonlinear_arith);
    for i in 0..batches
        invariant
            batches == batch_count(n as int, max as int),
            0 < batches,
            base == n as int / batches as int,
            extra == n as int % batches as int,
            start == batch_start(n as int, batches as int, i as int),
            out@.len() == i,
            forall|j: int|
                0 <= j < i ==> (#[trigger] out@[j]).start == batch_start(
                    n as int,
                    batches as int,
                    j,
                ) && out@[j].end == batch_start(n as int, batches as int, j + 1),
    {
        proof {
            lemma_batch_step(n as int, batches as int, i as int);
            lemma_batch_start_bound(n as int, batches as int, i + 1);
        }
        let len: usize = if i < extra { base + 1 } else { base };
        out.push(start..start + len);
        start = start + len;
    }
    out
}

/// With more items than fit in one batch there are at least two batches, fewer
/// than items, and enough of them.
pub proof fn lemma_batch_count(n: int, max: int)
    requires
        max >= 2,
        n > max,
    ensures
        2 <= batch_count(n, max) < n,
        batch_count(n, max) * max >= n,
{
    let c = (n + max - 1) / max;
    assert(c * max >= n && c >= 2 && c < n) by (nonlinear_arith)
        requires
            c == (n + max - 1) / max,
            max >= 2,
            n > max,
    ;
}

/// The next batch starts where this one ends.
pub proof fn lemma_batch_step(n: int, count: int, i: int)
    requires
        0 <= i,
        0 < count,
    ensures
        batch_start(n, count, i + 1) == batch_start(n, count, i) + batch_size(n, count, i),
{
    assert((i + 1) * (n / count) == i * (n / count) + n / count) by (nonlinear_arith);
}

proof fn lemma_batch_start_end(n: int, count: int)
    requires
        0 <= n,
        0 < count,
    ensures
        batch_start(n, count, 0) == 0,
        batch_start(n, count, count) == n,
{
    assert(0 * (n / count) == 0) by (nonlinear_arith);
    vstd::arithmetic::div_mod::lemma_fundamental_div_mod(n, count);
    assert(0 <= n % count < count);
}

pub proof fn lemma_batch_start_bound(n: int, count: int, i: int)
    requires
        0 <= n,
        0 < count,
        0 <= i <= count,
    ensures
        0 <= batch_start(n, count, i) <= n,
    decreases count - i,
{
    assert(0 <= n / count) by (nonlinear_arith)
        requires
            0 <= n,
            0 < count,
    ;
    assert(0 <= i * (n / count)) by (nonlinear_arith)
        requires
            0 <= i,
            0 <= n / count,
    ;
    assert(0 <= n % count);
    if i == count {
        lemma_batch_start_end(n, count);
    } else {
        lemma_batch_start_bound(n, count, i + 1);
        lemma_batch_step(n, count, i);
    }
}

/// The batches tile the items: the first starts at the first item, each starts
/// where the one before it ends, and the last ends at the last item. Each holds
/// at most `max` items, none is empty unless there are no items, and no batch is
/// more than one item larger than another.
pub proof fn law_batches_are_even_and_within_the_limit(n: int, max: int, i: int, j: int)
    requires
        max >= 2,
        0 <= n,
        0 <= i < batch_count(n, max),
        0 <= j < batch_count(n, max),
    ensures
        batch_start(n, batch_count(n, max), 0) == 0,
        batch_start(n, batch_count(n, max), batch_count(n, max)) == n,
        batch_start(n, batch_count(n, max), i + 1) == batch_start(n, batch_count(n, max), i)
            + batch_size(n, batch_count(n, max), i),
        batch_size(n, batch_count(n, max), i) <= max,
        n > 0 ==> batch_size(n, batch_count(n, max), i) >= 1,
        batch_size(n, batch_count(n, max), i) <= batch_size(n, batch_count(n, max), j) + 1,
{
    let c = batch_count(n, max);
    if n > max {
        lemma_batch_count(n, max);
    }
    lemma_batch_start_end(n, c);
    lemma_batch_step(n, c, i);
    vstd::arithmetic::div_mod::lemma_fundamental_div_mod(n, c);
    if n > max {
        let q = n / c;
        let r = n % c;
        assert(q >= 1) by (nonlinear_arith)
            requires
                n == c * q + r,
                r < c,
                0 < c < n,
        ;
        assert(q <= max && (q == max ==> r == 0)) by (nonlinear_arith)
            requires
                n == c * q + r,
                0 <= r < c,
                c * max >= n,
                c > 0,
        ;
    } else {
        assert(n / 1 == n && n % 1 == 0);
    }
}

/// There are no more batches than the limit asks for, and the earlier batches are the
/// larger ones.
pub proof fn law_no_more_batches_than_needed(n: int, max: int, i: int, j: int)
    requires
        max >= 2,
        0 <= n,
        0 <= i <= j < batch_count(n, max),
    ensures
        n <= max ==> batch_count(n, max) == 1,
        n > max ==> (batch_count(n, max) - 1) * max < n <= batch_count(n, max) * max,
        batch_size(n, batch_count(n, max), j) <= batch_size(n, batch_count(n, max), i),
{
    if n > max {
        let c = batch_count(n, max);
        lemma_batch_count(n, max);
        assert((c - 1) * max < n) by (nonlinear_arith)
            requires
                c == (n + max - 1) / max,
                max >= 2,
        ;
    }
}

// ---------------------------------------------------------------------------
// Passes
// ---------------------------------------------------------------------------

/// What one pass of the ladder is, as values.
#[verifier::ext_equal]
pub struct PassView {
    pub inputs: Seq<Seq<char>>,
    pub durations: Seq<u64>,
    pub output: Seq<char>,
    pub filter_script: Seq<char>,
    pub is_final: bool,
}

/// One ffmpeg invocation in the combine ladder.
#[derive(Debug, Clone, PartialEq)]
pub struct PlannedPass {
    /// Input paths exactly as they appear on the command line.
    pub inputs: Vec<String>,
    /// Length of each input, in the same order, in microseconds.
    pub durations: Vec<u64>,
    /// Where this pass writes.
    pub output: String,
    /// File that the filtergraph is written to (`-filter_complex_script`).
    pub filter_script: String,
    /// The last pass: the one that produces the kept video and carries the
    /// playlist metadata and chapters. Every other pass is a throwaway batch.
    pub is_final: bool,
}

impl View for PlannedPass {
    type V = PassView;

    open spec fn view(&self) -> PassView {
        PassView {
            inputs: views(self.inputs@),
            durations: self.durations@,
            output: self.output@,
            filter_script: self.filter_script@,
            is_final: self.is_final,
        }
    }
}

/// The passes of a list, as values.
pub open spec fn pass_views(passes: Seq<PlannedPass>) -> Seq<PassView> {
    Seq::new(passes.len(), |i: int| passes[i]@)
}

impl PlannedPass {
    /// Length of the video that this pass produces.
    pub fn output_duration(&self, transition: u64) -> (r: u64)
        requires
            fits(self@.durations, transition),
        ensures
            r == joined_length(self@.durations, transition),
    {
        total_duration(self.durations.as_slice(), transition)
    }
}

/// A file that a level of the ladder consumes: its name and its length.
pub type Item = (Seq<char>, u64);

pub open spec fn item_names(level: Seq<Item>) -> Seq<Seq<char>> {
    Seq::new(level.len(), |i: int| level[i].0)
}

pub open spec fn item_lengths(level: Seq<Item>) -> Seq<u64> {
    Seq::new(level.len(), |i: int| level[i].1)
}

/// The clips as the first level of the ladder.
pub open spec fn first_level(names: Seq<Seq<char>>, lengths: Seq<u64>) -> Seq<Item> {
    Seq::new(names.len(), |i: int| (names[i], lengths[i]))
}

/// The items of batch `i` of a level whose batches hold at most `cap` items.
pub open spec fn group(level: Seq<Item>, cap: int, i: int) -> Seq<Item> {
    let count = batch_count(level.len() as int, cap);
    level.subrange(
        batch_start(level.len() as int, count, i),
        batch_start(level.len() as int, count, i + 1),
    )
}

pub open spec fn batch_name(round: nat, i: nat) -> Seq<char> {
    "batch_r"@ + decimal(round) + "_"@ + zero_padded(decimal(i), 4) + ".mkv"@
}

pub open spec fn script_name(round: nat, i: nat) -> Seq<char> {
    "fc_r"@ + decimal(round) + "_"@ + zero_padded(decimal(i), 4) + ".txt"@
}

/// The pass that combines batch `i` of a round.
pub open spec fn batch_pass(items: Seq<Item>, round: nat, i: nat) -> PassView {
    PassView {
        inputs: item_names(items),
        durations: item_lengths(items),
        output: batch_name(round, i),
        filter_script: script_name(round, i),
        is_final: false,
    }
}

/// The passes for the first `upto` batches of a round: one for each batch of
/// more than one item.
pub open spec fn round_passes(level: Seq<Item>, cap: int, round: nat, upto: nat) -> Seq<PassView>
    decreases upto,
{
    if upto == 0 {
        Seq::empty()
    } else {
        let i = (upto - 1) as nat;
        let items = group(level, cap, i as int);
        if items.len() == 1 {
            round_passes(level, cap, round, i)
        } else {
            round_passes(level, cap, round, i).push(batch_pass(items, round, i))
        }
    }
}

/// The item that batch `i` of a round leaves for the next level: a lone item is
/// carried over as it is, a batch becomes its output file.
pub open spec fn combined_item(
    level: Seq<Item>,
    cap: int,
    transition: u64,
    round: nat,
    i: int,
) -> Item {
    let items = group(level, cap, i);
    if items.len() == 1 {
        items[0]
    } else {
        (batch_name(round, i as nat), joined_length(item_lengths(items), transition) as u64)
    }
}

pub open spec fn next_level(level: Seq<Item>, cap: int, transition: u64, round: nat) -> Seq<Item> {
    Seq::new(
        batch_count(level.len() as int, cap) as nat,
        |i: int| combined_item(level, cap, transition, round, i),
    )
}

/// The pass that finishes the video.
pub open spec fn final_pass(level: Seq<Item>, output: Seq<char>) -> PassView {
    PassView {
        inputs: item_names(level),
        durations: item_lengths(level),
        output,
        filter_script: "fc_final.txt"@,
        is_final: true,
    }
}

/// The passes from a level on. A level that fits in one pass is finished by the
/// final pass; any other is combined in batches, of at most `leaf_max` items on
/// the level of the clips (`round` zero) and of at most `batch_max` above it,
/// and the ladder goes on from the combined items.
pub open spec fn ladder(
    level: Seq<Item>,
    transition: u64,
    output: Seq<char>,
    leaf_max: int,
    batch_max: int,
    round: nat,
) -> Seq<PassView>
    decreases level.len(),
{
    let cap = if round == 0 {
        leaf_max
    } else {
        batch_max
    };
    if level.len() <= cap || cap < 2 {
        seq![final_pass(level, output)]
    } else {
        proof {
            lemma_batch_count(level.len() as int, cap);
        }
        round_passes(
            level,
            cap,
            round + 1,
            batch_count(level.len() as int, cap) as nat,
        ) + ladder(
            next_level(level, cap, transition, round + 1),
            transition,
            output,
            leaf_max,
            batch_max,
            round + 1,
        )
    }
}

spec fn items(level: Seq<(String, u64)>) -> Seq<Item> {
    Seq::new(level.len(), |i: int| (level[i].0@, level[i].1))
}

fn batch_file(round: u64, i: u64) -> (r: String)
    ensures
        r@ == batch_name(round as nat, i as nat),
{
    let mut s = "batch_r".to_owned();
    s.append(text::dec(round).as_str());
    s.append("_");
    s.append(text::dec_padded(i, 4).as_str());
    s.append(".mkv");
    s
}

fn script_file(round: u64, i: u64) -> (r: String)
    ensures
        r@ == script_name(round as nat, i as nat),
{
    let mut s = "fc_r".to_owned();
    s.append(text::dec(round).as_str());
    s.append("_");
    s.append(text::dec_padded(i, 4).as_str());
    s.append(".txt");
    s
}

fn split_items(level: &Vec<(String, u64)>, from: usize, to: usize) -> (r: (Vec<String>, Vec<u64>))
    requires
        from <= to <= level@.len(),
    ensures
        views(r.0@) == item_names(items(level@).subrange(from as int, to as int)),
        r.1@ == item_lengths(items(level@).subrange(from as int, to as int)),
{
    let mut names: Vec<String> = Vec::new();
    let mut lengths: Vec<u64> = Vec::new();
    for i in from..to
        invariant
            from <= to <= level@.len(),
            names@.len() == i - from,
            lengths@.len() == i - from,
            forall|j: int| 0 <= j < i - from ==> (#[trigger] names@[j])@ == level@[from + j].0@,
            forall|j: int| 0 <= j < i - from ==> #[trigger] lengths@[j] == level@[from + j].1,
    {
        names.push(level[i].0.clone());
        lengths.push(level[i].1);
    }
    assert(views(names@) =~= item_names(items(level@).subrange(from as int, to as int)));
    assert(lengths@ =~= item_lengths(items(level@).subrange(from as int, to as int)));
    (names, lengths)
}

/// Combining a group takes no longer than its items last, and a group of a level
/// that fits fits too.
proof fn lemma_group(level: Seq<Item>, cap: int, transition: u64, i: int)
    requires
        cap >= 2,
        level.len() > cap,
        0 <= i < batch_count(level.len() as int, cap),
    ensures
        0 <= batch_start(level.len() as int, batch_count(level.len() as int, cap), i),
        batch_start(level.len() as int, batch_count(level.len() as int, cap), i) < batch_start(
            level.len() as int,
            batch_count(level.len() as int, cap),
            i + 1,
        ) <= level.len(),
        1 <= group(level, cap, i).len() <= cap,
        fits(item_lengths(level), transition) ==> fits(
            item_lengths(group(level, cap, i)),
            transition,
        ),
        0 <= joined_length(item_lengths(group(level, cap, i)), transition) <= sum(
            item_lengths(group(level, cap, i)),
        ),
{
    let n = level.len() as int;
    let count = batch_count(n, cap);
    lemma_batch_count(n, cap);
    law_batches_are_even_and_within_the_limit(n, cap, i, i);
    lemma_batch_start_bound(n, count, i);
    lemma_batch_start_bound(n, count, i + 1);
    let from = batch_start(n, count, i);
    let to = batch_start(n, count, i + 1);
    let g = group(level, cap, i);
    assert(item_lengths(g) =~= item_lengths(level).subrange(from, to));
    lemma_sum_part(item_lengths(level), from, to);
    lemma_transition_part(transition, g.len() as int, n);
    lemma_transition_part(transition, g.len() - 1, g.len() as int);
}

/// Expands a clip list into the full two-tier ladder of ffmpeg passes.
///
/// The first round batches the clips into groups of at most `leaf_max`; every
/// later round batches the resulting files into groups of at most `batch_max`,
/// until one pass can finish. Batches within a level are sized evenly, and a
/// lone item needs no re-encode: it is carried over.
pub fn plan_passes(
    inputs: &[String],
    durations: &[u64],
    transition: u64,
    final_output: &str,
    leaf_max: usize,
    batch_max: usize,
) -> (r: Vec<PlannedPass>)
    requires
        inputs@.len() == durations@.len(),
        leaf_max >= 2,
        batch_max >= 2,
        fits(durations@, transition),
    ensures
        pass_views(r@) == ladder(
            first_level(views(inputs@), durations@),
            transition,
            final_output@,
            leaf_max as int,
            batch_max as int,
            0,
        ),
{
    let ghost start = first_level(views(inputs@), durations@);
    let ghost plan = ladder(
        start,
        transition,
        final_output@,
        leaf_max as int,
        batch_max as int,
        0,
    );
    let mut passes: Vec<PlannedPass> = Vec::new();
    let mut level: Vec<(String, u64)> = Vec::new();
    for i in 0..inputs.len()
        invariant
            inputs@.len() == durations@.len(),
            level@.len() == i,
            forall|j: int|
                0 <= j < i ==> (#[trigger] level@[j]).0@ == inputs@[j]@ && level@[j].1
                    == durations@[j],
    {
        level.push((inputs[i].clone(), durations[i]));
    }
    assert(items(level@) =~= start);
    assert(item_lengths(start) =~= durations@);
    assert(pass_views(passes@) =~= Seq::empty());
    let mut round: u64 = 0;
    let ghost most = level@.len();
    assert(plan =~= pass_views(passes@) + plan);
    loop
        invariant_except_break
            leaf_max >= 2,
            batch_max >= 2,
            fits(item_lengths(items(level@)), transition),
            round + level@.len() <= most,
            most <= usize::MAX,
            plan == pass_views(passes@) + ladder(
                items(level@),
                transition,
                final_output@,
                leaf_max as int,
                batch_max as int,
                round as nat,
            ),
        ensures
            plan == pass_views(passes@) + seq![final_pass(items(level@), final_output@)],
        decreases level@.len(),
    {
        let cap: usize = if round == 0 { leaf_max } else { batch_max };
        if level.len() <= cap {
            break;
        }
        let ghost now = items(level@);
        let ghost n = now.len() as int;
        let ghost count = batch_count(n, cap as int);
        let ghost done = pass_views(passes@);
        proof {
            lemma_batch_count(n, cap as int);
            lemma_batch_start_end(n, count);
        }
        round = round + 1;
        let ghost after = next_level(now, cap as int, transition, round as nat);
        let ranges = plan_batches(level.len(), cap);
        let mut next: Vec<(String, u64)> = Vec::new();
        assert(items(next@) =~= after.take(0));
        assert(item_lengths(items(next@)) =~= Seq::empty());
        assert(item_lengths(now).take(0) =~= Seq::empty());
        assert(pass_views(passes@) =~= done + round_passes(now, cap as int, round as nat, 0));
        for i in 0..ranges.len()
            invariant
                cap >= 2,
                now == items(level@),
                n == now.len(),
                n == level@.len(),
                n > cap,
                count == batch_count(n, cap as int),
                ranges@.len() == count,
                after == next_level(now, cap as int, transition, round as nat),
                fits(item_lengths(now), transition),
                forall|j: int|
                    0 <= j < ranges@.len() ==> (#[trigger] ranges@[j]).start == batch_start(
                        n,
                        count,
                        j,
                    ) && ranges@[j].end == batch_start(n, count, j + 1),
                items(next@) == after.take(i as int),
                sum(item_lengths(items(next@))) <= sum(
                    item_lengths(now).take(batch_start(n, count, i as int)),
                ),
                pass_views(passes@) == done + round_passes(
                    now,
                    cap as int,
                    round as nat,
                    i as nat,
                ),
        {
            let from: usize = ranges[i].start;
            let to: usize = ranges[i].end;
            let ghost g = group(now, cap as int, i as int);
            proof {
                lemma_group(now, cap as int, transition, i as int);
                lemma_sum_part(item_lengths(now), from as int, to as int);
                assert(item_lengths(g) =~= item_lengths(now).subrange(from as int, to as int));
            }
            let ghost before = next@;
            let ghost earlier = pass_views(passes@);
            let entry: (String, u64) = if to - from == 1 {
                proof {
                    assert(g[0] == (level@[from as int].0@, level@[from as int].1));
                    reveal_with_fuel(sum, 2);
                    assert(item_lengths(g).len() == 1 && item_lengths(g)[0] == g[0].1);
                    assert(sum(item_lengths(g)) == g[0].1);
                }
                (level[from].0.clone(), level[from].1)
            } else {
                let (names, lengths) = split_items(&level, from, to);
                let pass = PlannedPass {
                    inputs: names,
                    durations: lengths,
                    output: batch_file(round, i as u64),
                    filter_script: script_file(round, i as u64),
                    is_final: false,
                };
                let length = pass.output_duration(transition);
                let output = pass.output.clone();
                assert(pass@ =~= batch_pass(g, round as nat, i as nat));
                passes.push(pass);
                assert(pass_views(passes@) =~= earlier.push(
                    batch_pass(g, round as nat, i as nat),
                ));
                (output, length)
            };
            assert((entry.0@, entry.1) == combined_item(
                now,
                cap as int,
                transition,
                round as nat,
                i as int,
            ));
            assert(pass_views(passes@) =~= done + round_passes(
                now,
                cap as int,
                round as nat,
                (i + 1) as nat,
            ));
            next.push(entry);
            proof {
                assert(items(next@) =~= after.take(i + 1));
                assert(item_lengths(items(next@)).drop_last() =~= item_lengths(items(before)));
            }
        }
        proof {
            assert(after.take(count) =~= after);
            assert(item_lengths(now).take(n) =~= item_lengths(now));
            lemma_transition_part(transition, count, n);
            assert(plan =~= pass_views(passes@) + ladder(
                after,
                transition,
                final_output@,
                leaf_max as int,
                batch_max as int,
                round as nat,
            ));
        }
        level = next;
    }
    let ghost earlier = pass_views(passes@);
    let (names, lengths) = split_items(&level, 0, level.len());
    assert(items(level@).subrange(0, level@.len() as int) =~= items(level@));
    let last = PlannedPass {
        inputs: names,
        durations: lengths,
        output: final_output.to_owned(),
        filter_script: "fc_final.txt".to_owned(),
        is_final: true,
    };
    assert(last@ =~= final_pass(items(level@), final_output@));
    passes.push(last);
    assert(pass_views(passes@) =~= earlier.push(final_pass(items(level@), final_output@)));
    assert(pass_views(passes@) =~= plan);
    passes
}

} // verus!
