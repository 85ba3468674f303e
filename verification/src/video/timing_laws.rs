//! What holds of the timing of every combine ladder: each clip starts where its
//! chapter does.
use vstd::prelude::*;

use crate::video::ladder::{
    batch_count, batch_name, batch_pass, batch_start, final_pass, first_level, group, item_lengths,
    item_names, ladder, law_batches_are_even_and_within_the_limit, lemma_batch_count, next_level,
    round_passes, Item, PassView,
};
use crate::video::ladder_laws::{
    law_batch_names_are_distinct, lemma_group_size, lemma_next_level,
    lemma_next_level_is_unclaimed, lemma_round_lengths, unclaimed,
};
use crate::video::timeline::{chapter_start, fits, lemma_sum_part};

verus! {

/// A clip in a video, and where it starts.
pub type Cue = (Seq<char>, int);

/// Which clips start where in each file.
pub type Cues = Map<Seq<char>, Seq<Cue>>;

/// The cues of a file that starts at `by` in another.
pub open spec fn shifted(cues: Seq<Cue>, by: int) -> Seq<Cue> {
    Seq::new(cues.len(), |i: int| (cues[i].0, cues[i].1 + by))
}

/// The cues of a video in which each of the named files starts at its place.
pub open spec fn laid(files: Cues, names: Seq<Seq<char>>, places: Seq<int>) -> Seq<Cue>
    decreases names.len(),
{
    if names.len() == 0 {
        Seq::empty()
    } else {
        laid(files, names.drop_last(), places.drop_last()) + shifted(
            files[names.last()],
            places.last(),
        )
    }
}

/// Where a pass lets each input start.
pub open spec fn places(lengths: Seq<u64>, transition: u64) -> Seq<int> {
    Seq::new(lengths.len(), |i: int| chapter_start(lengths, transition, i))
}

/// The files after the passes have run one after the other, each letting its
/// inputs start at their places.
pub open spec fn cued(files: Cues, passes: Seq<PassView>, transition: u64) -> Cues
    decreases passes.len(),
{
    if passes.len() == 0 {
        files
    } else {
        let before = cued(files, passes.drop_last(), transition);
        let pass = passes.last();
        before.insert(pass.output, laid(before, pass.inputs, places(pass.durations, transition)))
    }
}

proof fn lemma_laid_concat(
    files: Cues,
    a: Seq<Seq<char>>,
    p: Seq<int>,
    b: Seq<Seq<char>>,
    q: Seq<int>,
)
    requires
        a.len() == p.len(),
        b.len() == q.len(),
    ensures
        laid(files, a + b, p + q) == laid(files, a, p) + laid(files, b, q),
    decreases b.len(),
{
    if b.len() == 0 {
        assert(a + b =~= a);
        assert(p + q =~= p);
        assert(laid(files, a, p) + laid(files, b, q) =~= laid(files, a, p));
    } else {
        assert((a + b).drop_last() =~= a + b.drop_last());
        assert((p + q).drop_last() =~= p + q.drop_last());
        lemma_laid_concat(files, a, p, b.drop_last(), q.drop_last());
        assert(laid(files, a + b, p + q) =~= laid(files, a, p) + laid(files, b, q));
    }
}

proof fn lemma_laid_frame(one: Cues, two: Cues, names: Seq<Seq<char>>, at: Seq<int>)
    requires
        forall|i: int| 0 <= i < names.len() ==> one[#[trigger] names[i]] == two[names[i]],
    ensures
        laid(one, names, at) == laid(two, names, at),
    decreases names.len(),
{
    if names.len() > 0 {
        let front = names.drop_last();
        assert(names.last() == names[names.len() - 1]);
        assert forall|i: int| 0 <= i < front.len() implies one[#[trigger] front[i]]
            == two[front[i]] by {
            assert(front[i] == names[i]);
        }
        lemma_laid_frame(one, two, front, at.drop_last());
    }
}

/// Moving a video moves the files in it.
proof fn lemma_laid_shifted(files: Cues, names: Seq<Seq<char>>, at: Seq<int>, by: int, to: Seq<int>)
    requires
        at.len() == names.len(),
        to.len() == names.len(),
        forall|i: int| 0 <= i < names.len() ==> #[trigger] to[i] == at[i] + by,
    ensures
        shifted(laid(files, names, at), by) == laid(files, names, to),
    decreases names.len(),
{
    if names.len() == 0 {
        assert(shifted(laid(files, names, at), by) =~= laid(files, names, to));
    } else {
        let front = names.drop_last();
        assert forall|i: int| 0 <= i < front.len() implies #[trigger] to.drop_last()[i]
            == at.drop_last()[i] + by by {
            assert(to[i] == at[i] + by);
        }
        lemma_laid_shifted(files, front, at.drop_last(), by, to.drop_last());
        assert(to.last() == to[names.len() - 1]);
        assert(shifted(laid(files, names, at), by) =~= shifted(
            laid(files, front, at.drop_last()),
            by,
        ) + shifted(files[names.last()], to.last()));
    }
}

proof fn lemma_cued_concat(files: Cues, p: Seq<PassView>, q: Seq<PassView>, transition: u64)
    ensures
        cued(files, p + q, transition) == cued(cued(files, p, transition), q, transition),
    decreases q.len(),
{
    if q.len() == 0 {
        assert(p + q =~= p);
    } else {
        assert((p + q).drop_last() =~= p + q.drop_last());
        lemma_cued_concat(files, p, q.drop_last(), transition);
    }
}

/// A clip of a batch starts as far into the batch as it starts after the batch in
/// the whole.
proof fn lemma_places_compose(lengths: Seq<u64>, transition: u64, from: int, to: int, j: int)
    requires
        0 <= from <= to <= lengths.len(),
        0 <= j < to - from,
    ensures
        places(lengths.subrange(from, to), transition)[j] + chapter_start(lengths, transition, from)
            == places(lengths, transition)[from + j],
{
    let part = lengths.subrange(from, to);
    assert(part.take(j) =~= lengths.subrange(from, from + j));
    lemma_sum_part(lengths, from, from + j);
    assert((from + j) * transition == from * transition + j * transition) by (nonlinear_arith);
}

/// A batch starts where its first item does.
proof fn lemma_batch_place(level: Seq<Item>, cap: int, transition: u64, round: nat, i: int)
    requires
        cap >= 2,
        level.len() > cap,
        fits(item_lengths(level), transition),
        forall|k: int| 0 <= k < level.len() ==> transition <= (#[trigger] level[k]).1,
        0 <= i < batch_count(level.len() as int, cap),
    ensures
        chapter_start(
            item_lengths(next_level(level, cap, transition, round)),
            transition,
            i,
        ) == chapter_start(
            item_lengths(level),
            transition,
            batch_start(level.len() as int, batch_count(level.len() as int, cap), i),
        ),
{
    let n = level.len() as int;
    let next = next_level(level, cap, transition, round);
    let at = batch_start(n, batch_count(n, cap), i);
    lemma_batch_count(n, cap);
    lemma_round_lengths(level, cap, transition, round, i);
    assert(item_lengths(next).take(i) =~= item_lengths(next.take(i)));
    assert(transition * (at - i) == at * transition - i * transition) by (nonlinear_arith);
}

/// After the passes for the first `upto` batches of a round, the clips start in
/// what these batches left where they started before, and no file but the batches
/// of the round has changed.
proof fn lemma_round_keeps_places(
    files: Cues,
    level: Seq<Item>,
    cap: int,
    transition: u64,
    round: nat,
    upto: nat,
)
    requires
        cap >= 2,
        level.len() > cap,
        unclaimed(level, round),
        fits(item_lengths(level), transition),
        forall|k: int| 0 <= k < level.len() ==> transition <= (#[trigger] level[k]).1,
        upto <= batch_count(level.len() as int, cap),
    ensures
        ({
            let n = level.len() as int;
            let after = cued(files, round_passes(level, cap, round, upto), transition);
            let next = next_level(level, cap, transition, round);
            let at = batch_start(n, batch_count(n, cap), upto as int);
            &&& laid(
                after,
                item_names(next).take(upto as int),
                places(item_lengths(next), transition).take(upto as int),
            ) == laid(
                files,
                item_names(level).take(at),
                places(item_lengths(level), transition).take(at),
            )
            &&& forall|k: int|
                0 <= k < level.len() ==> after[(#[trigger] level[k]).0] == files[level[k].0]
        }),
    decreases upto,
{
    let n = level.len() as int;
    let count = batch_count(n, cap);
    let next = next_level(level, cap, transition, round);
    let names = item_names(level);
    let lengths = item_lengths(level);
    let marks = places(lengths, transition);
    let next_marks = places(item_lengths(next), transition);
    lemma_batch_count(n, cap);
    if upto == 0 {
        assert(0 * (n / count) == 0) by (nonlinear_arith);
        assert(names.take(0) =~= Seq::empty());
        assert(item_names(next).take(0) =~= Seq::empty());
    } else {
        let i = (upto - 1) as nat;
        lemma_round_keeps_places(files, level, cap, transition, round, i);
        lemma_group_size(level, cap, i as int);
        let g = group(level, cap, i as int);
        let from = batch_start(n, count, i as int);
        let to = batch_start(n, count, upto as int);
        let passes = round_passes(level, cap, round, upto);
        let before = cued(files, round_passes(level, cap, round, i), transition);
        let after = cued(files, passes, transition);
        let start = chapter_start(item_lengths(next), transition, i as int);
        lemma_batch_place(level, cap, transition, round, i as int);
        // The batch has its clips where its items had them at the start of the round.
        let own = item_names(g);
        let inner = places(item_lengths(g), transition);
        let outer = marks.subrange(from, to);
        assert(own =~= names.subrange(from, to));
        assert(item_lengths(g) =~= lengths.subrange(from, to));
        assert forall|k: int| 0 <= k < own.len() implies before[#[trigger] own[k]]
            == files[own[k]] by {
            assert(own[k] == level[from + k].0);
        }
        lemma_laid_frame(before, files, own, inner);
        assert forall|j: int| 0 <= j < own.len() implies #[trigger] outer[j] == inner[j] + start by {
            lemma_places_compose(lengths, transition, from, to, j);
        }
        lemma_laid_shifted(files, own, inner, start, outer);
        assert(names.take(from) + own =~= names.take(to));
        assert(marks.take(from) + outer =~= marks.take(to));
        lemma_laid_concat(files, names.take(from), marks.take(from), own, outer);
        let fresh = batch_name(round, i);
        if g.len() == 1 {
            assert(passes =~= round_passes(level, cap, round, i));
            assert(next[i as int] == g[0]);
            assert(g[0] == level[from]);
            reveal_with_fuel(laid, 2);
            assert(own.drop_last() =~= Seq::empty());
            assert(own.last() == g[0].0);
            assert(outer.last() == start) by {
                assert(outer[0] == marks[from]);
            }
            assert(laid(files, own, outer) =~= shifted(files[g[0].0], start));
        } else {
            assert(passes.drop_last() =~= round_passes(level, cap, round, i));
            assert(passes.last() == batch_pass(g, round, i));
            assert(after == before.insert(fresh, laid(before, own, inner)));
            assert(next[i as int].0 == fresh);
        }
        assert forall|k: int| 0 <= k < level.len() implies after[(#[trigger] level[k]).0]
            == files[level[k].0] by {
            assert(level[k].0 != fresh);
        }
        // Earlier items of the next level are not touched by this pass.
        let earlier = item_names(next).take(i as int);
        assert forall|k: int| 0 <= k < earlier.len() implies after[#[trigger] earlier[k]]
            == before[earlier[k]] by {
            assert(earlier[k] == next[k].0);
            lemma_group_size(level, cap, k);
            let items = group(level, cap, k);
            if items.len() == 1 {
                assert(items[0] == level[batch_start(n, count, k)]);
                assert(level[batch_start(n, count, k)].0 != fresh);
            } else {
                if batch_name(round, k as nat) == fresh {
                    law_batch_names_are_distinct(round, k as nat, round, i);
                }
            }
        }
        lemma_laid_frame(after, before, earlier, next_marks.take(i as int));
        let reached = item_names(next).take(upto as int);
        assert(reached.drop_last() =~= earlier);
        assert(reached.last() == next[i as int].0);
        assert(next_marks.take(upto as int).drop_last() =~= next_marks.take(i as int));
        assert(next_marks.take(upto as int).last() == start);
        assert(shifted(after[next[i as int].0], start) == laid(files, own, outer));
        assert(laid(after, reached, next_marks.take(upto as int)) =~= laid(
            files,
            names.take(to),
            marks.take(to),
        ));
    }
}

proof fn lemma_ladder_keeps_places(
    files: Cues,
    level: Seq<Item>,
    transition: u64,
    output: Seq<char>,
    leaf_max: int,
    batch_max: int,
    round: nat,
)
    requires
        leaf_max >= 2,
        batch_max >= 2,
        unclaimed(level, round + 1),
        fits(item_lengths(level), transition),
        forall|k: int| 0 <= k < level.len() ==> transition <= (#[trigger] level[k]).1,
    ensures
        cued(
            files,
            ladder(level, transition, output, leaf_max, batch_max, round),
            transition,
        )[output] == laid(files, item_names(level), places(item_lengths(level), transition)),
    decreases level.len(),
{
    let cap = if round == 0 {
        leaf_max
    } else {
        batch_max
    };
    let passes = ladder(level, transition, output, leaf_max, batch_max, round);
    if level.len() <= cap {
        assert(passes.drop_last() =~= Seq::empty());
        assert(passes.last() == final_pass(level, output));
        assert(cued(files, passes.drop_last(), transition) == files);
    } else {
        let n = level.len() as int;
        let count = batch_count(n, cap);
        let next = next_level(level, cap, transition, round + 1);
        lemma_batch_count(n, cap);
        law_batches_are_even_and_within_the_limit(n, cap, 0, 0);
        lemma_round_keeps_places(files, level, cap, transition, round + 1, count as nat);
        lemma_next_level(level, cap, transition, round + 1);
        lemma_next_level_is_unclaimed(level, cap, transition, round + 1);
        let next_places = places(item_lengths(next), transition);
        assert(item_names(next).take(count) =~= item_names(next));
        assert(next_places.take(count) =~= next_places);
        assert(item_names(level).take(n) =~= item_names(level));
        assert(places(item_lengths(level), transition).take(n) =~= places(
            item_lengths(level),
            transition,
        ));
        let first = round_passes(level, cap, round + 1, count as nat);
        let rest = ladder(next, transition, output, leaf_max, batch_max, round + 1);
        lemma_cued_concat(files, first, rest, transition);
        lemma_ladder_keeps_places(
            cued(files, first, transition),
            next,
            transition,
            output,
            leaf_max,
            batch_max,
            round + 1,
        );
    }
}

proof fn lemma_clips_start_at_their_places(files: Cues, names: Seq<Seq<char>>, at: Seq<int>)
    requires
        at.len() == names.len(),
        forall|i: int| 0 <= i < names.len() ==> files[#[trigger] names[i]] == seq![(names[i], 0int)],
    ensures
        laid(files, names, at).len() == names.len(),
        forall|i: int| 0 <= i < names.len() ==> #[trigger] laid(files, names, at)[i] == (names[i], at[i]),
    decreases names.len(),
{
    if names.len() > 0 {
        let front = names.drop_last();
        assert forall|i: int| 0 <= i < front.len() implies files[#[trigger] front[i]] == seq![
            (front[i], 0int),
        ] by {
            assert(front[i] == names[i]);
        }
        lemma_clips_start_at_their_places(files, front, at.drop_last());
        assert(files[names[names.len() - 1]] == seq![(names.last(), 0int)]);
    }
}

/// However many levels the ladder has, each clip starts in the finished video
/// exactly where its chapter mark is, which depends on the clips and the transition
/// alone: batching moves nothing. (Every clip has to outlast the transition, as
/// with a transition that is safe for the clips, and none may have the file name of
/// a batch.)
pub proof fn law_every_clip_starts_where_its_chapter_does(
    files: Cues,
    names: Seq<Seq<char>>,
    lengths: Seq<u64>,
    transition: u64,
    output: Seq<char>,
    leaf_max: int,
    batch_max: int,
)
    requires
        leaf_max >= 2,
        batch_max >= 2,
        names.len() == lengths.len(),
        fits(lengths, transition),
        forall|i: int| 0 <= i < lengths.len() ==> transition <= #[trigger] lengths[i],
        forall|i: int| 0 <= i < names.len() ==> files[#[trigger] names[i]] == seq![(names[i], 0int)],
        forall|k: int, r: nat, i: nat|
            0 <= k < names.len() ==> #[trigger] names[k] != #[trigger] batch_name(r, i),
    ensures
        ({
            let video = cued(
                files,
                ladder(
                    first_level(names, lengths),
                    transition,
                    output,
                    leaf_max,
                    batch_max,
                    0,
                ),
                transition,
            )[output];
            &&& video.len() == names.len()
            &&& forall|i: int|
                0 <= i < names.len() ==> #[trigger] video[i] == (
                    names[i],
                    chapter_start(lengths, transition, i),
                )
        }),
{
    let level = first_level(names, lengths);
    assert(item_names(level) =~= names);
    assert(item_lengths(level) =~= lengths);
    assert forall|k: int, r: nat, i: nat| 0 <= k < level.len() && r >= 1 implies (#[trigger] level[k]).0
        != #[trigger] batch_name(r, i) by {
        assert(names[k] != batch_name(r, i));
    }
    assert forall|k: int| 0 <= k < level.len() implies transition <= (#[trigger] level[k]).1 by {
        assert(level[k].1 == lengths[k]);
    }
    lemma_ladder_keeps_places(files, level, transition, output, leaf_max, batch_max, 0);
    lemma_clips_start_at_their_places(files, names, places(lengths, transition));
}

} // verus!
