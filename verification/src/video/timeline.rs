//! The timeline of a combined video.
//!
//! Lengths and positions are whole microseconds: what ffprobe prints and what
//! the filtergraph is told has six decimals, so nothing is lost, and lengths
//! that are added up in a different grouping stay exactly equal.
use vstd::prelude::*;

verus! {

/// Transitions shorter than this (0.1 s) are treated as a hard cut.
pub const MIN_TRANSITION: u64 = 100_000;

/// What a transition leaves of the shortest clip, at least (0.2 s).
pub const CLIP_HEADROOM: u64 = 200_000;

/// The sum of the lengths.
pub open spec fn sum(lengths: Seq<u64>) -> nat
    decreases lengths.len(),
{
    if lengths.len() == 0 {
        0
    } else {
        sum(lengths.drop_last()) + lengths.last() as nat
    }
}

/// Whether every position on the timeline of these clips fits in a machine
/// integer: what the clips last, and what the transitions between them take.
pub open spec fn fits(lengths: Seq<u64>, transition: u64) -> bool {
    sum(lengths) + transition * lengths.len() <= i64::MAX
}

/// The sums of the parts make the sum of the whole.
pub proof fn lemma_sum_concat(a: Seq<u64>, b: Seq<u64>)
    ensures
        sum(a + b) == sum(a) + sum(b),
    decreases b.len(),
{
    if b.len() == 0 {
        assert(a + b =~= a);
    } else {
        assert((a + b).drop_last() =~= a + b.drop_last());
        lemma_sum_concat(a, b.drop_last());
    }
}

/// A part of the clips lasts no longer than all of them.
pub proof fn lemma_sum_part(lengths: Seq<u64>, from: int, to: int)
    requires
        0 <= from <= to <= lengths.len(),
    ensures
        sum(lengths.subrange(from, to)) <= sum(lengths),
        sum(lengths.take(to)) <= sum(lengths),
        sum(lengths.take(to)) == sum(lengths.take(from)) + sum(lengths.subrange(from, to)),
{
    lemma_sum_concat(lengths.take(to), lengths.skip(to));
    assert(lengths.take(to) + lengths.skip(to) =~= lengths);
    lemma_sum_concat(lengths.take(from), lengths.subrange(from, to));
    assert(lengths.take(from) + lengths.subrange(from, to) =~= lengths.take(to));
}

/// Tells whether the timeline fits in a machine integer.
pub fn timeline_fits(lengths: &[u64], transition: u64) -> (r: bool)
    ensures
        r == fits(lengths@, transition),
{
    let limit: u64 = i64::MAX as u64;
    let mut total: u64 = 0;
    assert(transition * 0 == 0) by (nonlinear_arith);
    for i in 0..lengths.len()
        invariant
            limit == i64::MAX,
            total <= limit,
            total == sum(lengths@.take(i as int)) + transition * i,
    {
        proof {
            assert(lengths@.take(i + 1).drop_last() =~= lengths@.take(i as int));
            lemma_sum_part(lengths@, 0, i + 1);
            assert(transition * (i + 1) == transition * i + transition) by (nonlinear_arith);
            assert(transition * (i + 1) <= transition * lengths@.len()) by (nonlinear_arith)
                requires
                    i + 1 <= lengths@.len(),
                    0 <= transition,
            ;
        }
        if lengths[i] > limit - total {
            return false;
        }
        total = total + lengths[i];
        if transition > limit - total {
            return false;
        }
        total = total + transition;
    }
    assert(lengths@.take(lengths@.len() as int) =~= lengths@);
    true
}

/// The least of the lengths (of a list that is not empty).
pub open spec fn shortest(lengths: Seq<u64>) -> u64
    recommends
        lengths.len() > 0,
    decreases lengths.len(),
{
    if lengths.len() <= 1 {
        lengths[0]
    } else {
        let rest = shortest(lengths.drop_last());
        if lengths.last() < rest {
            lengths.last()
        } else {
            rest
        }
    }
}

/// The transition that is used for a requested one: none (a hard cut) for a
/// request that is too short or for fewer than two clips; else the request, or
/// what the shortest clip allows where that is less; and none where that is too
/// short in turn.
pub open spec fn effective_transition(lengths: Seq<u64>, requested: u64) -> u64 {
    if requested < MIN_TRANSITION || lengths.len() < 2 {
        0
    } else {
        let room = if shortest(lengths) < CLIP_HEADROOM {
            0
        } else {
            shortest(lengths) - CLIP_HEADROOM
        };
        let capped = if requested < room {
            requested as int
        } else {
            room
        };
        if capped < MIN_TRANSITION {
            0
        } else {
            capped as u64
        }
    }
}

/// The transition to use, never longer than the shortest clip (the crossfade
/// offsets would be invalid).
pub fn safe_transition(durations: &[u64], requested: u64) -> (r: u64)
    ensures
        r == effective_transition(durations@, requested),
        is_best_transition(durations@, requested, r),
{
    proof {
        law_the_best_transition_is_used(durations@, requested);
    }
    if requested < MIN_TRANSITION || durations.len() < 2 {
        return 0;
    }
    let mut least: u64 = durations[0];
    assert(durations@.take(1)[0] == durations@[0]);
    for i in 1..durations.len()
        invariant
            durations@.len() >= 2,
            least == shortest(durations@.take(i as int)),
    {
        assert(durations@.take(i + 1).drop_last() =~= durations@.take(i as int));
        if durations[i] < least {
            least = durations[i];
        }
    }
    assert(durations@.take(durations@.len() as int) =~= durations@);
    let room: u64 = if least < CLIP_HEADROOM { 0 } else { least - CLIP_HEADROOM };
    let capped: u64 = if requested < room { requested } else { room };
    if capped < MIN_TRANSITION {
        0
    } else {
        capped
    }
}

proof fn lemma_shortest(lengths: Seq<u64>)
    requires
        lengths.len() > 0,
    ensures
        forall|i: int| 0 <= i < lengths.len() ==> shortest(lengths) <= #[trigger] lengths[i],
        lengths.contains(shortest(lengths)),
    decreases lengths.len(),
{
    if lengths.len() > 1 {
        lemma_shortest(lengths.drop_last());
        assert forall|i: int| 0 <= i < lengths.len() implies shortest(lengths) <= #[trigger] lengths[i] by {
            if i < lengths.len() - 1 {
                assert(lengths.drop_last()[i] == lengths[i]);
            }
        }
        let k = choose|k: int|
            0 <= k < lengths.len() - 1 && lengths.drop_last()[k] == shortest(lengths.drop_last());
        assert(lengths[k] == shortest(lengths.drop_last()));
        assert(lengths[lengths.len() - 1] == lengths.last());
    } else {
        assert(lengths[0] == shortest(lengths));
    }
}

/// A transition is a hard cut or lies between the minimum and the request, and
/// it leaves every clip its headroom, so a crossfade never outlasts a clip.
pub proof fn law_transition_is_shorter_than_every_clip(lengths: Seq<u64>, requested: u64)
    ensures
        ({
            let t = effective_transition(lengths, requested);
            t == 0 || {
                &&& MIN_TRANSITION <= t <= requested
                &&& lengths.len() >= 2
                &&& forall|i: int| 0 <= i < lengths.len() ==> t + CLIP_HEADROOM <= #[trigger] lengths[i]
            }
        }),
{
    if lengths.len() > 0 {
        lemma_shortest(lengths);
    }
}

/// Whether `t` is the transition to use for a requested one: a tenth of a second at
/// least, with a fifth of a second left of every clip; as much of the request as that
/// allows; and a hard cut (0) only where there is nothing to cross or no room.
pub open spec fn is_best_transition(lengths: Seq<u64>, requested: u64, t: u64) -> bool {
    // A request that every clip has room for is met.
    &&& requested >= 100_000 && lengths.len() >= 2 && (forall|i: int|
        0 <= i < lengths.len() ==> requested + 200_000 <= #[trigger] lengths[i]) ==> t == requested
    // One that goes too far is cut to what the shortest clip allows.
    &&& 0 < t < requested ==> exists|i: int|
        0 <= i < lengths.len() && #[trigger] lengths[i] == t + 200_000
    // No transition is left out that there is room for.
    &&& t == 0 && requested >= 100_000 && lengths.len() >= 2 ==> exists|i: int|
        0 <= i < lengths.len() && #[trigger] lengths[i] < 300_000
    // And none is made up.
    &&& requested < 100_000 || lengths.len() < 2 ==> t == 0
    &&& t > 0 ==> 100_000 <= t <= requested && forall|i: int|
        0 <= i < lengths.len() ==> t + 200_000 <= #[trigger] lengths[i]
}

/// The transition is the longest that the request and the clips allow.
pub proof fn law_the_best_transition_is_used(lengths: Seq<u64>, requested: u64)
    ensures
        is_best_transition(lengths, requested, effective_transition(lengths, requested)),
{
    if lengths.len() > 0 {
        lemma_shortest(lengths);
        let k = choose|k: int| 0 <= k < lengths.len() && lengths[k] == shortest(lengths);
        assert(lengths[k] == shortest(lengths));
    }
}

/// Where clip `i` starts: each transition before it moves it earlier.
pub open spec fn chapter_start(lengths: Seq<u64>, transition: u64, i: int) -> int {
    sum(lengths.take(i)) - i * transition
}

/// Start of each clip in the combined timeline. Overlapping transitions shift
/// every clip earlier.
pub fn chapter_starts(durations: &[u64], transition: u64) -> (r: Vec<i64>)
    requires
        fits(durations@, transition),
    ensures
        r@.len() == durations@.len(),
        forall|i: int|
            0 <= i < r@.len() ==> #[trigger] r@[i] == chapter_start(durations@, transition, i),
{
    let mut starts: Vec<i64> = Vec::new();
    let mut cum: i64 = 0;
    assert(0 * transition == 0) by (nonlinear_arith);
    for i in 0..durations.len()
        invariant
            fits(durations@, transition),
            starts@.len() == i,
            cum == chapter_start(durations@, transition, i as int),
            forall|j: int|
                0 <= j < i ==> #[trigger] starts@[j] == chapter_start(durations@, transition, j),
    {
        starts.push(cum);
        proof {
            assert(durations@.take(i + 1).drop_last() =~= durations@.take(i as int));
            lemma_sum_part(durations@, 0, i + 1);
            lemma_transition_part(transition, i + 1, durations@.len() as int);
            assert(transition * (i + 1) == transition * i + transition) by (nonlinear_arith);
            assert((i + 1) * transition == transition * (i + 1)) by (nonlinear_arith);
            assert(i * transition == transition * i) by (nonlinear_arith);
        }
        cum = cum + (durations[i] as i64 - transition as i64);
    }
    starts
}

/// Some of the transitions take no longer than all of them.
pub proof fn lemma_transition_part(transition: u64, some: int, all: int)
    requires
        0 <= some <= all,
    ensures
        0 <= transition * some <= transition * all,
        some > 0 ==> transition <= transition * some,
{
    assert(0 <= transition * some <= transition * all) by (nonlinear_arith)
        requires
            0 <= some <= all,
            0 <= transition,
    ;
    if some > 0 {
        assert(transition <= transition * some) by (nonlinear_arith)
            requires
                some > 0,
                0 <= transition,
        ;
    }
}

/// The length of the combined video: what the clips last together, less one
/// transition for each pair of neighbours, and never below zero.
pub open spec fn joined_length(lengths: Seq<u64>, transition: u64) -> int {
    if lengths.len() == 0 {
        0
    } else {
        let length = sum(lengths) - transition * (lengths.len() - 1);
        if length < 0 {
            0
        } else {
            length
        }
    }
}

/// Total length of the combined video.
pub fn total_duration(durations: &[u64], transition: u64) -> (r: u64)
    requires
        fits(durations@, transition),
    ensures
        r == joined_length(durations@, transition),
{
    if durations.len() == 0 {
        return 0;
    }
    let mut total: u64 = 0;
    let mut overlap: u64 = 0;
    for i in 0..durations.len()
        invariant
            durations@.len() > 0,
            fits(durations@, transition),
            total == sum(durations@.take(i as int)),
            overlap == transition * (if i == 0 {
                0
            } else {
                i - 1
            }),
    {
        proof {
            assert(durations@.take(i + 1).drop_last() =~= durations@.take(i as int));
            lemma_sum_part(durations@, 0, i + 1);
            lemma_transition_part(transition, i as int, durations@.len() as int);
            assert(i > 0 ==> transition * i == transition * (i - 1) + transition) by (nonlinear_arith);
        }
        total = total + durations[i];
        if i > 0 {
            overlap = overlap + transition;
        }
    }
    assert(durations@.take(durations@.len() as int) =~= durations@);
    if total < overlap {
        0
    } else {
        total - overlap
    }
}

/// The chapters run on without a gap: each clip is followed by the next one a
/// transition before its own end, and the last one ends where the video does.
pub proof fn law_chapters_tile_the_video(lengths: Seq<u64>, transition: u64, i: int)
    requires
        0 <= i < lengths.len(),
        forall|k: int| 0 <= k < lengths.len() ==> transition <= #[trigger] lengths[k],
    ensures
        chapter_start(lengths, transition, 0) == 0,
        i + 1 < lengths.len() ==> chapter_start(lengths, transition, i + 1) == chapter_start(
            lengths,
            transition,
            i,
        ) + lengths[i] - transition,
        chapter_start(lengths, transition, i) >= 0,
        i + 1 == lengths.len() ==> chapter_start(lengths, transition, i) + lengths[i]
            == joined_length(lengths, transition),
    decreases i,
{
    assert(lengths.take(0) =~= Seq::empty());
    assert(0 * transition == 0) by (nonlinear_arith);
    assert(lengths.take(i + 1).drop_last() =~= lengths.take(i));
    assert((i + 1) * transition == i * transition + transition) by (nonlinear_arith);
    if i > 0 {
        law_chapters_tile_the_video(lengths, transition, i - 1);
    }
    if i + 1 == lengths.len() {
        assert(lengths.take(i + 1) =~= lengths);
        assert(i * transition == transition * (lengths.len() - 1)) by (nonlinear_arith)
            requires
                i + 1 == lengths.len(),
        ;
    }
}

/// The first clip starts with the video, each later one a transition before its
/// neighbour's end, and the video ends with its last clip; one without clips has no
/// length.
pub proof fn law_the_timeline_is_the_clips_in_a_row(lengths: Seq<u64>, transition: u64, i: int)
    requires
        0 <= i < lengths.len(),
    ensures
        chapter_start(lengths, transition, 0) == 0,
        chapter_start(lengths, transition, i + 1) == chapter_start(lengths, transition, i)
            + lengths[i] - transition,
        joined_length(Seq::empty(), transition) == 0,
        joined_length(lengths, transition) == ({
            let end = chapter_start(lengths, transition, lengths.len() - 1) + lengths.last();
            if end < 0 {
                0
            } else {
                end
            }
        }),
{
    let n = lengths.len() as int;
    assert(lengths.take(0) =~= Seq::empty());
    assert(0 * transition == 0) by (nonlinear_arith);
    assert(lengths.take(i + 1).drop_last() =~= lengths.take(i));
    assert((i + 1) * transition == i * transition + transition) by (nonlinear_arith);
    assert(lengths.drop_last() =~= lengths.take(n - 1));
    assert(transition * (n - 1) == (n - 1) * transition) by (nonlinear_arith);
}

} // verus!
