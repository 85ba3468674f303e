//! The rows of the track list by the state of their metadata: how many there are
//! of each, which of them a retry takes, and how a retry that was cut short puts
//! them back.
use vstd::prelude::*;
use vstd::string::*;

use crate::downloader::failure::FailureKind;
use crate::downloader::ytdlp::FlatEntry;
use crate::models::track::{MetaFailure, MetaState, Track};

verus! {

/// The state of a row's metadata, failures told apart by what may still help.
#[derive(Debug, Clone, Copy, PartialEq, Eq, Structural)]
pub enum RowState {
    Loading,
    Loaded,
    /// A plain repeat may help.
    Retryable,
    /// Refused to an anonymous client.
    Restricted,
    /// Gone for good.
    Permanent,
}

/// The state of a row's metadata.
pub open spec fn row_state(t: Track) -> RowState {
    match t.meta {
        MetaState::Loading => RowState::Loading,
        MetaState::Loaded => RowState::Loaded,
        MetaState::Failed(f) => match f.kind {
            FailureKind::Retryable => RowState::Retryable,
            FailureKind::Restricted => RowState::Restricted,
            FailureKind::Permanent => RowState::Permanent,
        },
    }
}

/// Tells the state of a row's metadata.
pub fn state_of(t: &Track) -> (r: RowState)
    ensures
        r == row_state(*t),
{
    match &t.meta {
        MetaState::Loading => RowState::Loading,
        MetaState::Loaded => RowState::Loaded,
        MetaState::Failed(f) => match f.kind {
            FailureKind::Retryable => RowState::Retryable,
            FailureKind::Restricted => RowState::Restricted,
            FailureKind::Permanent => RowState::Permanent,
        },
    }
}

/// How many rows are in a state.
pub open spec fn count_in(tracks: Seq<Track>, state: RowState) -> nat
    decreases tracks.len(),
{
    if tracks.len() == 0 {
        0
    } else {
        count_in(tracks.drop_last(), state) + (if row_state(tracks.last()) == state {
            1nat
        } else {
            0
        })
    }
}

/// Counts the rows that are in a state.
pub fn count_rows(tracks: &[Track], state: RowState) -> (r: usize)
    ensures
        r == count_in(tracks@, state),
        r <= tracks@.len(),
{
    let mut n: usize = 0;
    for i in 0..tracks.len()
        invariant
            n == count_in(tracks@.take(i as int), state),
            n <= i,
    {
        assert(tracks@.take(i + 1).drop_last() =~= tracks@.take(i as int));
        if state_of(&tracks[i]) == state {
            n = n + 1;
        }
    }
    assert(tracks@.take(tracks@.len() as int) =~= tracks@);
    n
}

/// How many rows are selected.
pub open spec fn selected_in(tracks: Seq<Track>) -> nat
    decreases tracks.len(),
{
    if tracks.len() == 0 {
        0
    } else {
        selected_in(tracks.drop_last()) + (if tracks.last().selected {
            1nat
        } else {
            0
        })
    }
}

/// Counts the selected rows.
pub fn count_selected(tracks: &[Track]) -> (r: usize)
    ensures
        r == selected_in(tracks@),
        r <= tracks@.len(),
{
    let mut n: usize = 0;
    for i in 0..tracks.len()
        invariant
            n == selected_in(tracks@.take(i as int)),
            n <= i,
    {
        assert(tracks@.take(i + 1).drop_last() =~= tracks@.take(i as int));
        if tracks[i].selected {
            n = n + 1;
        }
    }
    assert(tracks@.take(tracks@.len() as int) =~= tracks@);
    n
}

// ---------------------------------------------------------------------------
// Retry
// ---------------------------------------------------------------------------

/// Whether a retry takes a row. The pass that starts by itself takes only what a
/// plain repeat may mend; the button takes refused rows too, for pressing it
/// usually follows signing in. No retry takes a row that is gone for good.
pub open spec fn is_target(t: Track, auto: bool) -> bool {
    row_state(t) is Retryable || (!auto && row_state(t) is Restricted)
}

/// The rows that a retry takes, in order.
pub open spec fn targets_of(tracks: Seq<Track>, auto: bool) -> Seq<usize>
    decreases tracks.len(),
{
    if tracks.len() == 0 {
        Seq::empty()
    } else {
        let rest = targets_of(tracks.drop_last(), auto);
        if is_target(tracks.last(), auto) {
            rest.push((tracks.len() - 1) as usize)
        } else {
            rest
        }
    }
}

/// One row of a retry pass.
pub struct RetryTarget {
    pub index: usize,
    pub entry: FlatEntry,
}

/// A row as it was before a retry.
pub struct RowBefore {
    pub index: usize,
    pub failure: MetaFailure,
}

/// Whether these are the entries to fetch for the rows at the given places.
pub open spec fn fetches(targets: Seq<RetryTarget>, tracks: Seq<Track>, at: Seq<usize>) -> bool {
    &&& targets.len() == at.len()
    &&& forall|k: int|
        0 <= k < at.len() ==> {
            let t = #[trigger] targets[k];
            &&& t.index == at[k]
            &&& t.index < tracks.len()
            &&& t.entry.id@ == tracks[t.index as int].id@
            &&& t.entry.url@ == tracks[t.index as int].url@
            &&& t.entry.title is None
        }
}

/// Whether these are the failures of the rows at the given places.
pub open spec fn remembers(before: Seq<RowBefore>, tracks: Seq<Track>, at: Seq<usize>) -> bool {
    &&& before.len() == at.len()
    &&& forall|k: int|
        0 <= k < at.len() ==> {
            let b = #[trigger] before[k];
            &&& b.index == at[k]
            &&& b.index < tracks.len()
            &&& tracks[b.index as int].meta == MetaState::Failed(b.failure)
        }
}

/// Picks the rows that a retry takes.
pub fn pick_targets(tracks: &[Track], auto: bool) -> (r: (Vec<RetryTarget>, Vec<RowBefore>))
    ensures
        fetches(r.0@, tracks@, targets_of(tracks@, auto)),
        remembers(r.1@, tracks@, targets_of(tracks@, auto)),
{
    let mut targets: Vec<RetryTarget> = Vec::new();
    let mut before: Vec<RowBefore> = Vec::new();
    for i in 0..tracks.len()
        invariant
            fetches(targets@, tracks@, targets_of(tracks@.take(i as int), auto)),
            remembers(before@, tracks@, targets_of(tracks@.take(i as int), auto)),
    {
        assert(tracks@.take(i + 1).drop_last() =~= tracks@.take(i as int));
        if let MetaState::Failed(failure) = &tracks[i].meta {
            if !(failure.is_permanent() || (auto && !failure.is_auto_retryable())) {
                before.push(RowBefore { index: i, failure: failure.clone() });
                targets.push(
                    RetryTarget {
                        index: i,
                        entry: FlatEntry {
                            id: tracks[i].id.clone(),
                            url: tracks[i].url.clone(),
                            title: None,
                        },
                    },
                );
            }
        }
    }
    assert(tracks@.take(tracks@.len() as int) =~= tracks@);
    (targets, before)
}

/// A row, put back if its metadata is still being fetched.
pub open spec fn put_back(t: Track, failure: MetaFailure) -> Track {
    if t.meta is Loading {
        Track { meta: MetaState::Failed(failure), ..t }
    } else {
        t
    }
}

/// The rows after a retry, those that it never finished put back.
pub open spec fn restored(tracks: Seq<Track>, before: Seq<RowBefore>) -> Seq<Track>
    decreases before.len(),
{
    if before.len() == 0 {
        tracks
    } else {
        let rest = restored(tracks, before.drop_last());
        let b = before.last();
        if b.index < rest.len() {
            rest.update(b.index as int, put_back(rest[b.index as int], b.failure))
        } else {
            rest
        }
    }
}

/// Puts the rows that a retry never finished back to their failures.
pub fn put_rows_back(tracks: &mut Vec<Track>, before: &[RowBefore])
    ensures
        final(tracks)@ == restored(old(tracks)@, before@),
{
    let ghost first = tracks@;
    for i in 0..before.len()
        invariant
            tracks@ == restored(first, before@.take(i as int)),
    {
        assert(before@.take(i + 1).drop_last() =~= before@.take(i as int));
        let b = &before[i];
        if b.index < tracks.len() {
            let mut t = tracks[b.index].clone();
            if let MetaState::Loading = t.meta {
                t.meta = MetaState::Failed(b.failure.clone());
            }
            tracks.set(b.index, t);
        }
    }
    assert(before@.take(before@.len() as int) =~= before@);
}

// ---------------------------------------------------------------------------
// Laws
// ---------------------------------------------------------------------------

/// Every row is in exactly one state, so the counts add up to all rows.
pub proof fn law_every_row_is_counted_once(tracks: Seq<Track>)
    ensures
        count_in(tracks, RowState::Loading) + count_in(tracks, RowState::Loaded) + count_in(
            tracks,
            RowState::Retryable,
        ) + count_in(tracks, RowState::Restricted) + count_in(tracks, RowState::Permanent)
            == tracks.len(),
    decreases tracks.len(),
{
    if tracks.len() > 0 {
        law_every_row_is_counted_once(tracks.drop_last());
    }
}

/// A retry takes exactly the rows that may still be mended, each once and in
/// order: never one that loaded, never one that is gone for good, and by itself
/// never one that was refused. There are as many as the counts say.
pub proof fn law_a_retry_takes_exactly_what_may_be_mended(tracks: Seq<Track>, auto: bool)
    requires
        tracks.len() <= usize::MAX,
    ensures
        forall|k: int|
            #![trigger targets_of(tracks, auto)[k]]
            0 <= k < targets_of(tracks, auto).len() ==> targets_of(tracks, auto)[k] < tracks.len()
                && is_target(tracks[targets_of(tracks, auto)[k] as int], auto),
        forall|i: int|
            0 <= i < tracks.len() && is_target(#[trigger] tracks[i], auto) ==> targets_of(
                tracks,
                auto,
            ).contains(i as usize),
        forall|j: int, k: int|
            0 <= j < k < targets_of(tracks, auto).len() ==> targets_of(tracks, auto)[j]
                < targets_of(tracks, auto)[k],
        targets_of(tracks, auto).len() == count_in(tracks, RowState::Retryable) + (if auto {
            0
        } else {
            count_in(tracks, RowState::Restricted)
        }),
    decreases tracks.len(),
{
    if tracks.len() > 0 {
        let front = tracks.drop_last();
        law_a_retry_takes_exactly_what_may_be_mended(front, auto);
        let rest = targets_of(front, auto);
        let all = targets_of(tracks, auto);
        assert forall|i: int|
            0 <= i < tracks.len() && is_target(#[trigger] tracks[i], auto) implies all.contains(
            i as usize,
        ) by {
            if i < tracks.len() - 1 {
                assert(front[i] == tracks[i]);
                let k = choose|k: int| 0 <= k < rest.len() && rest[k] == i as usize;
                assert(all[k] == i as usize);
            } else {
                assert(all[all.len() - 1] == i as usize);
            }
        }
        assert forall|k: int| 0 <= k < all.len() implies #[trigger] all[k] < tracks.len()
            && is_target(tracks[all[k] as int], auto) by {
            if k < rest.len() {
                assert(all[k] == rest[k]);
                assert(front[rest[k] as int] == tracks[rest[k] as int]);
            }
        }
    }
}

/// What the pass that starts by itself takes, the button takes too.
pub proof fn law_the_button_takes_what_the_automatic_pass_takes(t: Track)
    ensures
        is_target(t, true) ==> is_target(t, false),
{
}

/// Putting rows back leaves every row alone whose metadata is not being fetched,
/// and of the remembered rows leaves none that is: each has the failure that it
/// had before the retry.
pub proof fn law_no_retried_row_is_left_loading(tracks: Seq<Track>, before: Seq<RowBefore>)
    requires
        forall|j: int, k: int|
            0 <= j < k < before.len() ==> (#[trigger] before[j]).index != (
            #[trigger] before[k]).index,
    ensures
        restored(tracks, before).len() == tracks.len(),
        forall|i: int|
            0 <= i < tracks.len() && !(tracks[i].meta is Loading) ==> #[trigger] restored(
                tracks,
                before,
            )[i] == tracks[i],
        forall|k: int|
            0 <= k < before.len() && (#[trigger] before[k]).index < tracks.len() ==> restored(
                tracks,
                before,
            )[before[k].index as int] == put_back(
                tracks[before[k].index as int],
                before[k].failure,
            ),
        forall|i: int|
            0 <= i < tracks.len() && (forall|k: int|
                0 <= k < before.len() ==> (#[trigger] before[k]).index != i)
                ==> #[trigger] restored(tracks, before)[i] == tracks[i],
    decreases before.len(),
{
    if before.len() > 0 {
        let front = before.drop_last();
        assert forall|j: int, k: int| 0 <= j < k < front.len() implies (
        #[trigger] front[j]).index != (#[trigger] front[k]).index by {
            assert(before[j].index != before[k].index);
        }
        law_no_retried_row_is_left_loading(tracks, front);
        let rest = restored(tracks, front);
        let all = restored(tracks, before);
        let b = before.last();
        assert forall|k: int| 0 <= k < front.len() implies (#[trigger] front[k]).index
            != b.index by {
            assert(before[k].index != before[before.len() - 1].index);
        }
        assert forall|i: int|
            0 <= i < tracks.len() && (forall|k: int|
                0 <= k < before.len() ==> (#[trigger] before[k]).index != i) implies
            #[trigger] all[i] == tracks[i] by {
            assert forall|k: int| 0 <= k < front.len() implies (#[trigger] front[k]).index
                != i by {
                assert(before[k].index != i);
            }
            assert(before[before.len() - 1].index != i);
            assert(rest[i] == tracks[i]);
        }
        if b.index < tracks.len() {
            assert(rest[b.index as int] == tracks[b.index as int]);
        }
        assert forall|k: int|
            0 <= k < before.len() && (#[trigger] before[k]).index < tracks.len() implies all[
        before[k].index as int] == put_back(
            tracks[before[k].index as int],
            before[k].failure,
        ) by {
            if k < front.len() {
                assert(front[k] == before[k]);
                assert(front[k].index != b.index);
            }
        }
        assert forall|i: int| 0 <= i < tracks.len() && !(tracks[i].meta is Loading) implies
            #[trigger] all[i] == tracks[i] by {
            assert(rest[i] == tracks[i]);
        }
    }
}

} // verus!
