//! What the steps of a combined export come to.
use vstd::prelude::*;

use crate::config::setting_laws::is_held;
use crate::text::{contains, decimal, ends, lowered, occurs_at, starts, views};
use crate::video::chapter_laws::{law_every_clip_has_its_chapter, marks_every_clip};
use crate::video::checkpoint::{law_recording_lists_an_entry_once, Checkpoint};
use crate::video::combine::{
    after_reuse, after_success, both_failures, clamped_chunk, freed, input_lengths, is_reusable,
    law_only_consumed_intermediates_are_freed, length_lines, opening_lines, pass_metadata,
    stage_text, start_lines, CombineError, CombineRun, CombineStart, FailureStep, PassDone, PassStart, PlaylistRenderer, Reuse, RunView,
};
use crate::video::concat::cmdline_length;
use crate::video::encoder::ResolvedEncoder;
use crate::video::graph_laws::{law_crossfaded_inputs_play_in_order, plays_in_order};
use crate::video::ladder::{first_level, PassView};
use crate::video::ladder_laws::law_exactly_one_final_pass_and_it_is_last;
use crate::video::pass_laws::{
    law_a_pass_does_what_is_planned, law_hardware_decode_failures_are_told_by_their_words, runs,
};
use crate::video::timeline::{
    fits, is_best_transition, joined_length, law_the_best_transition_is_used,
};

verus! {

/// An export starts unless it has no clips or its timeline cannot be counted. It has the
/// longest transition that its clips allow, a chapter for every clip where these are
/// wanted, and a plan whose last pass, and no other, writes the output.
pub proof fn law_an_export_starts_as_it_is_set_up(
    renderer: PlaylistRenderer,
    inputs: Seq<Seq<char>>,
    durations: Seq<u64>,
    checkpoint: Checkpoint,
    r: Result<CombineStart, CombineError>,
)
    requires
        inputs.len() == renderer.clips@.len(),
        durations.len() == renderer.clips@.len(),
        renderer.is_start(inputs, durations, checkpoint, r),
    ensures
        r matches Err(CombineError::NoClips) <==> renderer.clips@.len() == 0,
        r matches Ok(start) ==> {
            &&& is_best_transition(durations, renderer.transition, start.run.transition)
            &&& marks_every_clip(
                start.metadata@,
                renderer.playlist_title@,
                renderer.clips@,
                durations,
                start.run.transition,
                renderer.chapters,
            )
            &&& start.run.plan().len() >= 1
            &&& start.run.plan().last().is_final
            &&& start.run.plan().last().output == renderer.output@
            &&& forall|i: int|
                0 <= i < start.run.plan().len() - 1 ==> !(#[trigger] start.run.plan()[i]).is_final
            &&& start.run.audio_bitrate_k == renderer.audio_bitrate_k
            &&& start.run.encoder == renderer.encoder
            &&& start.run@.next == 0
        },
{
    law_the_best_transition_is_used(durations, renderer.transition);
    if let Ok(start) = r {
        law_every_clip_has_its_chapter(
            renderer.playlist_title@,
            renderer.clips@,
            durations,
            start.run.transition,
            renderer.chapters,
        );
        law_exactly_one_final_pass_and_it_is_last(
            first_level(inputs, durations),
            start.run.transition,
            renderer.output@,
            clamped_chunk(renderer.chunk_size) as int,
            clamped_chunk(renderer.batch_chunk_size) as int,
            0,
        );
    }
}

/// The batch sizes of an export are those that are set, within what a pass can take.
pub proof fn law_batch_sizes_are_held_to_their_limits(n: usize)
    ensures
        is_held(n as int, 2, 64, clamped_chunk(n) as int),
{
}

/// A pass works with what was measured of its inputs, and only where nothing was
/// measured with what the plan says.
pub proof fn law_measured_lengths_come_first(
    pass: PassView,
    lengths: Map<Seq<char>, u64>,
    i: int,
)
    requires
        0 <= i < pass.durations.len(),
    ensures
        input_lengths(pass, lengths).len() == pass.durations.len(),
        lengths.contains_key(pass.inputs[i]) ==> input_lengths(pass, lengths)[i]
            == lengths[pass.inputs[i]],
        !lengths.contains_key(pass.inputs[i]) ==> input_lengths(pass, lengths)[i]
            == pass.durations[i],
{
}

/// A batch file that is already there is taken exactly when it can be read and is
/// within two seconds of the length that the plan predicts.
pub proof fn law_only_a_matching_batch_is_taken(run: CombineRun, probe: Result<u64, String>)
    requires
        fits(run.current_lengths(), run.transition),
    ensures
        ({
            let predicted = joined_length(run.current_lengths(), run.transition);
            &&& probe is Err ==> !run.takes(probe)
            &&& probe matches Ok(actual) ==> (run.takes(probe) <==> actual <= predicted + 2_000_000
                && predicted <= actual + 2_000_000)
        }),
{
}

/// A batch that is taken or made counts, from then on, with its measured length, is
/// recorded as finished and is there for the next level; nothing that was known before
/// changes.
pub proof fn law_a_finished_batch_counts_from_then_on(
    state: RunView,
    pass: PassView,
    probe: Result<u64, String>,
    predicted: int,
    actual: u64,
    other: Seq<char>,
)
    requires
        !pass.is_final,
        state.recorded.no_duplicates(),
        other != pass.output,
        0 <= predicted <= u64::MAX,
    ensures
        ({
            let now = after_reuse(state, pass.output, actual);
            &&& now.next == state.next + 1 && now.reused_any
            &&& now.lengths[pass.output] == actual
            &&& now.intermediates.contains(pass.output)
            &&& now.recorded.contains(pass.output)
            &&& now.lengths.contains_key(other) == state.lengths.contains_key(other)
            &&& now.lengths.contains_key(other) ==> now.lengths[other] == state.lengths[other]
            &&& now.intermediates.contains(other) == state.intermediates.contains(other)
            &&& now.recorded.contains(other) == state.recorded.contains(other)
        }),
        ({
            let now = after_success(state, pass, probe, predicted);
            &&& now.next == state.next + 1 && now.reused_any == state.reused_any
            &&& probe matches Ok(us) ==> now.lengths[pass.output] == us
            &&& probe is Err ==> now.lengths[pass.output] == predicted
            &&& now.intermediates.contains(pass.output)
            &&& now.recorded.contains(pass.output)
            &&& now.lengths.contains_key(other) == state.lengths.contains_key(other)
            &&& now.lengths.contains_key(other) ==> now.lengths[other] == state.lengths[other]
            &&& now.intermediates.contains(other) <==> state.intermediates.contains(other)
                && !pass.inputs.contains(other)
            &&& now.recorded.contains(other) == state.recorded.contains(other)
        }),
{
    law_recording_lists_an_entry_once(state.recorded, pass.output);
    assert(pass.inputs.to_set().contains(other) == pass.inputs.contains(other));
}

/// The final pass consumes its inputs and leaves no batch behind.
pub proof fn law_the_final_pass_leaves_no_batch(
    state: RunView,
    pass: PassView,
    probe: Result<u64, String>,
    predicted: int,
    name: Seq<char>,
)
    requires
        pass.is_final,
    ensures
        ({
            let now = after_success(state, pass, probe, predicted);
            &&& now.next == state.next + 1
            &&& now.lengths == state.lengths && now.recorded == state.recorded
            &&& now.intermediates.contains(name) <==> state.intermediates.contains(name)
                && !pass.inputs.contains(name)
        }),
{
    assert(pass.inputs.to_set().contains(name) == pass.inputs.contains(name));
}

/// The length of a batch is reported exactly where it is more than a twentieth of a
/// second off, and a batch that cannot be measured is warned of.
pub proof fn law_only_wrong_lengths_are_reported(
    output: Seq<char>,
    probe: Result<u64, String>,
    predicted: int,
)
    requires
        0 <= predicted <= u64::MAX,
    ensures
        probe matches Ok(actual) ==> (length_lines(output, probe, predicted).len() == 0 <==> actual
            <= predicted + 50_000 && predicted <= actual + 50_000),
        probe matches Ok(actual) ==> length_lines(output, probe, predicted).len() <= 1,
        probe is Err ==> length_lines(output, probe, predicted).len() == 1,
{
}

/// What a pass that starts is given: the arguments that do what is planned, with the
/// metadata in the final pass and in no other, on a command line below the limit; and,
/// for several inputs, a filtergraph that plays them in order.
pub proof fn law_a_pass_starts_with_what_it_needs(
    run: CombineRun,
    ffmpeg: Seq<char>,
    start: PassStart,
)
    requires
        run.well_formed(),
        run.unfinished(),
        run.is_pass_start(ffmpeg, start),
    ensures
        start.args matches Ok(args) ==> {
            &&& cmdline_length(ffmpeg, views(args@)) < 32_767
            &&& run.current().is_final ==> runs(
                views(args@),
                run.current(),
                Some("playlist_meta.txt"@),
                run.audio_bitrate_k,
                run.encoder,
            )
            &&& !run.current().is_final ==> runs(
                views(args@),
                run.current(),
                None,
                run.audio_bitrate_k,
                run.encoder,
            )
        },
        start.filter is Some <==> run.current().inputs.len() > 1,
        start.filter is Some && run.transition > 0 ==> plays_in_order(
            start.filter->0@,
            run.current().inputs.len(),
        ),
{
    let pass = run.current();
    law_a_pass_does_what_is_planned(
        pass,
        pass_metadata(pass),
        run.audio_bitrate_k,
        run.encoder,
    );
    assert(run.plan()[run@.next as int].inputs.len() == run.plan()[run@.next as int].durations.len());
    if start.filter is Some && run.transition > 0 {
        law_crossfaded_inputs_play_in_order(run.current_lengths(), run.transition);
    }
}

/// A failed pass is tried once more exactly when it decoded several inputs in hardware,
/// nobody cancelled, and the error says that decoding failed. The retry is the same pass
/// with the same encoder, decoded in software. Any other failure ends the export, with
/// the error as it is.
pub proof fn law_only_decoding_is_tried_again(
    run: CombineRun,
    error: Seq<char>,
    cancelled: bool,
    r: FailureStep,
)
    requires
        run.is_failure_step(error, cancelled, r),
    ensures
        r is RetrySoftware <==> {
            &&& run.encoder.hardware_decode
            &&& run.current().inputs.len() > 1
            &&& !cancelled
            &&& {
                ||| contains(lowered(error), "enomem"@)
                ||| contains(lowered(error), "cannot allocate memory"@)
                ||| contains(lowered(error), "failed to transfer data to output frame"@)
                ||| contains(lowered(error), "hwaccel"@)
                ||| contains(lowered(error), "dxva"@)
                ||| contains(lowered(error), "d3d11"@)
            }
        },
        r matches FailureStep::RetrySoftware(line, args) ==> runs(
            views(args@),
            run.current(),
            pass_metadata(run.current()),
            run.audio_bitrate_k,
            ResolvedEncoder { kind: run.encoder.kind, hardware_decode: false },
        ),
        r matches FailureStep::Fail(e) ==> ends(e@, ": "@ + error),
{
    law_hardware_decode_failures_are_told_by_their_words(lowered(error));
    law_a_pass_does_what_is_planned(
        run.current(),
        pass_metadata(run.current()),
        run.audio_bitrate_k,
        ResolvedEncoder { kind: run.encoder.kind, hardware_decode: false },
    );
    if let FailureStep::Fail(e) = r {
        let tail = ": "@ + error;
        let n = e@.len() - tail.len();
        assert(e@.subrange(n, e@.len() as int) =~= tail);
    }
}

/// When both tries fail, neither error is lost.
pub proof fn law_both_errors_are_kept(
    stage: Seq<char>,
    hardware: Seq<char>,
    software: Seq<char>,
)
    ensures
        starts(both_failures(stage, hardware, software), stage),
        contains(both_failures(stage, hardware, software), "(hardware decode) ──\n"@ + hardware),
        ends(both_failures(stage, hardware, software), "(software decode) also failed ──\n"@
            + software),
{
    let e = both_failures(stage, hardware, software);
    let a =
        ": failed with hardware decode, and the automatic software-decode fallback also failed.\n\n── Original failure (hardware decode) ──\n"@;
    let a0 =
        ": failed with hardware decode, and the automatic software-decode fallback also failed.\n\n── Original failure "@;
    let b = "\n\n── Fallback attempt (software decode) also failed ──\n"@;
    let b0 = "\n\n── Fallback attempt "@;
    assert(a =~= a0 + "(hardware decode) ──\n"@) by {
        reveal_strlit(
            ": failed with hardware decode, and the automatic software-decode fallback also failed.\n\n── Original failure (hardware decode) ──\n",
        );
        reveal_strlit(
            ": failed with hardware decode, and the automatic software-decode fallback also failed.\n\n── Original failure ",
        );
        reveal_strlit("(hardware decode) ──\n");
    }
    assert(b =~= b0 + "(software decode) also failed ──\n"@) by {
        reveal_strlit("\n\n── Fallback attempt (software decode) also failed ──\n");
        reveal_strlit("\n\n── Fallback attempt ");
        reveal_strlit("(software decode) also failed ──\n");
    }
    assert(e.subrange(0, stage.len() as int) =~= stage);
    let key = "(hardware decode) ──\n"@ + hardware;
    let at = (stage.len() + a0.len()) as int;
    assert(e =~= stage + a0 + key + b + software);
    assert(e.subrange(at, at + key.len()) =~= key);
    assert(occurs_at(e, key, at));
    let last = "(software decode) also failed ──\n"@ + software;
    assert(e =~= (stage + a + hardware + b0) + last);
    assert(e.subrange(e.len() - last.len(), e.len() as int) =~= last);
}

/// A batch file is taken, or deleted and made again; nothing changes for one that is made
/// again, and one that is taken counts as done.
pub proof fn law_a_batch_is_taken_or_made_again(
    run: CombineRun,
    probe: Result<u64, String>,
    after: CombineRun,
    r: Reuse,
)
    requires
        run.reuse_considered(probe, after, r),
        fits(run.current_lengths(), run.transition),
    ensures
        r is Reused <==> probe is Ok && is_reusable(
            probe->Ok_0,
            joined_length(run.current_lengths(), run.transition),
        ),
        r is Rebuild <==> !(r is Reused),
        r is Rebuild ==> after@ == run@,
        r is Reused ==> {
            &&& after@.next == run@.next + 1
            &&& after@.lengths[run.current().output] == probe->Ok_0
            &&& after@.intermediates.contains(run.current().output)
        },
        after.passes == run.passes && after.transition == run.transition,
{
}

/// A pass that succeeded frees the intermediates that it consumed and its filter script,
/// and nothing else: no clip is ever deleted.
pub proof fn law_a_pass_frees_what_it_consumed(
    run: CombineRun,
    probe: Result<u64, String>,
    after: CombineRun,
    r: PassDone,
    name: Seq<char>,
)
    requires
        run.pass_taken_in(probe, after, r),
        name != run.current().filter_script,
    ensures
        after@.next == run@.next + 1,
        views(r.delete@).contains(name) <==> run@.intermediates.contains(name)
            && run.current().inputs.contains(name),
        views(r.delete@).contains(run.current().filter_script),
        run.current().is_final ==> r.log@.len() == 0,
        after.passes == run.passes && after.encoder == run.encoder,
{
    let pass = run.current();
    let list = freed(pass.inputs, run@.intermediates, pass.inputs.len());
    let all = list.push(pass.filter_script);
    law_only_consumed_intermediates_are_freed(
        pass.inputs,
        run@.intermediates,
        pass.inputs.len(),
    );
    assert(pass.inputs.take(pass.inputs.len() as int) =~= pass.inputs);
    assert(views(r.delete@) == all);
    assert(all[list.len() as int] == pass.filter_script);
    if list.contains(name) {
        let k = choose|k: int| 0 <= k < list.len() && list[k] == name;
        assert(all[k] == name);
    }
    if all.contains(name) {
        let k = choose|k: int| 0 <= k < all.len() && all[k] == name;
        assert(list[k] == name);
    }
    assert(views(r.log@).len() == r.log@.len());
}

/// A batch pass is named by its number among the batches; the final pass is the video.
pub proof fn law_a_stage_names_its_batch(pass: PassView, number: nat, total: nat)
    requires
        total >= 1,
    ensures
        pass.is_final ==> stage_text(pass, number, total) == "combining playlist video"@,
        !pass.is_final ==> ends(
            stage_text(pass, number, total),
            "batch "@ + decimal(number) + "/"@ + decimal((total - 1) as nat),
        ),
{
    if !pass.is_final {
        let s = stage_text(pass, number, total);
        let tail = "batch "@ + decimal(number) + "/"@ + decimal((total - 1) as nat);
        assert("combining batch "@ =~= "combining "@ + "batch "@) by {
            reveal_strlit("combining batch ");
            reveal_strlit("combining ");
            reveal_strlit("batch ");
        }
        assert(s =~= "combining "@ + tail);
        assert(s.subrange(s.len() - tail.len(), s.len() as int) =~= tail);
    }
}

/// A pass is announced by its number and its output; where a resumed run picks up is said
/// once, before that.
pub proof fn law_a_pass_is_announced(state: RunView, total: nat, pass: PassView, length: usize)
    ensures
        start_lines(state, total, pass, length).len() == if state.reused_any && !state.announced {
            2int
        } else {
            1
        },
        starts(
            start_lines(state, total, pass, length).last(),
            "Combine pass "@ + decimal(state.next + 1) + "/"@ + decimal(total) + ": "@,
        ),
        contains(start_lines(state, total, pass, length).last(), "-> "@ + pass.output + " ("@),
{
    let line = start_lines(state, total, pass, length).last();
    let head = "Combine pass "@ + decimal(state.next + 1) + "/"@ + decimal(total) + ": "@;
    let key = "-> "@ + pass.output + " ("@;
    assert(" input(s) -> "@ =~= " input(s) "@ + "-> "@) by {
        reveal_strlit(" input(s) -> ");
        reveal_strlit(" input(s) ");
        reveal_strlit("-> ");
    }
    let count = decimal(pass.inputs.len()) + " input(s) "@;
    let rest = decimal(length as nat) + " char command line)"@;
    assert(line =~= head + count + key + rest);
    assert(line.subrange(0, head.len() as int) =~= head);
    let at = (head.len() + count.len()) as int;
    assert(line.subrange(at, at + key.len()) =~= key);
    assert(occurs_at(line, key, at));
}

/// An export that has to do without the transition that was asked for says so, and only
/// then; and one of several passes explains them.
pub proof fn law_an_export_says_what_it_does_without(
    renderer: PlaylistRenderer,
    transition: u64,
    passes: nat,
)
    ensures
        opening_lines(renderer, transition, passes).len() == 2 + (if transition == 0
            && renderer.transition >= 100_000 {
            1int
        } else {
            0
        }) + if passes > 1 {
            1int
        } else {
            0
        },
        ({
            let lines = opening_lines(renderer, transition, passes);
            let at = if transition == 0 && renderer.transition >= 100_000 {
                1int
            } else {
                0
            };
            &&& starts(lines[at], "Combining "@ + decimal(renderer.clips@.len()) + " clip"@)
            &&& starts(
                lines[at + 1],
                "Encoding with: "@ + renderer.encoder.kind.spec_full_label(),
            )
        }),
{
    let lines = opening_lines(renderer, transition, passes);
    let at = if transition == 0 && renderer.transition >= 100_000 {
        1int
    } else {
        0
    };
    assert(" clip(s) into '"@ =~= " clip"@ + "(s) into '"@) by {
        reveal_strlit(" clip(s) into '");
        reveal_strlit(" clip");
        reveal_strlit("(s) into '");
    }
    let a = "Combining "@ + decimal(renderer.clips@.len()) + " clip"@;
    assert(lines[at].subrange(0, a.len() as int) =~= a);
    let b = "Encoding with: "@ + renderer.encoder.kind.spec_full_label();
    assert(lines[at + 1].subrange(0, b.len() as int) =~= b);
}

} // verus!
