//! What a combine filtergraph does, read back from its text.
use vstd::prelude::*;

use crate::reading::{
    bracketed, free_of, lemma_brackets_are_distinct, lemma_joined_comes_apart, lemma_made_label,
    lemma_states, lemma_taken_label, made_label, pieces, played, played_all, states, taken_labels,
};
use crate::text::{decimal, law_decimal_reads_back, seconds3, seconds6};
use crate::video::concat::{
    audio_fade, audio_label, combine_filter, concat_chain, concat_labels, fade_offset,
    filter_chains, trim_chain, video_fade, video_label,
};
use crate::video::timeline::{chapter_start, law_chapters_tile_the_video};

verus! {

// ---------------------------------------------------------------------------
// Labels
// ---------------------------------------------------------------------------

/// The names of the streams of a graph.
enum Name {
    /// The video of an input.
    Video(nat),
    /// The audio of an input.
    Audio(nat),
    /// The sized audio of an input.
    Sized(nat),
    /// The video, or the audio, that is joined so far.
    JoinedVideo(nat),
    JoinedAudio(nat),
    /// The video, or the audio, that comes out.
    OutVideo,
    OutAudio,
}

spec fn body(name: Name) -> Seq<char> {
    match name {
        Name::Video(i) => decimal(i) + ":v"@,
        Name::Audio(i) => decimal(i) + ":a"@,
        Name::Sized(i) => "an"@ + decimal(i),
        Name::JoinedVideo(i) => "vx"@ + decimal(i),
        Name::JoinedAudio(i) => "ax"@ + decimal(i),
        Name::OutVideo => "vout"@,
        Name::OutAudio => "aout"@,
    }
}

spec fn label(name: Name) -> Seq<char> {
    bracketed(body(name))
}

/// Whether the name is that of a stream of an input.
spec fn is_raw(name: Name) -> bool {
    name is Video || name is Audio
}

proof fn lemma_bodies_are_plain(name: Name)
    ensures
        free_of(body(name), '['),
        free_of(body(name), ']'),
        free_of(body(name), ';'),
        body(name).len() > 0,
        is_raw(name) <==> '0' <= body(name)[0] <= '9',
{
    reveal_strlit(":v");
    reveal_strlit(":a");
    reveal_strlit("an");
    reveal_strlit("vx");
    reveal_strlit("ax");
    reveal_strlit("vout");
    reveal_strlit("aout");
    match name {
        Name::Video(i) | Name::Audio(i) | Name::Sized(i) | Name::JoinedVideo(i)
        | Name::JoinedAudio(i) => {
            law_decimal_reads_back(i);
        },
        _ => {},
    }
    let b = body(name);
    assert forall|k: int| 0 <= k < b.len() implies #[trigger] b[k] != '[' && b[k] != ']' && b[k]
        != ';' by {
        match name {
            Name::Video(i) | Name::Audio(i) => {
                if k < decimal(i).len() {
                    assert(b[k] == decimal(i)[k]);
                }
            },
            Name::Sized(i) | Name::JoinedVideo(i) | Name::JoinedAudio(i) => {
                if k >= 2 {
                    assert(b[k] == decimal(i)[k - 2]);
                }
            },
            _ => {},
        }
    }
    match name {
        Name::Video(i) | Name::Audio(i) => {
            assert(b[0] == decimal(i)[0]);
        },
        _ => {},
    }
}

proof fn lemma_decimals_are_distinct(i: nat, j: nat)
    requires
        decimal(i) == decimal(j),
    ensures
        i == j,
{
    law_decimal_reads_back(i);
    law_decimal_reads_back(j);
}

proof fn lemma_labels_are_distinct(a: Name, b: Name)
    requires
        label(a) == label(b),
    ensures
        a == b,
{
    lemma_brackets_are_distinct(body(a), body(b));
    lemma_bodies_are_plain(a);
    lemma_bodies_are_plain(b);
    reveal_strlit(":v");
    reveal_strlit(":a");
    reveal_strlit("an");
    reveal_strlit("vx");
    reveal_strlit("ax");
    reveal_strlit("vout");
    reveal_strlit("aout");
    let x = body(a);
    let y = body(b);
    match (a, b) {
        (Name::Video(i), Name::Video(j)) | (Name::Audio(i), Name::Audio(j)) => {
            assert(x.take(x.len() - 2) =~= decimal(i));
            assert(y.take(y.len() - 2) =~= decimal(j));
            lemma_decimals_are_distinct(i, j);
        },
        (Name::Video(_), Name::Audio(_)) | (Name::Audio(_), Name::Video(_)) => {
            assert(x[x.len() - 1] == y[y.len() - 1]);
        },
        (Name::Sized(i), Name::Sized(j))
        | (Name::JoinedVideo(i), Name::JoinedVideo(j))
        | (Name::JoinedAudio(i), Name::JoinedAudio(j)) => {
            assert(x.skip(2) =~= decimal(i));
            assert(y.skip(2) =~= decimal(j));
            lemma_decimals_are_distinct(i, j);
        },
        _ => {
            if !is_raw(a) && !is_raw(b) {
                assert(x[0] == y[0] && x[1] == y[1]);
            }
        },
    }
}

/// The label of the video, or the audio, after the first `i + 1` of `n` inputs.
spec fn video_name(n: nat, i: nat) -> Name {
    if i == 0 {
        Name::Video(0)
    } else if i == n - 1 {
        Name::OutVideo
    } else {
        Name::JoinedVideo(i)
    }
}

spec fn audio_name(n: nat, i: nat) -> Name {
    if i == 0 {
        Name::Sized(0)
    } else if i == n - 1 {
        Name::OutAudio
    } else {
        Name::JoinedAudio(i)
    }
}

/// The label that chain `k` of the graph for `n` inputs makes.
spec fn name_made(n: nat, k: nat) -> Name {
    if k < n {
        Name::Sized(k)
    } else if k < 2 * n - 1 {
        video_name(n, (k - n + 1) as nat)
    } else {
        audio_name(n, (k - (2 * n - 1) + 1) as nat)
    }
}

/// The labels that chain `k` of the graph for `n` inputs takes.
spec fn names_taken(n: nat, k: nat) -> Seq<Name> {
    if k < n {
        seq![Name::Audio(k)]
    } else if k < 2 * n - 1 {
        seq![video_name(n, (k - n) as nat), Name::Video((k - n + 1) as nat)]
    } else {
        seq![
            audio_name(n, (k - (2 * n - 1)) as nat),
            Name::Sized((k - (2 * n - 1) + 1) as nat),
        ]
    }
}

spec fn labels(names: Seq<Name>) -> Seq<Seq<char>> {
    Seq::new(names.len(), |i: int| label(names[i]))
}

proof fn lemma_written_labels(n: nat, i: nat)
    requires
        i < n,
    ensures
        video_label(n as int, i as int) == label(video_name(n, i)),
        audio_label(n as int, i as int) == label(audio_name(n, i)),
        "["@ + decimal(i) + ":v]"@ == label(Name::Video(i)),
        "["@ + decimal(i) + ":a]"@ == label(Name::Audio(i)),
        "[an"@ + decimal(i) + "]"@ == label(Name::Sized(i)),
        "[vout]"@ == label(Name::OutVideo),
        "[aout]"@ == label(Name::OutAudio),
{
    reveal_strlit("[");
    reveal_strlit("]");
    reveal_strlit(":v");
    reveal_strlit(":a");
    reveal_strlit(":v]");
    reveal_strlit(":a]");
    reveal_strlit("[an");
    reveal_strlit("an");
    reveal_strlit("[vx");
    reveal_strlit("vx");
    reveal_strlit("[ax");
    reveal_strlit("ax");
    reveal_strlit("vout");
    reveal_strlit("aout");
    reveal_strlit("[vout]");
    reveal_strlit("[aout]");
    reveal_strlit("[0:v]");
    reveal_strlit("[an0]");
    assert(decimal(0) =~= seq!['0']);
    assert("["@ + decimal(i) + ":v]"@ =~= label(Name::Video(i)));
    assert("["@ + decimal(i) + ":a]"@ =~= label(Name::Audio(i)));
    assert("[an"@ + decimal(i) + "]"@ =~= label(Name::Sized(i)));
    assert("[vx"@ + decimal(i) + "]"@ =~= label(Name::JoinedVideo(i)));
    assert("[ax"@ + decimal(i) + "]"@ =~= label(Name::JoinedAudio(i)));
    assert("[vout]"@ =~= label(Name::OutVideo));
    assert("[aout]"@ =~= label(Name::OutAudio));
    assert("[0:v]"@ =~= label(Name::Video(0)));
    assert("[an0]"@ =~= label(Name::Sized(0)));
}

// ---------------------------------------------------------------------------
// Chains
// ---------------------------------------------------------------------------

proof fn lemma_one_taken(a: Name, rest: Seq<char>)
    requires
        rest.len() > 0,
        rest[0] != '[',
    ensures
        taken_labels(label(a) + rest) == labels(seq![a]),
{
    lemma_bodies_are_plain(a);
    lemma_taken_label(body(a), rest);
    assert(taken_labels(rest) =~= Seq::empty());
    assert(taken_labels(label(a) + rest) =~= labels(seq![a]));
}

proof fn lemma_two_taken(a: Name, b: Name, rest: Seq<char>)
    requires
        rest.len() > 0,
        rest[0] != '[',
    ensures
        taken_labels(label(a) + label(b) + rest) == labels(seq![a, b]),
{
    lemma_one_taken(b, rest);
    lemma_bodies_are_plain(a);
    lemma_taken_label(body(a), label(b) + rest);
    assert(label(a) + label(b) + rest =~= label(a) + (label(b) + rest));
    assert(taken_labels(label(a) + label(b) + rest) =~= labels(seq![a, b]));
}

/// A chain is the labels that it takes, a filter, and the label that it makes.
proof fn lemma_trim_reads(lengths: Seq<u64>, n: nat, k: nat)
    requires
        k < n == lengths.len(),
    ensures
        taken_labels(trim_chain(lengths, k as int)) == labels(seq![Name::Audio(k)]),
        made_label(trim_chain(lengths, k as int)) == label(Name::Sized(k)),
        states(
            trim_chain(lengths, k as int),
            "apad,atrim=0:"@,
            seconds6(lengths[k as int] as nat),
        ),
{
    let chain = trim_chain(lengths, k as int);
    let made = label(Name::Sized(k));
    let w = seconds6(lengths[k as int] as nat);
    lemma_written_labels(n, k);
    lemma_bodies_are_plain(Name::Sized(k));
    assert(":a]apad,atrim=0:"@ =~= ":a]"@ + "apad,atrim=0:"@) by {
        reveal_strlit(":a]");
        reveal_strlit(":a]apad,atrim=0:");
        reveal_strlit("apad,atrim=0:");
    }
    assert(",asetpts=N/SR/TB[an"@ =~= ",asetpts=N/SR/TB"@ + "[an"@) by {
        reveal_strlit(",asetpts=N/SR/TB[an");
        reveal_strlit(",asetpts=N/SR/TB");
        reveal_strlit("[an");
    }
    let filter = "apad,atrim=0:"@ + w + ",asetpts=N/SR/TB"@;
    assert(filter[0] == 'a') by {
        reveal_strlit("apad,atrim=0:");
    }
    assert(chain =~= label(Name::Audio(k)) + (filter + made));
    lemma_one_taken(Name::Audio(k), filter + made);
    assert(chain =~= (label(Name::Audio(k)) + filter) + made);
    lemma_made_label(label(Name::Audio(k)) + filter, body(Name::Sized(k)));
    let tail = ",asetpts=N/SR/TB"@ + made;
    assert(tail[0] == ',') by {
        reveal_strlit(",asetpts=N/SR/TB");
    }
    assert(chain =~= label(Name::Audio(k)) + "apad,atrim=0:"@ + w + tail);
    lemma_states(chain, label(Name::Audio(k)), "apad,atrim=0:"@, w, tail);
}

proof fn lemma_video_reads(lengths: Seq<u64>, transition: u64, n: nat, i: nat)
    requires
        1 <= i < n == lengths.len(),
    ensures
        ({
            let chain = video_fade(lengths, transition, i as int);
            &&& taken_labels(chain) == labels(
                seq![video_name(n, (i - 1) as nat), Name::Video(i)],
            )
            &&& made_label(chain) == label(video_name(n, i))
            &&& states(chain, "xfade=transition=fade:duration="@, seconds3(transition as nat))
            &&& states(
                chain,
                ":offset="@,
                seconds3(fade_offset(lengths, transition, i as int)),
            )
        }),
{
    let chain = video_fade(lengths, transition, i as int);
    let name = video_name(n, i);
    let made = label(name);
    let a = label(video_name(n, (i - 1) as nat));
    let v = label(Name::Video(i));
    let t = seconds3(transition as nat);
    let o = seconds3(fade_offset(lengths, transition, i as int));
    let x = "xfade=transition=fade:duration="@;
    lemma_written_labels(n, i);
    lemma_written_labels(n, (i - 1) as nat);
    lemma_bodies_are_plain(name);
    assert(":v]xfade=transition=fade:duration="@ =~= ":v]"@ + x) by {
        reveal_strlit(":v]");
        reveal_strlit(":v]xfade=transition=fade:duration=");
        reveal_strlit("xfade=transition=fade:duration=");
    }
    assert(x[0] == 'x' && x.len() > 0) by {
        reveal_strlit("xfade=transition=fade:duration=");
    }
    assert(":offset="@[0] == ':' && ":offset="@.len() > 0) by {
        reveal_strlit(":offset=");
    }
    let filter = x + t + ":offset="@ + o;
    assert(chain =~= a + v + (filter + made));
    lemma_two_taken(video_name(n, (i - 1) as nat), Name::Video(i), filter + made);
    assert(chain =~= (a + v + filter) + made);
    lemma_made_label(a + v + filter, body(name));
    let rest = ":offset="@ + o + made;
    assert(rest[0] == ':');
    assert(chain =~= (a + v) + x + t + rest);
    lemma_states(chain, a + v, x, t, rest);
    assert(chain =~= (a + v + x + t) + ":offset="@ + o + made);
    lemma_states(chain, a + v + x + t, ":offset="@, o, made);
}

proof fn lemma_audio_reads(lengths: Seq<u64>, transition: u64, n: nat, i: nat)
    requires
        1 <= i < n == lengths.len(),
    ensures
        ({
            let chain = audio_fade(lengths, transition, i as int);
            &&& taken_labels(chain) == labels(
                seq![audio_name(n, (i - 1) as nat), Name::Sized(i)],
            )
            &&& made_label(chain) == label(audio_name(n, i))
            &&& states(chain, "acrossfade=d="@, seconds3(transition as nat))
        }),
{
    let chain = audio_fade(lengths, transition, i as int);
    let name = audio_name(n, i);
    let made = label(name);
    let a = label(audio_name(n, (i - 1) as nat));
    let v = label(Name::Sized(i));
    let t = seconds3(transition as nat);
    let x = "acrossfade=d="@;
    lemma_written_labels(n, i);
    lemma_written_labels(n, (i - 1) as nat);
    lemma_bodies_are_plain(name);
    assert("]acrossfade=d="@ =~= "]"@ + x) by {
        reveal_strlit("]");
        reveal_strlit("]acrossfade=d=");
        reveal_strlit("acrossfade=d=");
    }
    assert(x[0] == 'a' && x.len() > 0) by {
        reveal_strlit("acrossfade=d=");
    }
    let curves = ":c1=tri:c2=tri"@;
    assert(curves[0] == ':' && curves.len() > 0) by {
        reveal_strlit(":c1=tri:c2=tri");
    }
    let filter = x + t + curves;
    assert(chain =~= a + v + (filter + made));
    lemma_two_taken(audio_name(n, (i - 1) as nat), Name::Sized(i), filter + made);
    assert(chain =~= (a + v + filter) + made);
    lemma_made_label(a + v + filter, body(name));
    assert((curves + made)[0] == ':');
    assert(chain =~= (a + v) + x + t + (curves + made));
    lemma_states(chain, a + v, x, t, curves + made);
}

proof fn lemma_chain_reads(lengths: Seq<u64>, transition: u64, k: nat)
    requires
        lengths.len() >= 2,
        transition > 0,
        k < 3 * lengths.len() - 2,
    ensures
        ({
            let n = lengths.len();
            let chains = filter_chains(lengths, transition);
            &&& chains.len() == 3 * n - 2
            &&& taken_labels(chains[k as int]) == labels(names_taken(n, k))
            &&& made_label(chains[k as int]) == label(name_made(n, k))
        }),
{
    let n = lengths.len();
    let chains = filter_chains(lengths, transition);
    if k < n {
        assert(chains[k as int] == trim_chain(lengths, k as int));
        lemma_trim_reads(lengths, n, k);
    } else if k < 2 * n - 1 {
        let i = (k - n + 1) as nat;
        assert(chains[k as int] == video_fade(lengths, transition, i as int));
        lemma_video_reads(lengths, transition, n, i);
    } else {
        let i = (k - (2 * n - 1) + 1) as nat;
        assert(chains[k as int] == audio_fade(lengths, transition, i as int));
        lemma_audio_reads(lengths, transition, n, i);
    }
}

// ---------------------------------------------------------------------------
// What comes out
// ---------------------------------------------------------------------------

/// A stream that none of the chains looked at makes stands for itself.
proof fn lemma_unmade_plays_itself(lengths: Seq<u64>, transition: u64, upto: nat, name: Name)
    requires
        lengths.len() >= 2,
        transition > 0,
        upto <= 3 * lengths.len() - 2,
        forall|k: nat| k < upto ==> #[trigger] name_made(lengths.len(), k) != name,
    ensures
        played(filter_chains(lengths, transition), upto, label(name)) == seq![label(name)],
    decreases upto,
{
    if upto > 0 {
        let k = (upto - 1) as nat;
        lemma_chain_reads(lengths, transition, k);
        assert(name_made(lengths.len(), k) != name);
        if label(name_made(lengths.len(), k)) == label(name) {
            lemma_labels_are_distinct(name_made(lengths.len(), k), name);
        }
        lemma_unmade_plays_itself(lengths, transition, k, name);
    }
}

proof fn lemma_played_skips(
    lengths: Seq<u64>,
    transition: u64,
    from: nat,
    upto: nat,
    name: Name,
)
    requires
        lengths.len() >= 2,
        transition > 0,
        from <= upto <= 3 * lengths.len() - 2,
        forall|k: nat| from <= k < upto ==> #[trigger] name_made(lengths.len(), k) != name,
    ensures
        played(filter_chains(lengths, transition), upto, label(name)) == played(
            filter_chains(lengths, transition),
            from,
            label(name),
        ),
    decreases upto - from,
{
    if upto > from {
        let k = (upto - 1) as nat;
        lemma_chain_reads(lengths, transition, k);
        assert(name_made(lengths.len(), k) != name);
        if label(name_made(lengths.len(), k)) == label(name) {
            lemma_labels_are_distinct(name_made(lengths.len(), k), name);
        }
        lemma_played_skips(lengths, transition, from, k, name);
    }
}

proof fn lemma_sized_plays_its_input(lengths: Seq<u64>, transition: u64, upto: nat, i: nat)
    requires
        lengths.len() >= 2,
        transition > 0,
        i < lengths.len(),
        i < upto <= 3 * lengths.len() - 2,
    ensures
        played(filter_chains(lengths, transition), upto, label(Name::Sized(i))) == seq![
            label(Name::Audio(i)),
        ],
{
    let chains = filter_chains(lengths, transition);
    lemma_played_skips(lengths, transition, i + 1, upto, Name::Sized(i));
    lemma_chain_reads(lengths, transition, i);
    lemma_unmade_plays_itself(lengths, transition, i, Name::Audio(i));
    let taken = labels(names_taken(lengths.len(), i));
    assert(taken.drop_last() =~= Seq::empty());
    assert(taken.last() == label(Name::Audio(i)));
    reveal_with_fuel(played_all, 2);
    assert(played_all(chains, i, taken) =~= seq![label(Name::Audio(i))]);
}

spec fn videos(n: nat) -> Seq<Seq<char>> {
    Seq::new(n, |i: int| label(Name::Video(i as nat)))
}

spec fn audios(n: nat) -> Seq<Seq<char>> {
    Seq::new(n, |i: int| label(Name::Audio(i as nat)))
}

proof fn lemma_video_plays(lengths: Seq<u64>, transition: u64, i: nat)
    requires
        lengths.len() >= 2,
        transition > 0,
        i < lengths.len(),
    ensures
        played(
            filter_chains(lengths, transition),
            lengths.len() + i,
            label(video_name(lengths.len(), i)),
        ) == videos(i + 1),
    decreases i,
{
    let n = lengths.len();
    let chains = filter_chains(lengths, transition);
    if i == 0 {
        lemma_unmade_plays_itself(lengths, transition, n, Name::Video(0));
        assert(videos(1) =~= seq![label(Name::Video(0))]);
    } else {
        let k = (n + i - 1) as nat;
        lemma_chain_reads(lengths, transition, k);
        lemma_video_plays(lengths, transition, (i - 1) as nat);
        lemma_unmade_plays_itself(lengths, transition, k, Name::Video(i));
        let taken = labels(names_taken(n, k));
        assert(taken.drop_last().drop_last() =~= Seq::empty());
        assert(taken.drop_last().last() == label(video_name(n, (i - 1) as nat)));
        assert(taken.last() == label(Name::Video(i)));
        reveal_with_fuel(played_all, 3);
        assert(played_all(chains, k, taken) =~= videos(i) + seq![label(Name::Video(i))]);
        assert(videos(i) + seq![label(Name::Video(i))] =~= videos(i + 1));
    }
}

proof fn lemma_audio_plays(lengths: Seq<u64>, transition: u64, i: nat)
    requires
        lengths.len() >= 2,
        transition > 0,
        i < lengths.len(),
    ensures
        played(
            filter_chains(lengths, transition),
            (2 * lengths.len() - 1 + i) as nat,
            label(audio_name(lengths.len(), i)),
        ) == audios(i + 1),
    decreases i,
{
    let n = lengths.len();
    let chains = filter_chains(lengths, transition);
    if i == 0 {
        lemma_sized_plays_its_input(lengths, transition, (2 * n - 1) as nat, 0);
        assert(audios(1) =~= seq![label(Name::Audio(0))]);
    } else {
        let k = (2 * n - 1 + i - 1) as nat;
        lemma_chain_reads(lengths, transition, k);
        lemma_audio_plays(lengths, transition, (i - 1) as nat);
        lemma_sized_plays_its_input(lengths, transition, k, i);
        let taken = labels(names_taken(n, k));
        assert(taken.drop_last().drop_last() =~= Seq::empty());
        assert(taken.drop_last().last() == label(audio_name(n, (i - 1) as nat)));
        assert(taken.last() == label(Name::Sized(i)));
        reveal_with_fuel(played_all, 3);
        assert(played_all(chains, k, taken) =~= audios(i) + seq![label(Name::Audio(i))]);
        assert(audios(i) + seq![label(Name::Audio(i))] =~= audios(i + 1));
    }
}

// ---------------------------------------------------------------------------
// The text
// ---------------------------------------------------------------------------

proof fn lemma_seconds_are_free(us: nat)
    ensures
        free_of(seconds3(us), ';'),
        free_of(seconds6(us), ';'),
{
    reveal_strlit(".");
    let a = crate::text::nearest_even(us, 1_000);
    law_decimal_reads_back(a / 1_000);
    crate::text::law_padded_decimal_reads_back(a % 1_000, 3);
    law_decimal_reads_back(us / 1_000_000);
    crate::text::law_padded_decimal_reads_back(us % 1_000_000, 6);
    lemma_free_concat(decimal(a / 1_000), "."@);
    lemma_free_concat(
        decimal(a / 1_000) + "."@,
        crate::text::zero_padded(decimal(a % 1_000), 3),
    );
    lemma_free_concat(decimal(us / 1_000_000), "."@);
    lemma_free_concat(
        decimal(us / 1_000_000) + "."@,
        crate::text::zero_padded(decimal(us % 1_000_000), 6),
    );
}

proof fn lemma_free_concat(a: Seq<char>, b: Seq<char>)
    requires
        free_of(a, ';'),
        free_of(b, ';'),
    ensures
        free_of(a + b, ';'),
{
    assert forall|i: int| 0 <= i < (a + b).len() implies #[trigger] (a + b)[i] != ';' by {
        if i < a.len() {
            assert((a + b)[i] == a[i]);
        } else {
            assert((a + b)[i] == b[i - a.len()]);
        }
    }
}

proof fn lemma_label_is_free(name: Name)
    ensures
        free_of(label(name), ';'),
{
    lemma_bodies_are_plain(name);
    lemma_free_concat(seq!['['], body(name));
    lemma_free_concat(seq!['['] + body(name), seq![']']);
}

proof fn lemma_chain_is_free(lengths: Seq<u64>, transition: u64, k: nat)
    requires
        lengths.len() >= 2,
        transition > 0,
        k < 3 * lengths.len() - 2,
    ensures
        free_of(filter_chains(lengths, transition)[k as int], ';'),
{
    let n = lengths.len();
    let chain = filter_chains(lengths, transition)[k as int];
    if k < n {
        lemma_trim_is_free(lengths, k);
        assert(chain == trim_chain(lengths, k as int));
    } else if k < 2 * n - 1 {
        let i = (k - n + 1) as nat;
        lemma_written_labels(n, i);
        lemma_written_labels(n, (i - 1) as nat);
        lemma_label_is_free(video_name(n, i));
        lemma_label_is_free(video_name(n, (i - 1) as nat));
        let o = fade_offset(lengths, transition, i as int);
        lemma_seconds_are_free(transition as nat);
        lemma_seconds_are_free(o);
        law_decimal_reads_back(i);
        reveal_strlit("[");
        reveal_strlit(":v]xfade=transition=fade:duration=");
        reveal_strlit(":offset=");
        let before = video_label(n as int, i - 1);
        let a = before + "["@;
        lemma_free_concat(before, "["@);
        let b = a + decimal(i);
        lemma_free_concat(a, decimal(i));
        let c = b + ":v]xfade=transition=fade:duration="@;
        lemma_free_concat(b, ":v]xfade=transition=fade:duration="@);
        let d = c + seconds3(transition as nat);
        lemma_free_concat(c, seconds3(transition as nat));
        let e = d + ":offset="@;
        lemma_free_concat(d, ":offset="@);
        lemma_free_concat(e, seconds3(o));
        lemma_free_concat(e + seconds3(o), video_label(n as int, i as int));
        assert(chain == video_fade(lengths, transition, i as int));
    } else {
        let i = (k - (2 * n - 1) + 1) as nat;
        lemma_written_labels(n, i);
        lemma_written_labels(n, (i - 1) as nat);
        lemma_label_is_free(audio_name(n, i));
        lemma_label_is_free(audio_name(n, (i - 1) as nat));
        lemma_seconds_are_free(transition as nat);
        law_decimal_reads_back(i);
        reveal_strlit("[an");
        reveal_strlit("]acrossfade=d=");
        reveal_strlit(":c1=tri:c2=tri");
        let before = audio_label(n as int, i - 1);
        let a = before + "[an"@;
        lemma_free_concat(before, "[an"@);
        let b = a + decimal(i);
        lemma_free_concat(a, decimal(i));
        let c = b + "]acrossfade=d="@;
        lemma_free_concat(b, "]acrossfade=d="@);
        let d = c + seconds3(transition as nat);
        lemma_free_concat(c, seconds3(transition as nat));
        lemma_free_concat(d, ":c1=tri:c2=tri"@);
        lemma_free_concat(d + ":c1=tri:c2=tri"@, audio_label(n as int, i as int));
        assert(chain == audio_fade(lengths, transition, i as int));
    }
}

/// The chains of a combine filtergraph: its pieces between semicolons.
pub open spec fn chains_in(graph: Seq<char>) -> Seq<Seq<char>> {
    pieces(graph, ';')
}

/// Whether what comes out of a graph is its `n` inputs one after the other, in video
/// and in audio.
pub open spec fn plays_in_order(graph: Seq<char>, n: nat) -> bool {
    let chains = chains_in(graph);
    &&& played(chains, chains.len(), "[vout]"@) == Seq::new(
        n,
        |i: int| "["@ + decimal(i as nat) + ":v]"@,
    )
    &&& played(chains, chains.len(), "[aout]"@) == Seq::new(
        n,
        |i: int| "["@ + decimal(i as nat) + ":a]"@,
    )
}

/// With a transition, what comes out of the graph as `[vout]` plays the videos of all
/// inputs in their order, and what comes out as `[aout]` the audios of all inputs in
/// the same order: following the labels back from either end leads to the inputs
/// 0, 1, and so on, each once.
pub proof fn law_crossfaded_inputs_play_in_order(lengths: Seq<u64>, transition: u64)
    requires
        lengths.len() >= 2,
        transition > 0,
    ensures
        plays_in_order(combine_filter(lengths, transition), lengths.len()),
{
    let n = lengths.len();
    let chains = filter_chains(lengths, transition);
    lemma_graph_comes_apart(lengths, transition);
    lemma_written_labels(n, (n - 1) as nat);
    lemma_video_plays(lengths, transition, (n - 1) as nat);
    lemma_audio_plays(lengths, transition, (n - 1) as nat);
    lemma_chain_reads(lengths, transition, 0);
    lemma_played_skips(lengths, transition, (2 * n - 1) as nat, chains.len(), Name::OutVideo);
    assert forall|i: int| 0 <= i < n implies #[trigger] videos(n)[i] == "["@ + decimal(i as nat)
        + ":v]"@ && audios(n)[i] == "["@ + decimal(i as nat) + ":a]"@ by {
        lemma_written_labels(n, i as nat);
    }
    assert forall|i: int| 0 <= i < n implies #[trigger] audios(n)[i] == "["@ + decimal(i as nat)
        + ":a]"@ by {
        assert(videos(n)[i] == "["@ + decimal(i as nat) + ":v]"@);
    }
    assert(videos(n) =~= Seq::new(n, |i: int| "["@ + decimal(i as nat) + ":v]"@));
    assert(audios(n) =~= Seq::new(n, |i: int| "["@ + decimal(i as nat) + ":a]"@));
}

proof fn lemma_graph_comes_apart(lengths: Seq<u64>, transition: u64)
    requires
        lengths.len() >= 2,
        transition > 0,
    ensures
        chains_in(combine_filter(lengths, transition)) == filter_chains(lengths, transition),
{
    let chains = filter_chains(lengths, transition);
    lemma_chain_reads(lengths, transition, 0);
    assert forall|k: int| 0 <= k < chains.len() implies free_of(#[trigger] chains[k], ';') by {
        lemma_chain_is_free(lengths, transition, k as nat);
    }
    reveal_strlit(";");
    assert(";"@ =~= seq![';']);
    lemma_joined_comes_apart(chains, ';');
}

/// With a transition, each input after the first is faded in by one chain for its
/// video and one for its audio. Both fades last as long as the transition, and the
/// video's begins where the input's chapter starts, so that the previous clip's last
/// picture is the first one that fades. The audio of every input is first made exactly
/// as long as the input's video counts.
pub proof fn law_crossfades_fall_on_the_chapters(lengths: Seq<u64>, transition: u64, i: int)
    requires
        lengths.len() >= 2,
        transition > 0,
        forall|k: int| 0 <= k < lengths.len() ==> transition <= #[trigger] lengths[k],
        0 <= i < lengths.len(),
    ensures
        ({
            let chains = chains_in(combine_filter(lengths, transition));
            let n = lengths.len() as int;
            let own_audio = "[an"@ + decimal(i as nat) + "]"@;
            &&& chains.len() == 3 * n - 2
            &&& taken_labels(chains[i]) == seq!["["@ + decimal(i as nat) + ":a]"@]
            &&& made_label(chains[i]) == own_audio
            &&& states(chains[i], "apad,atrim=0:"@, seconds6(lengths[i] as nat))
            &&& i > 0 ==> {
                let video = chains[n + i - 1];
                let audio = chains[2 * n - 1 + i - 1];
                &&& taken_labels(video).len() == 2
                &&& taken_labels(video)[1] == "["@ + decimal(i as nat) + ":v]"@
                &&& states(
                    video,
                    "xfade=transition=fade:duration="@,
                    seconds3(transition as nat),
                )
                &&& states(
                    video,
                    ":offset="@,
                    seconds3(chapter_start(lengths, transition, i) as nat),
                )
                &&& taken_labels(audio).len() == 2
                &&& taken_labels(audio)[1] == own_audio
                &&& states(audio, "acrossfade=d="@, seconds3(transition as nat))
            }
        }),
{
    let n = lengths.len();
    let j = i as nat;
    lemma_graph_comes_apart(lengths, transition);
    lemma_chain_reads(lengths, transition, j);
    lemma_written_labels(n, j);
    lemma_trim_reads(lengths, n, j);
    let chains = filter_chains(lengths, transition);
    assert(chains[i] == trim_chain(lengths, i));
    assert(labels(seq![Name::Audio(j)]) =~= seq!["["@ + decimal(j) + ":a]"@]);
    if i > 0 {
        lemma_video_reads(lengths, transition, n, j);
        lemma_audio_reads(lengths, transition, n, j);
        law_chapters_tile_the_video(lengths, transition, i);
        assert(chains[n + i - 1] == video_fade(lengths, transition, i));
        assert(chains[2 * n - 1 + i - 1] == audio_fade(lengths, transition, i));
    }
}

// ---------------------------------------------------------------------------
// Hard cuts
// ---------------------------------------------------------------------------

spec fn cut_names(n: nat) -> Seq<Name> {
    Seq::new(
        2 * n,
        |k: int|
            if k % 2 == 0 {
                Name::Video((k / 2) as nat)
            } else {
                Name::Sized((k / 2) as nat)
            },
    )
}

proof fn lemma_cut_labels(n: nat, rest: Seq<char>)
    requires
        rest.len() > 0,
        rest[0] != '[',
    ensures
        taken_labels(concat_labels(n) + rest) == labels(cut_names(n)),
        free_of(concat_labels(n), ';'),
    decreases n,
{
    lemma_cut_labels_then(n, rest);
    assert(taken_labels(rest) =~= Seq::empty());
    assert(labels(cut_names(n)) + taken_labels(rest) =~= labels(cut_names(n)));
}

proof fn lemma_cut_labels_then(n: nat, rest: Seq<char>)
    ensures
        taken_labels(concat_labels(n) + rest) == labels(cut_names(n)) + taken_labels(rest),
        free_of(concat_labels(n), ';'),
    decreases n,
{
    if n == 0 {
        assert(concat_labels(n) + rest =~= rest);
        assert(labels(cut_names(n)) + taken_labels(rest) =~= taken_labels(rest));
    } else {
        let i = (n - 1) as nat;
        let v = label(Name::Video(i));
        let a = label(Name::Sized(i));
        lemma_written_labels(n, i);
        assert(":v][an"@ =~= ":v]"@ + "[an"@) by {
            reveal_strlit(":v][an");
            reveal_strlit(":v]");
            reveal_strlit("[an");
        }
        assert(concat_labels(n) =~= concat_labels(i) + v + a);
        lemma_cut_labels_then(i, v + a + rest);
        assert(concat_labels(n) + rest =~= concat_labels(i) + (v + a + rest));
        lemma_bodies_are_plain(Name::Video(i));
        lemma_bodies_are_plain(Name::Sized(i));
        lemma_taken_label(body(Name::Video(i)), a + rest);
        lemma_taken_label(body(Name::Sized(i)), rest);
        assert(v + a + rest =~= v + (a + rest));
        assert(labels(cut_names(i)) + (seq![v] + (seq![a] + taken_labels(rest))) =~= labels(
            cut_names(n),
        ) + taken_labels(rest));
        lemma_label_is_free(Name::Video(i));
        lemma_label_is_free(Name::Sized(i));
        lemma_free_concat(concat_labels(i), v);
        lemma_free_concat(concat_labels(i) + v, a);
    }
}

/// Without a transition, one chain joins everything with hard cuts: it takes, input by
/// input, the video and the audio of each, and says how many there are. The audio of
/// every input is first made exactly as long as the input's video counts.
pub proof fn law_cut_inputs_play_in_order(lengths: Seq<u64>)
    requires
        lengths.len() >= 1,
    ensures
        ({
            let chains = chains_in(combine_filter(lengths, 0));
            let n = lengths.len();
            let cut = chains.last();
            &&& chains.len() == n + 1
            &&& forall|i: int|
                0 <= i < n ==> {
                    &&& #[trigger] taken_labels(chains[i]) == seq![
                        "["@ + decimal(i as nat) + ":a]"@,
                    ]
                    &&& states(chains[i], "apad,atrim=0:"@, seconds6(lengths[i] as nat))
                    &&& taken_labels(cut)[2 * i] == "["@ + decimal(i as nat) + ":v]"@
                    &&& taken_labels(cut)[2 * i + 1] == made_label(chains[i])
                }
            &&& taken_labels(cut).len() == 2 * n
            &&& crate::text::ends(
                cut,
                "]concat=n="@ + decimal(n) + ":v=1:a=1[vout][aout]"@,
            )
        }),
{
    let n = lengths.len();
    let chains = filter_chains(lengths, 0);
    let cut = concat_chain(n);
    let rest = "concat=n="@ + decimal(n) + ":v=1:a=1[vout][aout]"@;
    law_decimal_reads_back(n);
    assert(cut =~= concat_labels(n) + rest);
    assert(rest[0] == 'c') by {
        reveal_strlit("concat=n=");
    }
    lemma_cut_labels(n, rest);
    assert(free_of("concat=n="@, ';') && free_of(":v=1:a=1[vout][aout]"@, ';')) by {
        reveal_strlit("concat=n=");
        reveal_strlit(":v=1:a=1[vout][aout]");
    }
    lemma_free_concat("concat=n="@, decimal(n));
    lemma_free_concat("concat=n="@ + decimal(n), ":v=1:a=1[vout][aout]"@);
    lemma_free_concat(concat_labels(n), rest);
    assert forall|k: int| 0 <= k < chains.len() implies free_of(#[trigger] chains[k], ';') by {
        if k < n {
            assert(chains[k] == trim_chain(lengths, k));
            lemma_trim_is_free(lengths, k as nat);
        }
    }
    reveal_strlit(";");
    assert(";"@ =~= seq![';']);
    lemma_joined_comes_apart(chains, ';');
    assert forall|i: int| 0 <= i < n implies {
        &&& #[trigger] taken_labels(chains[i]) == seq!["["@ + decimal(i as nat) + ":a]"@]
        &&& states(chains[i], "apad,atrim=0:"@, seconds6(lengths[i] as nat))
        &&& taken_labels(cut)[2 * i] == "["@ + decimal(i as nat) + ":v]"@
        &&& taken_labels(cut)[2 * i + 1] == made_label(chains[i])
    } by {
        lemma_trim_reads(lengths, n, i as nat);
        lemma_written_labels(n, i as nat);
        assert(chains[i] == trim_chain(lengths, i));
        assert(labels(seq![Name::Audio(i as nat)]) =~= seq!["["@ + decimal(i as nat) + ":a]"@]);
    }
    let i = (n - 1) as nat;
    lemma_written_labels(n, i);
    let tail = "]concat=n="@ + decimal(n) + ":v=1:a=1[vout][aout]"@;
    assert("]concat=n="@ =~= "]"@ + "concat=n="@) by {
        reveal_strlit("]");
        reveal_strlit("]concat=n=");
        reveal_strlit("concat=n=");
    }
    let front = concat_labels(i) + "["@ + decimal(i) + ":v][an"@ + decimal(i);
    assert(cut =~= front + tail);
    assert(cut.subrange(cut.len() - tail.len(), cut.len() as int) =~= tail);
}

proof fn lemma_trim_is_free(lengths: Seq<u64>, k: nat)
    ensures
        free_of(trim_chain(lengths, k as int), ';'),
{
    let w = seconds6(lengths[k as int] as nat);
    lemma_seconds_are_free(lengths[k as int] as nat);
    law_decimal_reads_back(k);
    reveal_strlit("[");
    reveal_strlit(":a]apad,atrim=0:");
    reveal_strlit(",asetpts=N/SR/TB[an");
    reveal_strlit("]");
    let a = "["@ + decimal(k);
    lemma_free_concat("["@, decimal(k));
    let b = a + ":a]apad,atrim=0:"@;
    lemma_free_concat(a, ":a]apad,atrim=0:"@);
    let c = b + w;
    lemma_free_concat(b, w);
    let d = c + ",asetpts=N/SR/TB[an"@;
    lemma_free_concat(c, ",asetpts=N/SR/TB[an"@);
    lemma_free_concat(d, decimal(k));
    lemma_free_concat(d + decimal(k), "]"@);
}

} // verus!
