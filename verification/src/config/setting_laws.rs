//! What the settings come to, whatever the file says.
use vstd::prelude::*;

use crate::config::settings::{
    clamped, is_cookie_line, is_netscape, ladder_top, number_or, resolution_part, rung,
    CookieBrowser, ExportMode, Settings,
};
use crate::downloader::cookies::CookieSource;
use crate::text::{
    all_digits, contains, count_of, decimal, joined, law_decimal_reads_back, lemma_first_index,
    starts, trimmed, trimmed_end, trimmed_start, unsigned_of,
};
use crate::video::encoder::EncoderChoice;

verus! {

// ---------------------------------------------------------------------------
// Limits
// ---------------------------------------------------------------------------

/// Whether `r` is `n` where that lies within the limits, and else the limit that it
/// passes.
pub open spec fn is_held(n: int, low: int, high: int, r: int) -> bool {
    &&& low <= n <= high ==> r == n
    &&& n < low ==> r == low
    &&& n > high ==> r == high
}

/// Each setting is taken as it stands within its limits, and at the limit beyond them.
pub proof fn law_settings_are_held_to_their_limits(s: Settings)
    ensures
        is_held(s.metadata_retry_max_attempts as int, 1, 10, s.attempts()),
        is_held(s.retry_initial_delay_secs as int, 1, 120, s.initial_delay()),
        s.retry_max_delay_secs >= s.initial_delay() ==> is_held(
            s.retry_max_delay_secs as int,
            5,
            600,
            s.max_delay(),
        ),
        s.retry_max_delay_secs < s.initial_delay() ==> s.max_delay() == if s.initial_delay() < 5 {
            5
        } else {
            s.initial_delay()
        },
        forall|n: int, low: int, high: int|
            low <= high ==> is_held(n, low, high, #[trigger] clamped(n, low, high)),
{
}

// ---------------------------------------------------------------------------
// Back-off
// ---------------------------------------------------------------------------

/// Whether a ladder starts at the first delay (a second at least), doubles with every
/// rung while that stays within the longest, and then stays at the longest.
pub open spec fn is_ladder(initial: int, max: int, steps: Seq<u64>) -> bool {
    let first = if initial < 1 {
        1
    } else {
        initial
    };
    let top = if max < first {
        first
    } else {
        max
    };
    &&& steps.len() > 0 ==> steps[0] == first
    &&& forall|i: int, j: int|
        0 <= i && j == i + 1 && j < steps.len() ==> (#[trigger] steps[j]) == if 2 * (
        #[trigger] steps[i]) <= top {
            2 * steps[i]
        } else {
            top
        }
}

/// The rungs double up to the longest one.
pub proof fn law_rungs_double_up_to_the_longest(initial: int, max: int, i: nat)
    ensures
        rung(initial, max, 0) == if initial < 1 {
            1
        } else {
            initial
        },
        rung(initial, max, i + 1) == if 2 * rung(initial, max, i) <= ladder_top(initial, max) {
            2 * rung(initial, max, i)
        } else {
            ladder_top(initial, max)
        },
        1 <= initial <= max ==> ladder_top(initial, max) == max,
        max < initial ==> ladder_top(initial, max) == if initial < 1 {
            1
        } else {
            initial
        },
{
}

/// A row of rungs is a ladder.
pub proof fn lemma_rungs_are_a_ladder(initial: int, max: int, steps: Seq<u64>)
    requires
        forall|i: int| 0 <= i < steps.len() ==> #[trigger] steps[i] == rung(initial, max, i as nat),
    ensures
        is_ladder(initial, max, steps),
{
    assert forall|i: int, j: int| 0 <= i && j == i + 1 && j < steps.len() implies (
    #[trigger] steps[j]) == if 2 * (#[trigger] steps[i]) <= ladder_top(initial, max) {
        2 * steps[i]
    } else {
        ladder_top(initial, max)
    } by {
        law_rungs_double_up_to_the_longest(initial, max, i as nat);
    }
}

// ---------------------------------------------------------------------------
// Numbers in the settings
// ---------------------------------------------------------------------------

/// A number in the settings is read as it is written; what is no number of this size
/// counts as the fallback.
pub proof fn law_numbers_are_read_as_written(n: nat, fallback: u32, s: Seq<char>)
    ensures
        n <= u32::MAX ==> number_or(Some(decimal(n)), fallback) == n,
        n > u32::MAX ==> number_or(Some(decimal(n)), fallback) == fallback,
        s.len() == 0 ==> number_or(Some(s), fallback) == fallback,
        (exists|i: int| 1 <= i < s.len() && !('0' <= #[trigger] s[i] <= '9')) ==> number_or(
            Some(s),
            fallback,
        ) == fallback,
        number_or(None, fallback) == fallback,
{
    law_decimal_reads_back(n);
    let d = decimal(n);
    assert('0' <= d[0] <= '9');
    assert(unsigned_of(d) == Some(n as int));
    if exists|i: int| 1 <= i < s.len() && !('0' <= #[trigger] s[i] <= '9') {
        let i = choose|i: int| 1 <= i < s.len() && !('0' <= #[trigger] s[i] <= '9');
        if s[0] == '+' {
            assert(s.skip(1)[i - 1] == s[i]);
            assert(!all_digits(s.skip(1)));
        } else {
            assert(!all_digits(s));
        }
        assert(unsigned_of(s) is None);
    }
}

/// A resolution of the form `WIDTHxHEIGHT` is read as its width and its height.
pub proof fn law_a_resolution_is_width_by_height(w: nat, h: nat, a: u32, b: u32)
    requires
        w <= u32::MAX,
        h <= u32::MAX,
    ensures
        number_or(resolution_part(decimal(w) + seq!['x'] + decimal(h), 0), a) == w,
        number_or(resolution_part(decimal(w) + seq!['x'] + decimal(h), 1), b) == h,
{
    let s = decimal(w) + seq!['x'] + decimal(h);
    let k = decimal(w).len() as int;
    law_decimal_reads_back(w);
    law_decimal_reads_back(h);
    assert forall|j: int| 0 <= j < k implies s[j] != 'x' by {
        assert('0' <= decimal(w)[j] <= '9');
        assert(s[j] == decimal(w)[j]);
    }
    lemma_first_index(s, 'x', k);
    assert(s.take(k) =~= decimal(w));
    let rest = s.skip(k + 1);
    assert(rest =~= decimal(h));
    assert forall|j: int| 0 <= j < rest.len() implies rest[j] != 'x' by {
        assert('0' <= decimal(h)[j] <= '9');
    }
    lemma_first_index(rest, 'x', rest.len() as int);
    assert(rest.take(rest.len() as int) =~= decimal(h));
    law_numbers_are_read_as_written(w, a, s);
    law_numbers_are_read_as_written(h, b, s);
}

// ---------------------------------------------------------------------------
// Cookies
// ---------------------------------------------------------------------------

/// A browser that is selected is where the cookies come from, whatever file is set. A
/// file counts only without one, and only where it is set, readable and in the right
/// format; otherwise nothing is signed in.
pub proof fn law_a_selected_browser_wins(
    s: Settings,
    content: Option<&str>,
    source: CookieSource,
)
    requires
        s.is_cookie_source(content, source),
    ensures
        s.cookie_browser != CookieBrowser::NoBrowser <==> source is Browser,
        source is Browser ==> source->Browser_0 == s.cookie_browser,
        source is File ==> {
            &&& s.cookie_browser == CookieBrowser::NoBrowser
            &&& source->File_0@ == trimmed(s.cookies_path@)
            &&& source->File_0@.len() > 0
            &&& content is Some
        },
        source is Anonymous ==> s.cookie_browser == CookieBrowser::NoBrowser,
        s.cookie_browser == CookieBrowser::NoBrowser && trimmed(s.cookies_path@).len() == 0
            ==> source is Anonymous,
        s.cookie_browser == CookieBrowser::NoBrowser && content is None ==> source is Anonymous,
{
}

/// A JSON export is never taken for a cookie file, a first line that names the format
/// is enough for anything else, and without one there has to be a line of cookies.
pub proof fn law_cookie_files_are_told_by_their_lines(
    content: Seq<char>,
    first_lowered: Option<Seq<char>>,
)
    ensures
        starts(trimmed_start(content), "["@) || starts(trimmed_start(content), "{"@)
            ==> !is_netscape(content, first_lowered),
        !starts(trimmed_start(content), "["@) && !starts(trimmed_start(content), "{"@) ==> (
        is_netscape(content, first_lowered) <==> {
            ||| (first_lowered is Some && contains(
                first_lowered->0,
                "netscape http cookie file"@,
            ))
            ||| exists|i: int|
                0 <= i < crate::text::lines_of(trimmed_start(content)).len() && is_cookie_line(
                    #[trigger] crate::text::lines_of(trimmed_start(content))[i],
                )
        }),
{
}

proof fn lemma_count_push(s: Seq<char>, t: Seq<char>, c: char)
    ensures
        count_of(s + t, c) == count_of(s, c) + count_of(t, c),
    decreases t.len(),
{
    if t.len() == 0 {
        assert(s + t =~= s);
    } else {
        assert((s + t).drop_last() =~= s + t.drop_last());
        assert((s + t).last() == t.last());
        lemma_count_push(s, t.drop_last(), c);
    }
}

proof fn lemma_count_none(s: Seq<char>, c: char)
    requires
        forall|i: int| 0 <= i < s.len() ==> #[trigger] s[i] != c,
    ensures
        count_of(s, c) == 0,
    decreases s.len(),
{
    if s.len() > 0 {
        let front = s.drop_last();
        assert(s[s.len() - 1] != c);
        assert forall|i: int| 0 <= i < front.len() implies #[trigger] front[i] != c by {
            assert(front[i] == s[i]);
        }
        lemma_count_none(front, c);
    }
}

/// Whether a field of a line of cookies holds no tab.
pub open spec fn is_field(s: Seq<char>) -> bool {
    forall|i: int| 0 <= i < s.len() ==> #[trigger] s[i] != '\t'
}

proof fn lemma_tabs(fields: Seq<Seq<char>>)
    requires
        fields.len() > 0,
        forall|i: int| 0 <= i < fields.len() ==> is_field(#[trigger] fields[i]),
    ensures
        count_of(joined(fields, "\t"@), '\t') == fields.len() - 1,
    decreases fields.len(),
{
    reveal_with_fuel(joined, 2);
    reveal_with_fuel(count_of, 2);
    assert(is_field(fields[fields.len() - 1]));
    lemma_count_none(fields.last(), '\t');
    if fields.len() > 1 {
        let front = fields.drop_last();
        assert forall|i: int| 0 <= i < front.len() implies is_field(#[trigger] front[i]) by {
            assert(front[i] == fields[i]);
        }
        lemma_tabs(front);
        assert("\t"@ =~= seq!['\t']) by {
            reveal_strlit("\t");
        }
        assert(seq!['\t'].drop_last() =~= Seq::empty());
        assert(count_of("\t"@, '\t') == 1);
        lemma_count_push(joined(front, "\t"@), "\t"@, '\t');
        lemma_count_push(joined(front, "\t"@) + "\t"@, fields.last(), '\t');
    }
}

/// A line of cookies is one of seven fields with tabs between them that is no comment.
pub proof fn law_a_line_of_cookies_has_seven_fields(fields: Seq<Seq<char>>)
    requires
        fields.len() > 0,
        forall|i: int| 0 <= i < fields.len() ==> is_field(#[trigger] fields[i]),
        trimmed_end(joined(fields, "\t"@)) == joined(fields, "\t"@),
        joined(fields, "\t"@).len() > 0,
    ensures
        is_cookie_line(joined(fields, "\t"@)) <==> fields.len() == 7 && joined(fields, "\t"@)[0]
            != '#',
{
    lemma_tabs(fields);
    let line = joined(fields, "\t"@);
    assert("#"@ =~= seq!['#']) by {
        reveal_strlit("#");
    }
    if line[0] == '#' {
        assert(line.subrange(0, 1) =~= "#"@);
        assert(starts(line, "#"@));
    } else if starts(line, "#"@) {
        assert(line.subrange(0, 1)[0] == "#"@[0]);
    }
}

// ---------------------------------------------------------------------------
// Defaults
// ---------------------------------------------------------------------------

/// Out of the box the application makes one full-HD video per track at 320 kbit/s with
/// fades and without zoom, plays every song in full, signs in nowhere, picks its encoder
/// itself, and retries six times after 5, 10, 20, 40, 60 and 60 seconds.
pub proof fn law_the_defaults_are_what_they_are_meant_to_be(s: Settings, folder: Seq<char>)
    requires
        s.is_default_with(folder),
    ensures
        number_or(resolution_part(s.default_resolution@, 0), 0) == 1920,
        number_or(resolution_part(s.default_resolution@, 1), 0) == 1080,
        number_or(Some(s.default_quality@), 0) == 320,
        s.output_folder@ == folder,
        s.max_track_us == 0,
        s.effect_fade && !s.effect_zoom,
        s.cookie_browser == CookieBrowser::NoBrowser && s.cookies_path@.len() == 0,
        s.encoder == EncoderChoice::Auto && !s.hardware_decode,
        s.export_mode == ExportMode::Separate && s.continue_on_fail,
        s.transition_us == 2_000_000 && s.enable_chapters,
        s.combine_chunk_size == 40 && s.batch_combine_chunk_size == 4,
        s.auto_metadata_retry && s.auto_recover_metadata && s.auto_cookie_refresh,
        s.retry_delay_ms == 500 && s.retry_concurrency == 2,
        !s.debug_mode,
        s.ladder() == seq![5u64, 10, 20, 40, 60, 60],
{
    reveal_with_fuel(decimal, 5);
    assert("1920x1080"@ =~= decimal(1920) + seq!['x'] + decimal(1080)) by {
        reveal_strlit("1920x1080");
    }
    law_a_resolution_is_width_by_height(1920, 1080, 0, 0);
    assert("320"@ =~= decimal(320)) by {
        reveal_strlit("320");
    }
    law_numbers_are_read_as_written(320, 0, Seq::empty());
    reveal_with_fuel(rung, 7);
    assert(s.ladder() =~= seq![5u64, 10, 20, 40, 60, 60]);
}

} // verus!
