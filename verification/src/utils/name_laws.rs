//! What a safe name keeps, what a clock shows, and which files an extension finds.
use vstd::prelude::*;

use crate::text::{
    all_digits, ascii_small, control, decimal, ends, law_decimal_reads_back,
    law_padded_decimal_reads_back, number_of, occurs_at, starts, trimmed,
    whitespace, zero_padded,
};
use crate::utils::filesystem::{
    answered, candidate, clock, extension, forbidden, has_extension, is_first_free, last_dot,
    masked, safe_name, undotted_end, undotted_start, whole_seconds,
};

verus! {

// ---------------------------------------------------------------------------
// Safe names
// ---------------------------------------------------------------------------

/// The characters that some file system or command line takes for something else.
pub open spec fn banned(c: char) -> bool {
    ||| seq!['/', '\\', ':', '*', '?', '"', '<', '>', '|', ','].contains(c)
    ||| control(c)
}

/// Whether a character may be dropped at the edge of a name.
pub open spec fn at_the_edge(c: char) -> bool {
    c == '.' || whitespace(c)
}

/// Whether a name keeps a stretch of another, character by character, with an
/// underscore for each banned one.
pub open spec fn keeps(name: Seq<char>, from: int, r: Seq<char>) -> bool {
    &&& 0 <= from && from + r.len() <= name.len()
    &&& forall|i: int|
        0 <= i < r.len() ==> #[trigger] r[i] == (if banned(name[from + i]) {
            '_'
        } else {
            name[from + i]
        })
    &&& forall|i: int| 0 <= i < from ==> at_the_edge(#[trigger] name[i])
    &&& r.len() == 120 || forall|i: int|
        from + r.len() <= i < name.len() ==> at_the_edge(#[trigger] name[i])
}

/// Whether `r` is a safe file name made of `name`: nothing is lost but dots and white
/// space at the edges, banned characters, and what is over the longest length; and a
/// name of which nothing is left gets a fixed one.
pub open spec fn is_safe_form(name: Seq<char>, r: Seq<char>) -> bool {
    &&& 1 <= r.len() <= 120
    &&& forall|i: int| 0 <= i < r.len() ==> !banned(#[trigger] r[i])
    &&& (exists|from: int| #[trigger] keeps(name, from, r) && r[0] != '.') || (r == "untitled"@
        && forall|i: int| 0 <= i < name.len() ==> at_the_edge(#[trigger] name[i]))
}

proof fn lemma_banned(c: char)
    ensures
        banned(c) == forbidden(c),
{
    let list = seq!['/', '\\', ':', '*', '?', '"', '<', '>', '|', ','];
    assert(list[0] == '/' && list[1] == '\\' && list[2] == ':' && list[3] == '*' && list[4] == '?'
        && list[5] == '"' && list[6] == '<' && list[7] == '>' && list[8] == '|' && list[9] == ',');
    if list.contains(c) {
        let i = choose|i: int| 0 <= i < list.len() && list[i] == c;
        assert(list[i] == c);
    }
}

proof fn lemma_trimmed_edges(s: Seq<char>) -> (part: (int, int))
    ensures
        0 <= part.0 <= part.1 <= s.len(),
        trimmed(s) == s.subrange(part.0, part.1),
        forall|i: int| 0 <= i < part.0 ==> whitespace(#[trigger] s[i]),
        forall|i: int| part.1 <= i < s.len() ==> whitespace(#[trigger] s[i]),
{
    crate::text::law_trimming_drops_only_outer_space(s);
    let (a, b) = choose|a: Seq<char>, b: Seq<char>|
        crate::text::blank(a) && crate::text::blank(b) && s == #[trigger] (a + trimmed(s) + b);
    let from = a.len() as int;
    let to = from + trimmed(s).len();
    assert(s.subrange(from, to) =~= trimmed(s));
    assert forall|i: int| 0 <= i < from implies whitespace(#[trigger] s[i]) by {
        assert(s[i] == a[i]);
    }
    assert forall|i: int| to <= i < s.len() implies whitespace(#[trigger] s[i]) by {
        assert(s[i] == b[i - to]);
    }
    (from, to)
}

proof fn lemma_undotted(s: Seq<char>) -> (part: (int, int))
    ensures
        0 <= part.0 <= part.1 <= s.len(),
        undotted_end(undotted_start(s)) == s.subrange(part.0, part.1),
        forall|i: int| 0 <= i < part.0 ==> #[trigger] s[i] == '.',
        forall|i: int| part.1 <= i < s.len() ==> #[trigger] s[i] == '.',
        part.0 < part.1 ==> s[part.0] != '.' && s[part.1 - 1] != '.',
{
    let from = lemma_start(s);
    let t = undotted_start(s);
    let to = lemma_end(t);
    assert(t.take(to) =~= s.subrange(from, from + to));
    assert forall|i: int| from + to <= i < s.len() implies #[trigger] s[i] == '.' by {
        assert(s[i] == t[i - from]);
    }
    if to > 0 {
        assert(s[from] == t[0]);
        assert(s[from + to - 1] == t[to - 1]);
    }
    (from, from + to)
}

proof fn lemma_start(s: Seq<char>) -> (from: int)
    ensures
        0 <= from <= s.len(),
        undotted_start(s) == s.skip(from),
        forall|i: int| 0 <= i < from ==> #[trigger] s[i] == '.',
        from < s.len() ==> s[from] != '.',
    decreases s.len(),
{
    if s.len() > 0 && s[0] == '.' {
        let rest = s.skip(1);
        let k = lemma_start(rest);
        assert(rest.skip(k) =~= s.skip(k + 1));
        assert forall|i: int| 0 <= i < k + 1 implies #[trigger] s[i] == '.' by {
            if i > 0 {
                assert(s[i] == rest[i - 1]);
            }
        }
        if k < rest.len() {
            assert(s[k + 1] == rest[k]);
        }
        k + 1
    } else {
        assert(s.skip(0) =~= s);
        0
    }
}

proof fn lemma_end(s: Seq<char>) -> (to: int)
    ensures
        0 <= to <= s.len(),
        undotted_end(s) == s.take(to),
        forall|i: int| to <= i < s.len() ==> #[trigger] s[i] == '.',
        to > 0 ==> s[to - 1] != '.',
    decreases s.len(),
{
    if s.len() > 0 && s.last() == '.' {
        let front = s.drop_last();
        let k = lemma_end(front);
        assert(front.take(k) =~= s.take(k));
        assert forall|i: int| k <= i < s.len() implies #[trigger] s[i] == '.' by {
            if i < front.len() {
                assert(s[i] == front[i]);
            }
        }
        if k > 0 {
            assert(s[k - 1] == front[k - 1]);
        }
        k
    } else {
        assert(s.take(s.len() as int) =~= s);
        s.len() as int
    }
}

proof fn lemma_mask(name: Seq<char>, i: int)
    requires
        0 <= i < name.len(),
    ensures
        masked(name)[i] == (if banned(name[i]) {
            '_'
        } else {
            name[i]
        }),
        at_the_edge(masked(name)[i]) ==> at_the_edge(name[i]),
        !banned(masked(name)[i]),
{
    lemma_banned(name[i]);
    lemma_banned('_');
}

/// A safe name is the name itself, as far as a file can carry it.
pub proof fn law_safe_names_keep_what_they_can(name: Seq<char>)
    ensures
        is_safe_form(name, safe_name(name)),
{
    let m = masked(name);
    let (a, b) = lemma_trimmed_edges(m);
    let t = trimmed(m);
    let (c, d) = lemma_undotted(t);
    let kept = undotted_end(undotted_start(t));
    let from = a + c;
    let to = a + d;
    assert(kept =~= m.subrange(from, to));
    let r = safe_name(name);
    assert forall|i: int| 0 <= i < from implies at_the_edge(#[trigger] name[i]) by {
        lemma_mask(name, i);
        if i >= a {
            assert(t[i - a] == m[i]);
        }
    }
    assert forall|i: int| to <= i < name.len() implies at_the_edge(#[trigger] name[i]) by {
        lemma_mask(name, i);
        if i < b {
            assert(t[i - a] == m[i]);
        }
    }
    if kept.len() == 0 {
        assert forall|i: int| 0 <= i < r.len() implies !banned(#[trigger] r[i]) by {
            reveal_strlit("untitled");
            lemma_banned(r[i]);
        }
        assert("untitled"@.len() == 8) by {
            reveal_strlit("untitled");
        }
    } else {
        assert forall|i: int| 0 <= i < r.len() implies #[trigger] r[i] == (if banned(
            name[from + i],
        ) {
            '_'
        } else {
            name[from + i]
        }) && !banned(r[i]) by {
            lemma_mask(name, from + i);
            assert(r[i] == m[from + i]);
        }
        assert(r[0] == t[c]);
        assert(keeps(name, from, r));
    }
}

/// A name that is safe already is left alone.
pub proof fn law_a_safe_name_is_left_alone(name: Seq<char>)
    requires
        1 <= name.len() <= 120,
        forall|i: int| 0 <= i < name.len() ==> !banned(#[trigger] name[i]),
        !at_the_edge(name[0]),
        !at_the_edge(name.last()),
    ensures
        safe_name(name) == name,
{
    assert forall|i: int| 0 <= i < name.len() implies masked(name)[i] == name[i] by {
        lemma_mask(name, i);
    }
    assert(masked(name) =~= name);
    assert(crate::text::trimmed_start(name) == name);
    assert(crate::text::trimmed_end(name) == name);
    assert(undotted_start(name) == name);
    assert(undotted_end(name) == name);
}

/// The first name that is tried for an output is the plain one; each later one carries
/// its number between the same stem and extension.
pub proof fn law_candidates_carry_their_number(stem: Seq<char>, ext: Seq<char>, n: nat)
    requires
        n >= 1,
    ensures
        starts(candidate(stem, ext, n), stem),
        ends(candidate(stem, ext, n), "."@ + ext),
        n == 1 ==> candidate(stem, ext, n).len() == stem.len() + 1 + ext.len(),
        n >= 2 ==> occurs_at(candidate(stem, ext, n), " ("@ + decimal(n) + ")"@, stem.len() as int),
        n >= 2 ==> candidate(stem, ext, n).len() == stem.len() + 4 + decimal(n).len() + ext.len(),
{
    let c = candidate(stem, ext, n);
    let tail = "."@ + ext;
    reveal_strlit(".");
    reveal_strlit(" (");
    reveal_strlit(")");
    reveal_strlit(").");
    assert(c.subrange(0, stem.len() as int) =~= stem);
    assert(c.subrange(c.len() - tail.len(), c.len() as int) =~= tail);
    if n >= 2 {
        let number = " ("@ + decimal(n) + ")"@;
        assert(c.subrange(stem.len() as int, (stem.len() + number.len()) as int) =~= number);
    }
}

// ---------------------------------------------------------------------------
// Extensions
// ---------------------------------------------------------------------------

proof fn lemma_last_dot(stem: Seq<char>, ext: Seq<char>)
    requires
        forall|i: int| 0 <= i < ext.len() ==> #[trigger] ext[i] != '.',
    ensures
        last_dot(stem.push('.') + ext) == stem.len(),
    decreases ext.len(),
{
    let s = stem.push('.') + ext;
    if ext.len() == 0 {
        assert(s =~= stem.push('.'));
    } else {
        let front = ext.drop_last();
        assert forall|i: int| 0 <= i < front.len() implies #[trigger] front[i] != '.' by {
            assert(front[i] == ext[i]);
        }
        lemma_last_dot(stem, front);
        assert(s.drop_last() =~= stem.push('.') + front);
        assert(s.last() == ext[ext.len() - 1]);
    }
}

proof fn lemma_no_dot(s: Seq<char>)
    requires
        forall|i: int| 0 <= i < s.len() ==> #[trigger] s[i] != '.',
    ensures
        last_dot(s) == -1,
    decreases s.len(),
{
    if s.len() > 0 {
        let front = s.drop_last();
        assert(s[s.len() - 1] != '.');
        assert forall|i: int| 0 <= i < front.len() implies #[trigger] front[i] != '.' by {
            assert(front[i] == s[i]);
        }
        lemma_no_dot(front);
    }
}

/// A file is found by what follows its last dot, in any case of letters; a name without
/// a dot, or with none but at its start, has no extension.
pub proof fn law_a_file_is_found_by_its_extension(
    stem: Seq<char>,
    ext: Seq<char>,
    exts: Seq<Seq<char>>,
)
    requires
        forall|i: int| 0 <= i < ext.len() ==> #[trigger] ext[i] != '.',
    ensures
        stem.len() > 0 ==> extension(stem.push('.') + ext) == Some(ext),
        stem.len() == 0 ==> extension(stem.push('.') + ext) is None,
        extension(ext) is None,
        stem.len() > 0 ==> (has_extension(stem.push('.') + ext, exts) <==> exists|i: int|
            0 <= i < exts.len() && ascii_small(#[trigger] exts[i]) == ascii_small(ext)),
        !has_extension(ext, exts),
{
    lemma_last_dot(stem, ext);
    lemma_no_dot(ext);
    let s = stem.push('.') + ext;
    if stem.len() > 0 {
        assert(s.skip((stem.len() + 1) as int) =~= ext);
    }
}

// ---------------------------------------------------------------------------
// Durations
// ---------------------------------------------------------------------------

/// Whether a text is a number of two digits below sixty.
pub open spec fn sixtieths(s: Seq<char>) -> bool {
    s.len() == 2 && all_digits(s) && number_of(s) < 60
}

/// Whether `h:mm:ss` shows this many seconds.
pub open spec fn shows_hours(
    shown: Seq<char>,
    h: Seq<char>,
    m: Seq<char>,
    s: Seq<char>,
    seconds: int,
) -> bool {
    &&& shown == h + ":"@ + m + ":"@ + s
    &&& all_digits(h) && h.len() > 0 && sixtieths(m) && sixtieths(s)
    &&& number_of(h) * 3600 + number_of(m) * 60 + number_of(s) == seconds
}

/// Whether `m:ss` shows this many seconds.
pub open spec fn shows_minutes(shown: Seq<char>, m: Seq<char>, s: Seq<char>, seconds: int) -> bool {
    &&& shown == m + ":"@ + s
    &&& all_digits(m) && m.len() > 0 && sixtieths(s)
    &&& number_of(m) * 60 + number_of(s) == seconds
}

/// Whether a text shows this many seconds as a clock does: minutes below an hour, and
/// hours from then on.
pub open spec fn shows_time(shown: Seq<char>, seconds: int) -> bool {
    if seconds < 3600 {
        exists|m: Seq<char>, s: Seq<char>| #[trigger] shows_minutes(shown, m, s, seconds)
    } else {
        exists|h: Seq<char>, m: Seq<char>, s: Seq<char>| #[trigger]
            shows_hours(shown, h, m, s, seconds)
    }
}

proof fn lemma_sixtieths(n: nat)
    requires
        n < 60,
    ensures
        sixtieths(zero_padded(decimal(n), 2)),
        number_of(zero_padded(decimal(n), 2)) == n,
{
    law_padded_decimal_reads_back(n, 2);
    reveal_with_fuel(decimal, 3);
}

/// A clock reads back as the seconds that it shows.
pub proof fn law_a_clock_reads_back(seconds: nat)
    ensures
        shows_time(clock(seconds), seconds as int),
{
    let h = seconds / 3600;
    let m = (seconds % 3600) / 60;
    let s = seconds % 60;
    lemma_sixtieths(m);
    lemma_sixtieths(s);
    law_decimal_reads_back(h);
    law_decimal_reads_back(m);
    assert(h * 3600 + m * 60 + s == seconds);
    if h > 0 {
        assert(shows_hours(
            clock(seconds),
            decimal(h),
            zero_padded(decimal(m), 2),
            zero_padded(decimal(s), 2),
            seconds as int,
        ));
    } else {
        assert(shows_minutes(
            clock(seconds),
            decimal(m),
            zero_padded(decimal(s), 2),
            seconds as int,
        ));
    }
}

/// Whether this is the nearest whole number of seconds, a half counting up.
pub open spec fn is_nearest_second(us: int, seconds: int) -> bool {
    seconds * 1_000_000 - 500_000 <= us < seconds * 1_000_000 + 500_000
}

/// A length is shown to the nearest second.
pub proof fn law_lengths_are_shown_to_the_nearest_second(us: nat)
    ensures
        is_nearest_second(us as int, whole_seconds(us) as int),
        shows_time(clock(whole_seconds(us)), whole_seconds(us) as int),
{
    law_a_clock_reads_back(whole_seconds(us));
}

/// An output gets a name that is free, between its stem and its extension. It is the
/// plain one unless that was reported as taken.
pub proof fn law_an_output_gets_a_free_name<F: Fn(&str) -> bool>(
    stem: Seq<char>,
    ext: Seq<char>,
    taken: F,
    r: Option<String>,
)
    requires
        is_first_free(stem, ext, taken, r),
    ensures
        r matches Some(name) ==> answered(taken, name@, false) && starts(name@, stem) && ends(
            name@,
            "."@ + ext,
        ),
        !answered(taken, stem + "."@ + ext, true) ==> r is Some && r->0@ == stem + "."@ + ext,
{
    if let Some(name) = r {
        let n = choose|n: nat|
            #![trigger candidate(stem, ext, n)]
            {
                &&& n >= 1
                &&& name@ == candidate(stem, ext, n)
                &&& answered(taken, name@, false)
                &&& forall|k: nat|
                    1 <= k < n ==> answered(taken, #[trigger] candidate(stem, ext, k), true)
            };
        law_candidates_carry_their_number(stem, ext, n);
        assert(candidate(stem, ext, 1) == stem + "."@ + ext);
        if n > 1 {
            assert(answered(taken, candidate(stem, ext, 1), true));
        }
    } else {
        assert(answered(taken, candidate(stem, ext, 1), true));
    }
}

} // verus!
