//! Names that are safe to write, and names that are free.
use vstd::prelude::*;
use vstd::string::*;

use crate::text;
use crate::text::{ascii_small, control, decimal, trimmed, views, zero_padded};
use crate::utils::name_laws::{
    is_nearest_second, is_safe_form, law_a_clock_reads_back,
    law_lengths_are_shown_to_the_nearest_second, law_safe_names_keep_what_they_can, shows_time,
};

verus! {

// ---------------------------------------------------------------------------
// Safe names
// ---------------------------------------------------------------------------

/// Whether a character has no place in a file name on some platform.
pub open spec fn forbidden(c: char) -> bool {
    c == '/' || c == '\\' || c == ':' || c == '*' || c == '?' || c == '"' || c == '<' || c == '>'
        || c == '|' || c == ',' || control(c)
}

/// `s` with every forbidden character replaced.
pub open spec fn masked(s: Seq<char>) -> Seq<char> {
    Seq::new(
        s.len(),
        |i: int|
            if forbidden(s[i]) {
                '_'
            } else {
                s[i]
            },
    )
}

/// `s` without the dots it begins with.
pub open spec fn undotted_start(s: Seq<char>) -> Seq<char>
    decreases s.len(),
{
    if s.len() > 0 && s[0] == '.' {
        undotted_start(s.skip(1))
    } else {
        s
    }
}

/// `s` without the dots it ends with.
pub open spec fn undotted_end(s: Seq<char>) -> Seq<char>
    decreases s.len(),
{
    if s.len() > 0 && s.last() == '.' {
        undotted_end(s.drop_last())
    } else {
        s
    }
}

/// The longest file name that is made.
pub const MAX_NAME: usize = 120;

/// The file name for `name`: forbidden characters replaced, the white space
/// around it and then the dots around it dropped, cut to the longest length; a
/// fixed name where nothing is left.
pub open spec fn safe_name(name: Seq<char>) -> Seq<char> {
    let kept = undotted_end(undotted_start(trimmed(masked(name))));
    let cut = if kept.len() <= MAX_NAME {
        kept
    } else {
        kept.take(MAX_NAME as int)
    };
    if cut.len() == 0 {
        "untitled"@
    } else {
        cut
    }
}

/// Makes a string safe to use as a file name on all supported platforms.
pub fn sanitize_filename(name: &str) -> (r: String)
    ensures
        r@ == safe_name(name@),
        is_safe_form(name@, r@),
{
    proof {
        law_safe_names_keep_what_they_can(name@);
    }
    let chars = text::to_chars(name);
    let mut out: Vec<char> = Vec::new();
    for i in 0..chars.len()
        invariant
            out@ =~= masked(chars@).take(i as int),
    {
        let c = chars[i];
        if c == '/' || c == '\\' || c == ':' || c == '*' || c == '?' || c == '"' || c == '<' || c
            == '>' || c == '|' || c == ',' || text::is_control(c) {
            out.push('_');
        } else {
            out.push(c);
        }
    }
    assert(out@ =~= masked(name@));
    let t = text::trim_chars(out.as_slice());
    let mut from: usize = 0;
    assert(t@.skip(0) =~= t@);
    while from < t.len() && t[from] == '.'
        invariant
            from <= t@.len(),
            undotted_start(t@) == undotted_start(t@.skip(from as int)),
        decreases t@.len() - from,
    {
        assert(t@.skip(from as int).skip(1) =~= t@.skip(from + 1));
        from = from + 1;
    }
    let ghost rest = t@.skip(from as int);
    let mut to: usize = t.len();
    assert(t@.subrange(from as int, to as int) =~= rest);
    while to > from && t[to - 1] == '.'
        invariant
            from <= to <= t@.len(),
            undotted_end(rest) == undotted_end(t@.subrange(from as int, to as int)),
        decreases to,
    {
        assert(t@.subrange(from as int, to as int).drop_last() =~= t@.subrange(
            from as int,
            to - 1,
        ));
        to = to - 1;
    }
    let ghost kept = undotted_end(undotted_start(trimmed(masked(name@))));
    assert(kept == t@.subrange(from as int, to as int));
    let end: usize = if to - from <= MAX_NAME { to } else { from + MAX_NAME };
    if end == from {
        return "untitled".to_owned();
    }
    let cut = text::slice_of(t.as_slice(), from, end);
    assert(cut@ =~= (if kept.len() <= MAX_NAME {
        kept
    } else {
        kept.take(MAX_NAME as int)
    }));
    text::from_chars(cut.as_slice())
}

proof fn lemma_undotted_start_part(s: Seq<char>) -> (from: int)
    ensures
        0 <= from <= s.len(),
        undotted_start(s) == s.skip(from),
    decreases s.len(),
{
    if s.len() > 0 && s[0] == '.' {
        let k = lemma_undotted_start_part(s.skip(1));
        assert(s.skip(1).skip(k) =~= s.skip(k + 1));
        k + 1
    } else {
        assert(s.skip(0) =~= s);
        0
    }
}

proof fn lemma_undotted_end_part(s: Seq<char>) -> (to: int)
    ensures
        0 <= to <= s.len(),
        undotted_end(s) == s.take(to),
    decreases s.len(),
{
    if s.len() > 0 && s.last() == '.' {
        let k = lemma_undotted_end_part(s.drop_last());
        assert(s.drop_last().take(k) =~= s.take(k));
        k
    } else {
        assert(s.take(s.len() as int) =~= s);
        s.len() as int
    }
}

/// A file name that is made is never empty, never too long, and holds no
/// character that some platform forbids.
pub proof fn law_safe_names_are_safe(name: Seq<char>)
    ensures
        1 <= safe_name(name).len() <= MAX_NAME,
        forall|i: int| 0 <= i < safe_name(name).len() ==> !forbidden(#[trigger] safe_name(name)[i]),
{
    reveal_strlit("untitled");
    let m = masked(name);
    let (a, b) = text::lemma_trimmed_part(m);
    let t = trimmed(m);
    let c = lemma_undotted_start_part(t);
    let d = lemma_undotted_end_part(undotted_start(t));
    let kept = undotted_end(undotted_start(t));
    assert forall|i: int| 0 <= i < kept.len() implies !forbidden(#[trigger] kept[i]) by {
        assert(kept[i] == m[a + c + i]);
    }
    assert forall|i: int| 0 <= i < safe_name(name).len() implies !forbidden(
        #[trigger] safe_name(name)[i],
    ) by {
        if kept.len() > 0 {
            assert(safe_name(name)[i] == kept[i]);
        }
    }
}

// ---------------------------------------------------------------------------
// Free names
// ---------------------------------------------------------------------------

/// The `n`-th name tried for an output: the plain one, then numbered ones from
/// two on.
pub open spec fn candidate(stem: Seq<char>, ext: Seq<char>, n: nat) -> Seq<char> {
    if n <= 1 {
        stem + "."@ + ext
    } else {
        stem + " ("@ + decimal(n) + ")."@ + ext
    }
}

/// Whether the caller's look at the disk has answered `answer` for a name.
pub open spec fn answered<F: Fn(&str) -> bool>(look: F, name: Seq<char>, answer: bool) -> bool {
    exists|s: &str| s@ == name && #[trigger] call_ensures(look, (s,), answer)
}

/// Writes the `n`-th name tried for an output.
pub fn candidate_name(stem: &str, ext: &str, n: u64) -> (r: String)
    ensures
        r@ == candidate(stem@, ext@, n as nat),
{
    let mut s = stem.to_owned();
    if n <= 1 {
        s.append(".");
    } else {
        s.append(" (");
        s.append(text::dec(n).as_str());
        s.append(").");
    }
    s.append(ext);
    s
}

/// Whether `r` is the first name for an output that is not reported as taken.
pub open spec fn is_first_free<F: Fn(&str) -> bool>(
    stem: Seq<char>,
    ext: Seq<char>,
    taken: F,
    r: Option<String>,
) -> bool {
    match r {
        Some(name) => exists|n: nat|
            #![trigger candidate(stem, ext, n)]
            {
                &&& n >= 1
                &&& name@ == candidate(stem, ext, n)
                &&& answered(taken, name@, false)
                &&& forall|k: nat|
                    1 <= k < n ==> answered(taken, #[trigger] candidate(stem, ext, k), true)
            },
        None => forall|k: nat|
            1 <= k <= u64::MAX ==> answered(
                taken,
                #[trigger] candidate(stem, ext, k),
                true,
            ),
    }
}

/// Non-clobbering output name: "name.mp4", "name (2).mp4", and so on: the first
/// of them that `taken` does not report as existing. (There is none only where
/// every name up to the largest machine number was reported.)
pub fn unique_path<F: Fn(&str) -> bool>(stem: &str, ext: &str, taken: F) -> (r: Option<String>)
    requires
        forall|s: &str| #[trigger] call_requires(taken, (s,)),
    ensures
        is_first_free(stem@, ext@, taken, r),
{
    let mut n: u64 = 1;
    loop
        invariant
            forall|s: &str| #[trigger] call_requires(taken, (s,)),
            n >= 1,
            forall|k: nat|
                1 <= k < n ==> answered(taken, #[trigger] candidate(stem@, ext@, k), true),
        decreases u64::MAX - n,
    {
        let name = candidate_name(stem, ext, n);
        let exists_already = taken(name.as_str());
        assert(answered(taken, name@, exists_already));
        if !exists_already {
            assert(name@ == candidate(stem@, ext@, n as nat));
            return Some(name);
        }
        if n == u64::MAX {
            return None;
        }
        n = n + 1;
    }
}

/// No two tries are for the same name: a numbered name always differs from the
/// names tried before it.
pub proof fn law_candidates_are_distinct(stem: Seq<char>, ext: Seq<char>, m: nat, n: nat)
    requires
        1 <= m < n,
    ensures
        candidate(stem, ext, m) != candidate(stem, ext, n),
{
    reveal_strlit(".");
    reveal_strlit(" (");
    reveal_strlit(").");
    text::law_decimal_reads_back(n);
    let b = candidate(stem, ext, n);
    if m == 1 {
        let a = candidate(stem, ext, 1);
        assert(a.len() == stem.len() + 1 + ext.len());
        assert(b.len() == stem.len() + 2 + decimal(n).len() + 2 + ext.len());
    } else {
        text::law_decimal_reads_back(m);
        let a = candidate(stem, ext, m);
        if a == b {
            let from = stem.len() + 2int;
            let to = b.len() - ext.len() - 2;
            assert(a.subrange(from, to) =~= decimal(m));
            assert(b.subrange(from, to) =~= decimal(n));
        }
    }
}

// ---------------------------------------------------------------------------
// Files by extension
// ---------------------------------------------------------------------------

/// The position of the last dot in `s`, or minus one.
pub open spec fn last_dot(s: Seq<char>) -> int
    decreases s.len(),
{
    if s.len() == 0 {
        -1
    } else if s.last() == '.' {
        s.len() - 1
    } else {
        last_dot(s.drop_last())
    }
}

/// The extension of a file name: what follows its last dot, where that is not
/// its first character.
pub open spec fn extension(name: Seq<char>) -> Option<Seq<char>> {
    if last_dot(name) <= 0 {
        None
    } else {
        Some(name.skip(last_dot(name) + 1))
    }
}

/// Whether a file name has one of the extensions, in any case.
pub open spec fn has_extension(name: Seq<char>, exts: Seq<Seq<char>>) -> bool {
    extension(name) is Some && exists|i: int|
        0 <= i < exts.len() && ascii_small(#[trigger] exts[i]) == ascii_small(extension(name)->0)
}

fn extension_matches(name: &str, exts: &[String]) -> (r: bool)
    ensures
        r == has_extension(name@, views(exts@)),
{
    let chars = text::to_chars(name);
    let mut at: usize = chars.len();
    assert(chars@.take(at as int) =~= chars@);
    while at > 0 && chars[at - 1] != '.'
        invariant
            at <= chars@.len(),
            last_dot(chars@) == last_dot(chars@.take(at as int)),
        decreases at,
    {
        assert(chars@.take(at as int).drop_last() =~= chars@.take(at - 1));
        at = at - 1;
    }
    if at <= 1 {
        return false;
    }
    let ext = text::from_chars(text::slice_of(chars.as_slice(), at, chars.len()).as_slice());
    assert(ext@ =~= chars@.skip(at as int));
    assert(extension(name@) == Some(ext@));
    for i in 0..exts.len()
        invariant
            extension(name@) == Some(ext@),
            forall|j: int|
                0 <= j < i ==> ascii_small(#[trigger] views(exts@)[j]) != ascii_small(ext@),
    {
        if text::same_ignoring_case(exts[i].as_str(), ext.as_str()) {
            assert(ascii_small(views(exts@)[i as int]) == ascii_small(ext@));
            return true;
        }
    }
    false
}

/// The position of the first file name with one of the extensions, in any case.
pub fn find_file_with_ext(names: &[String], exts: &[String]) -> (r: Option<usize>)
    ensures
        match r {
            Some(i) => {
                &&& i < names@.len()
                &&& has_extension(names@[i as int]@, views(exts@))
                &&& forall|j: int|
                    0 <= j < i ==> !has_extension((#[trigger] names@[j])@, views(exts@))
            },
            None => forall|j: int|
                0 <= j < names@.len() ==> !has_extension((#[trigger] names@[j])@, views(exts@)),
        },
{
    for i in 0..names.len()
        invariant
            forall|j: int| 0 <= j < i ==> !has_extension((#[trigger] names@[j])@, views(exts@)),
    {
        if extension_matches(names[i].as_str(), exts) {
            return Some(i);
        }
    }
    None
}

// ---------------------------------------------------------------------------
// Durations
// ---------------------------------------------------------------------------

/// A length in whole seconds as `m:ss`, or `h:mm:ss` from an hour on.
pub open spec fn clock(s: nat) -> Seq<char> {
    let h = s / 3600;
    let m = (s % 3600) / 60;
    let sec = s % 60;
    if h > 0 {
        decimal(h) + ":"@ + zero_padded(decimal(m), 2) + ":"@ + zero_padded(decimal(sec), 2)
    } else {
        decimal(m) + ":"@ + zero_padded(decimal(sec), 2)
    }
}

/// Microseconds as whole seconds, a half counting up.
pub open spec fn whole_seconds(us: nat) -> nat {
    us / 1_000_000 + if us % 1_000_000 >= 500_000 {
        1nat
    } else {
        0
    }
}

/// Writes a number of seconds as a clock would.
pub fn clock_text(s: u64) -> (r: String)
    ensures
        r@ == clock(s as nat),
        shows_time(r@, s as int),
{
    proof {
        law_a_clock_reads_back(s as nat);
    }
    let h: u64 = s / 3600;
    let m: u64 = (s % 3600) / 60;
    let sec: u64 = s % 60;
    if h > 0 {
        let mut out = text::dec(h);
        out.append(":");
        out.append(text::dec_padded(m, 2).as_str());
        out.append(":");
        out.append(text::dec_padded(sec, 2).as_str());
        out
    } else {
        let mut out = text::dec(m);
        out.append(":");
        out.append(text::dec_padded(sec, 2).as_str());
        out
    }
}

/// Formats a length given in microseconds, to the nearest second.
pub fn format_duration(us: u64) -> (r: String)
    ensures
        r@ == clock(whole_seconds(us as nat)),
        exists|s: int| #[trigger] is_nearest_second(us as int, s) && shows_time(r@, s),
{
    proof {
        law_lengths_are_shown_to_the_nearest_second(us as nat);
    }
    let up: u64 = if us % 1_000_000 >= 500_000 { 1 } else { 0 };
    clock_text(us / 1_000_000 + up)
}

} // verus!
