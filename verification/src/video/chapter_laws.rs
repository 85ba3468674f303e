//! What the metadata document of a combined video says, read back from its text.
use vstd::prelude::*;

use crate::reading::{lemma_states, states};
use crate::text::{decimal, ends, signed_decimal, starts};
use crate::video::concat::{
    behind_backslash, chapter_section, chapter_sections, escaped, escaped_char, is_special,
    law_escaped_values_hold_no_bare_special, metadata_document, metadata_head, rounded_millis,
    ClipInfo,
};
use crate::video::timeline::{chapter_start, joined_length};

verus! {

/// What a reader of the metadata format makes of a value: a backslash makes the
/// character behind it an ordinary one.
pub open spec fn unescaped(s: Seq<char>) -> Seq<char>
    decreases s.len(),
{
    if s.len() == 0 {
        s
    } else if s[0] == '\\' && s.len() > 1 {
        seq![s[1]] + unescaped(s.skip(2))
    } else {
        seq![s[0]] + unescaped(s.skip(1))
    }
}

/// A text with its carriage returns made spaces.
pub open spec fn without_returns(s: Seq<char>) -> Seq<char> {
    Seq::new(
        s.len(),
        |i: int|
            if s[i] == '\r' {
                ' '
            } else {
                s[i]
            },
    )
}

proof fn lemma_unescaped(value: Seq<char>, rest: Seq<char>)
    ensures
        unescaped(escaped(value) + rest) == without_returns(value) + unescaped(rest),
    decreases value.len(),
{
    if value.len() == 0 {
        assert(escaped(value) + rest =~= rest);
        assert(without_returns(value) + unescaped(rest) =~= unescaped(rest));
    } else {
        let front = value.drop_last();
        let c = value.last();
        let tail = escaped_char(c) + rest;
        lemma_unescaped(front, tail);
        assert(escaped(value) + rest =~= escaped(front) + tail);
        let plain = if c == '\r' {
            ' '
        } else {
            c
        };
        if is_special(c) {
            assert(tail.skip(2) =~= rest);
        } else {
            assert(tail.skip(1) =~= rest);
        }
        assert(unescaped(tail) == seq![plain] + unescaped(rest));
        assert(without_returns(front) + (seq![plain] + unescaped(rest)) =~= without_returns(value)
            + unescaped(rest));
    }
}

/// A value that was escaped reads back as it was, but for its carriage returns.
pub proof fn law_escaped_values_read_back(value: Seq<char>)
    ensures
        unescaped(escaped(value)) == without_returns(value),
{
    lemma_unescaped(value, Seq::empty());
    assert(escaped(value) + Seq::<char>::empty() =~= escaped(value));
    assert(without_returns(value) + unescaped(Seq::empty()) =~= without_returns(value));
}

/// Whether a number of `base`-ths of a second is a position, to within half a
/// millisecond.
pub open spec fn is_position(n: int, base: nat, us: int) -> bool {
    &&& base > 0
    &&& -500 * base <= n * 1_000_000 - us * base <= 500 * base
}

/// Whether a text is a value of the metadata format that reads as `plain`: nothing in
/// it ends the value or the line.
pub open spec fn is_value(s: Seq<char>, plain: Seq<char>) -> bool {
    &&& unescaped(s) == plain
    &&& !behind_backslash(s, s.len() as int)
    &&& forall|i: int|
        0 <= i < s.len() && (s[i] == '\n' || s[i] == '=' || s[i] == ';' || s[i] == '#')
            ==> #[trigger] behind_backslash(s, i)
}

/// Whether a section of the document marks a chapter: with the time base that it names,
/// its two numbers are where the chapter starts and where it ends.
pub open spec fn marks_chapter(section: Seq<char>, start: int, end: int, title: Seq<char>) -> bool {
    &&& starts(section, "\n[CHAPTER]\n"@)
    &&& exists|base: nat, from: int, to: int|
        {
            &&& #[trigger] is_position(from, base, start)
            &&& #[trigger] is_position(to, base, end)
            &&& states(section, "\nTIMEBASE=1/"@, decimal(base))
            &&& states(section, "\nSTART="@, signed_decimal(from))
            &&& states(section, "\nEND="@, signed_decimal(to))
        }
    &&& exists|value: Seq<char>| #[trigger]
        is_value(value, title) && ends(section, "\ntitle="@ + value + "\n"@)
}

/// Texts one after the other.
pub open spec fn in_a_row(list: Seq<Seq<char>>) -> Seq<char>
    decreases list.len(),
{
    if list.len() == 0 {
        Seq::empty()
    } else {
        in_a_row(list.drop_last()) + list.last()
    }
}

proof fn lemma_value(plain: Seq<char>)
    ensures
        is_value(escaped(plain), without_returns(plain)),
{
    law_escaped_values_read_back(plain);
    law_escaped_values_hold_no_bare_special(plain);
    let s = escaped(plain);
    assert forall|i: int|
        0 <= i < s.len() && (s[i] == '\n' || s[i] == '=' || s[i] == ';' || s[i] == '#') implies #[trigger] behind_backslash(
        s,
        i,
    ) by {
        assert(is_special(s[i]));
    }
}

proof fn lemma_section_opens()
    ensures
        "\n[CHAPTER]\nTIMEBASE=1/1000\nSTART="@ == "\n[CHAPTER]"@ + "\nTIMEBASE=1/"@ + decimal(1000)
            + "\nSTART="@,
        "\nTIMEBASE=1/"@.len() > 0 && "\nTIMEBASE=1/"@[0] == '\n',
        "\nSTART="@.len() > 0 && "\nSTART="@[0] == '\n',
        "\nEND="@.len() > 0 && "\nEND="@[0] == '\n',
        "\ntitle="@.len() > 0 && "\ntitle="@[0] == '\n',
        "\n[CHAPTER]\n"@ == "\n[CHAPTER]"@ + seq!['\n'],
{
    reveal_strlit("\n[CHAPTER]\nTIMEBASE=1/1000\nSTART=");
    reveal_strlit("\n[CHAPTER]");
    reveal_strlit("\n[CHAPTER]\n");
    reveal_strlit("\nTIMEBASE=1/");
    reveal_strlit("\nSTART=");
    reveal_strlit("\nEND=");
    reveal_strlit("\ntitle=");
    reveal_with_fuel(decimal, 5);
    assert("\n[CHAPTER]\nTIMEBASE=1/1000\nSTART="@ =~= "\n[CHAPTER]"@ + "\nTIMEBASE=1/"@ + decimal(
        1000,
    ) + "\nSTART="@);
    assert("\n[CHAPTER]\n"@ =~= "\n[CHAPTER]"@ + seq!['\n']);
}

proof fn lemma_section_states(section: Seq<char>, from: Seq<char>, to: Seq<char>, value: Seq<char>)
    requires
        section == "\n[CHAPTER]\nTIMEBASE=1/1000\nSTART="@ + from + "\nEND="@ + to + "\ntitle="@
            + value + "\n"@,
    ensures
        starts(section, "\n[CHAPTER]\n"@),
        states(section, "\nTIMEBASE=1/"@, decimal(1000)),
        states(section, "\nSTART="@, from),
        states(section, "\nEND="@, to),
        ends(section, "\ntitle="@ + value + "\n"@),
{
    lemma_section_opens();
    let head = "\n[CHAPTER]"@;
    let base = "\nTIMEBASE=1/"@;
    let tail = "\ntitle="@ + value + "\n"@;
    let rest1 = "\nEND="@ + to + tail;
    let rest0 = "\nSTART="@ + from + rest1;
    assert(section =~= head + base + decimal(1000) + rest0);
    assert(rest0[0] == '\n' && rest1[0] == '\n' && tail[0] == '\n');
    lemma_states(section, head, base, decimal(1000), rest0);
    let a = head + base + decimal(1000);
    assert(section =~= a + "\nSTART="@ + from + rest1);
    lemma_states(section, a, "\nSTART="@, from, rest1);
    let b = a + "\nSTART="@ + from;
    assert(section =~= b + "\nEND="@ + to + tail);
    lemma_states(section, b, "\nEND="@, to, tail);
    assert(section =~= (b + "\nEND="@ + to) + tail);
    assert(section.subrange(section.len() - tail.len(), section.len() as int) =~= tail);
    assert(section.subrange(0, "\n[CHAPTER]\n"@.len() as int) =~= "\n[CHAPTER]\n"@);
}

proof fn lemma_section_marks(clips: Seq<ClipInfo>, lengths: Seq<u64>, transition: u64, i: int)
    requires
        0 <= i < clips.len() == lengths.len(),
    ensures
        marks_chapter(
            chapter_section(clips, lengths, transition, i),
            chapter_start(lengths, transition, i),
            if i + 1 < lengths.len() {
                chapter_start(lengths, transition, i + 1)
            } else {
                joined_length(lengths, transition)
            },
            without_returns(clips[i].uploader@ + " - "@ + clips[i].title@),
        ),
{
    let section = chapter_section(clips, lengths, transition, i);
    let start = chapter_start(lengths, transition, i);
    let end = if i + 1 < lengths.len() {
        chapter_start(lengths, transition, i + 1)
    } else {
        joined_length(lengths, transition)
    };
    let from = rounded_millis(start);
    let to = rounded_millis(end);
    let name = clips[i].uploader@ + " - "@ + clips[i].title@;
    let value = escaped(name);
    lemma_section_states(section, signed_decimal(from), signed_decimal(to), value);
    lemma_value(name);
    assert(is_position(from, 1000, start));
    assert(is_position(to, 1000, end));
    assert(is_value(value, without_returns(name)) && ends(section, "\ntitle="@ + value + "\n"@));
}

proof fn lemma_sections_in_a_row(
    clips: Seq<ClipInfo>,
    lengths: Seq<u64>,
    transition: u64,
    n: nat,
)
    ensures
        chapter_sections(clips, lengths, transition, n) == in_a_row(
            Seq::new(n, |i: int| chapter_section(clips, lengths, transition, i)),
        ),
    decreases n,
{
    let all = Seq::new(n, |i: int| chapter_section(clips, lengths, transition, i));
    if n > 0 {
        lemma_sections_in_a_row(clips, lengths, transition, (n - 1) as nat);
        assert(all.drop_last() =~= Seq::new(
            (n - 1) as nat,
            |i: int| chapter_section(clips, lengths, transition, i),
        ));
    }
}

/// Whether a document names the playlist and, where chapters are wanted, marks one
/// chapter for each clip, in the order of the clips.
pub open spec fn marks_every_clip(
    document: Seq<char>,
    playlist_title: Seq<char>,
    clips: Seq<ClipInfo>,
    lengths: Seq<u64>,
    transition: u64,
    chapters: bool,
) -> bool {
    exists|value: Seq<char>, sections: Seq<Seq<char>>|
        {
            &&& #[trigger] is_value(value, without_returns(playlist_title))
            &&& document == ";FFMETADATA1\ntitle="@ + value
                + "\nartist=SoundCloud Playlist\ncomment=Generated by SoundCloud2MP4\n"@
                + #[trigger] in_a_row(sections)
            &&& sections.len() == (if chapters {
                clips.len()
            } else {
                0
            })
            &&& forall|i: int|
                0 <= i < sections.len() ==> marks_chapter(
                    #[trigger] sections[i],
                    chapter_start(lengths, transition, i),
                    if i + 1 < lengths.len() {
                        chapter_start(lengths, transition, i + 1)
                    } else {
                        joined_length(lengths, transition)
                    },
                    without_returns(clips[i].uploader@ + " - "@ + clips[i].title@),
                )
        }
}

/// The document names the playlist and, where chapters are wanted, marks one chapter
/// for each clip, in the order of the clips: with the time base that its section names,
/// it starts where the clip starts in the video, ends where the next one starts (the
/// last one where the video ends), and is called after the clip's artist and title.
pub proof fn law_every_clip_has_its_chapter(
    playlist_title: Seq<char>,
    clips: Seq<ClipInfo>,
    lengths: Seq<u64>,
    transition: u64,
    chapters: bool,
)
    requires
        clips.len() == lengths.len(),
    ensures
        marks_every_clip(
            metadata_document(playlist_title, clips, lengths, transition, chapters),
            playlist_title,
            clips,
            lengths,
            transition,
            chapters,
        ),
{
    let value = escaped(playlist_title);
    lemma_value(playlist_title);
    let n = if chapters {
        clips.len()
    } else {
        0
    };
    let sections = Seq::new(n, |i: int| chapter_section(clips, lengths, transition, i));
    lemma_sections_in_a_row(clips, lengths, transition, n);
    assert forall|i: int| 0 <= i < sections.len() implies marks_chapter(
        #[trigger] sections[i],
        chapter_start(lengths, transition, i),
        if i + 1 < lengths.len() {
            chapter_start(lengths, transition, i + 1)
        } else {
            joined_length(lengths, transition)
        },
        without_returns(clips[i].uploader@ + " - "@ + clips[i].title@),
    ) by {
        lemma_section_marks(clips, lengths, transition, i);
    }
    let document = metadata_document(playlist_title, clips, lengths, transition, chapters);
    assert(document =~= metadata_head(playlist_title) + in_a_row(sections));
    assert(is_value(value, without_returns(playlist_title)));
}

} // verus!
