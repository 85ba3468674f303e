//! How texts come apart and go together.
use vstd::prelude::*;

use crate::text::{
    all_digits, ascii_small, blank, control, count_of, decimal, joined, law_decimal_reads_back,
    lemma_first_index, lemma_first_space, lines_of, number_of, signed_decimal, small,
    trimmed_start, unsigned_of, whitespace, words_of,
};

verus! {

/// Whether a text is one line.
pub open spec fn is_line(s: Seq<char>) -> bool {
    forall|i: int| 0 <= i < s.len() ==> #[trigger] s[i] != '\n'
}

/// Whether a text is one word.
pub open spec fn is_word(s: Seq<char>) -> bool {
    s.len() > 0 && forall|i: int| 0 <= i < s.len() ==> !whitespace(#[trigger] s[i])
}

/// A text is read line by line: each ends at its line feed, before which a carriage
/// return does not count; the last one may do without; and what follows the last line
/// feed is a line only where there is something.
pub proof fn law_lines_end_at_line_feeds(line: Seq<char>, rest: Seq<char>)
    requires
        is_line(line),
    ensures
        lines_of(Seq::empty()) == Seq::<Seq<char>>::empty(),
        line.len() > 0 ==> lines_of(line) == seq![line],
        lines_of(line + seq!['\n'] + rest) == seq![
            if line.len() > 0 && line.last() == '\r' {
                line.drop_last()
            } else {
                line
            },
        ] + lines_of(rest),
{
    let n = line.len() as int;
    if n > 0 {
        lemma_first_index(line, '\n', n);
    }
    let s = line + seq!['\n'] + rest;
    assert forall|j: int| 0 <= j < n implies s[j] != '\n' by {
        assert(s[j] == line[j]);
    }
    assert(s[n] == '\n');
    lemma_first_index(s, '\n', n);
    assert(s.take(n) =~= line);
    assert(s.skip(n + 1) =~= rest);
}

proof fn lemma_blank_start(a: Seq<char>, rest: Seq<char>)
    requires
        blank(a),
        rest.len() > 0 ==> !whitespace(rest[0]),
    ensures
        trimmed_start(a + rest) == rest,
    decreases a.len(),
{
    if a.len() == 0 {
        assert(a + rest =~= rest);
    } else {
        let b = a.skip(1);
        assert(whitespace(a[0]));
        assert forall|i: int| 0 <= i < b.len() implies whitespace(#[trigger] b[i]) by {
            assert(b[i] == a[i + 1]);
        }
        assert((a + rest).skip(1) =~= b + rest);
        lemma_blank_start(b, rest);
    }
}

/// A text is read word by word: white space parts them and belongs to none.
pub proof fn law_words_are_parted_by_white_space(a: Seq<char>, word: Seq<char>, rest: Seq<char>)
    requires
        blank(a),
        is_word(word),
        rest.len() > 0 ==> whitespace(rest[0]),
    ensures
        words_of(a) == Seq::<Seq<char>>::empty(),
        words_of(a + word + rest) == seq![word] + words_of(rest),
{
    lemma_blank_start(a, Seq::empty());
    assert(a + Seq::empty() =~= a);
    let t = word + rest;
    assert(a + word + rest =~= a + t);
    assert(t[0] == word[0]);
    lemma_blank_start(a, t);
    let k = word.len() as int;
    assert forall|j: int| 0 <= j < k implies !whitespace(t[j]) by {
        assert(t[j] == word[j]);
    }
    if k < t.len() {
        assert(t[k] == rest[0]);
    }
    lemma_first_space(t, k);
    assert(t.take(k) =~= word);
    assert(t.skip(k) =~= rest);
}

/// Two lists are joined as one: the separator stands between all neighbours and nowhere
/// else.
pub proof fn law_joining_goes_list_by_list(
    a: Seq<Seq<char>>,
    b: Seq<Seq<char>>,
    sep: Seq<char>,
)
    requires
        a.len() > 0,
        b.len() > 0,
    ensures
        joined(seq![a[0]], sep) == a[0],
        joined(a + b, sep) == joined(a, sep) + sep + joined(b, sep),
    decreases b.len(),
{
    let all = a + b;
    let front = b.drop_last();
    assert(all.drop_last() =~= a + front);
    assert(all.last() == b.last());
    if b.len() == 1 {
        assert(a + front =~= a);
    } else {
        law_joining_goes_list_by_list(a, front, sep);
        assert(joined(all, sep) =~= joined(a, sep) + sep + joined(b, sep));
    }
}

/// Only capital letters are made small, each into its own small one; nothing else
/// changes, and a second time nothing does.
pub proof fn law_only_capital_letters_are_made_small(s: Seq<char>, i: int)
    requires
        0 <= i < s.len(),
    ensures
        ascii_small(s).len() == s.len(),
        'A' <= s[i] <= 'Z' ==> 'a' <= ascii_small(s)[i] <= 'z' && ascii_small(s)[i] as int
            - 'a' as int == s[i] as int - 'A' as int,
        !('A' <= s[i] <= 'Z') ==> ascii_small(s)[i] == s[i],
        ascii_small(ascii_small(s)) == ascii_small(s),
{
    assert forall|k: int| 0 <= k < s.len() implies #[trigger] ascii_small(ascii_small(s))[k]
        == ascii_small(s)[k] by {
        assert(small(small(s[k])) == small(s[k]));
    }
    assert(ascii_small(ascii_small(s)) =~= ascii_small(s));
}

/// A signed number is written with its sign in front, where it is negative, and its
/// size behind it.
pub proof fn law_signed_numbers_read_back(n: int)
    ensures
        n >= 0 ==> all_digits(signed_decimal(n)) && number_of(signed_decimal(n)) == n,
        n < 0 ==> {
            let s = signed_decimal(n);
            s.len() > 1 && s[0] == '-' && all_digits(s.skip(1)) && number_of(s.skip(1)) == -n
        },
{
    if n >= 0 {
        law_decimal_reads_back(n as nat);
    } else {
        law_decimal_reads_back((-n) as nat);
        let s = signed_decimal(n);
        reveal_strlit("-");
        assert(s.skip(1) =~= decimal((-n) as nat));
    }
}

/// A number is read as it is written, with or without a plus sign, and nothing but
/// digits is read as a number.
pub proof fn law_unsigned_numbers_are_read(n: nat, s: Seq<char>)
    ensures
        unsigned_of(decimal(n)) == Some(n as int),
        unsigned_of(seq!['+'] + decimal(n)) == Some(n as int),
        s.len() == 0 ==> unsigned_of(s) is None,
        s.len() > 0 && s[0] != '+' && !all_digits(s) ==> unsigned_of(s) is None,
        s.len() > 0 && s[0] == '+' && (s.len() == 1 || !all_digits(s.skip(1))) ==> unsigned_of(
            s,
        ) is None,
{
    law_decimal_reads_back(n);
    assert('0' <= decimal(n)[0] <= '9');
    assert((seq!['+'] + decimal(n)).skip(1) =~= decimal(n));
}

/// Characters are counted one by one.
pub proof fn law_characters_are_counted(s: Seq<char>, last: char, c: char)
    ensures
        count_of(Seq::empty(), c) == 0,
        count_of(s.push(last), c) == count_of(s, c) + if last == c {
            1int
        } else {
            0
        },
{
    assert(s.push(last).drop_last() =~= s);
}

/// Of the ASCII characters, white space is the space, the tab and what ends a line or a
/// page; letters, digits and marks are not. Control characters are those below the space
/// and the last one.
pub proof fn law_white_space_of_ascii(c: char)
    requires
        c as u32 <= 0x7F,
    ensures
        whitespace(c) <==> c == ' ' || c == '\t' || c == '\n' || c == '\r' || c as u32 == 0x0B
            || c as u32 == 0x0C,
        control(c) <==> (c as u32) < (' ' as u32) || c as u32 == 0x7F,
{
}

} // verus!
