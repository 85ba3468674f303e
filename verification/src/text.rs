//! Text as sequences of characters: the handful of string operations that the
//! rest of the library builds on, each pinned to a spec function.
use vstd::prelude::*;
use vstd::string::*;
use vstd::utf8::is_ascii_chars;

verus! {

/// `String::push`: the text grows by exactly the given character.
pub assume_specification[ String::push ](s: &mut String, ch: char)
    ensures
        final(s)@ == old(s)@.push(ch),
;

// ---------------------------------------------------------------------------
// Text and character vectors
// ---------------------------------------------------------------------------

/// The characters of `s`, in order.
pub fn to_chars(s: &str) -> (r: Vec<char>)
    ensures
        r@ == s@,
{
    let mut out: Vec<char> = Vec::new();
    for c in it: s.chars()
        invariant
            it.seq() == s@,
            out@ == s@.take(it.index()),
    {
        out.push(c);
    }
    assert(s@.take(s@.len() as int) =~= s@);
    out
}

/// The text that the characters spell.
pub fn from_chars(chars: &[char]) -> (r: String)
    ensures
        r@ == chars@,
{
    let mut out = String::new();
    for i in 0..chars.len()
        invariant
            out@ == chars@.take(i as int),
    {
        out.push(chars[i]);
    }
    assert(chars@.take(chars@.len() as int) =~= chars@);
    out
}

/// Whether the two texts are the same, character for character.
pub fn same(a: &str, b: &str) -> (r: bool)
    ensures
        r == (a@ == b@),
{
    a.to_owned() == b.to_owned()
}

// ---------------------------------------------------------------------------
// Decimal numbers
// ---------------------------------------------------------------------------

/// The decimal digit of `d` (below ten).
pub open spec fn digit(d: int) -> char {
    (48 + d) as char
}

/// `n` in decimal, without leading zeros.
pub open spec fn decimal(n: nat) -> Seq<char>
    decreases n,
{
    if n < 10 {
        seq![digit(n as int)]
    } else {
        decimal(n / 10).push(digit((n % 10) as int))
    }
}

/// Writes `n` in decimal.
pub fn dec(n: u64) -> (r: String)
    ensures
        r@ == decimal(n as nat),
    decreases n,
{
    let last: u8 = (n % 10) as u8;
    let c: char = (48 + last) as char;
    if n < 10 {
        let mut s = String::new();
        s.push(c);
        assert(s@ =~= decimal(n as nat));
        s
    } else {
        let mut s = dec(n / 10);
        s.push(c);
        s
    }
}

/// `s` filled up on the left with zeros to at least `width` characters.
pub open spec fn zero_padded(s: Seq<char>, width: nat) -> Seq<char> {
    if s.len() >= width {
        s
    } else {
        Seq::new((width - s.len()) as nat, |i: int| '0') + s
    }
}

/// Writes `n` in decimal with at least `width` digits.
pub fn dec_padded(n: u64, width: usize) -> (r: String)
    ensures
        r@ == zero_padded(decimal(n as nat), width as nat),
{
    let digits = to_chars(dec(n).as_str());
    let mut s = String::new();
    let mut missing: usize = if digits.len() < width { width - digits.len() } else { 0 };
    let ghost pad = missing as nat;
    while missing > 0
        invariant
            missing <= pad,
            s@ =~= Seq::new((pad - missing) as nat, |i: int| '0'),
        decreases missing,
    {
        s.push('0');
        missing = missing - 1;
    }
    s.append(from_chars(digits.as_slice()).as_str());
    assert(s@ =~= zero_padded(decimal(n as nat), width as nat));
    s
}

/// The lower-case hexadecimal digit of `d` (below sixteen).
pub open spec fn hex_digit(d: int) -> char {
    if d < 10 {
        digit(d)
    } else {
        (87 + d) as char
    }
}

/// `n` in hexadecimal with exactly `width` digits (the lowest ones).
pub open spec fn hexadecimal(n: nat, width: nat) -> Seq<char>
    decreases width,
{
    if width == 0 {
        Seq::empty()
    } else {
        hexadecimal(n / 16, (width - 1) as nat).push(hex_digit((n % 16) as int))
    }
}

/// Writes the lowest `width` hexadecimal digits of `n`.
pub fn hex_padded(n: u64, width: usize) -> (r: String)
    ensures
        r@ == hexadecimal(n as nat, width as nat),
    decreases width,
{
    if width == 0 {
        let s = String::new();
        assert(s@ =~= hexadecimal(n as nat, 0));
        s
    } else {
        let mut s = hex_padded(n / 16, width - 1);
        let low: u8 = (n % 16) as u8;
        let c: char = if low < 10 { (48 + low) as char } else { (87 + low) as char };
        s.push(c);
        s
    }
}

/// `n / unit` to the nearest integer, a tie going to the even neighbour (the
/// rule by which a number is printed with a fixed number of decimals).
pub open spec fn nearest_even(n: nat, unit: nat) -> nat {
    let q = n / unit;
    let r = n % unit;
    if 2 * r < unit || (2 * r == unit && q % 2 == 0) {
        q
    } else {
        q + 1
    }
}

/// A number of `scale`-ths with its decimal point: `scale` is ten to the power
/// of `places`.
pub open spec fn fixed_point(n: nat, scale: nat, places: nat) -> Seq<char> {
    decimal(n / scale) + "."@ + zero_padded(decimal(n % scale), places)
}

/// A number of microseconds as seconds with six decimals.
pub open spec fn seconds6(us: nat) -> Seq<char> {
    fixed_point(us, 1_000_000, 6)
}

/// A number of microseconds as seconds with three decimals.
pub open spec fn seconds3(us: nat) -> Seq<char> {
    fixed_point(nearest_even(us, 1_000), 1_000, 3)
}

/// A number of microseconds as seconds with one decimal.
pub open spec fn seconds1(us: nat) -> Seq<char> {
    fixed_point(nearest_even(us, 100_000), 10, 1)
}

fn round_to_even(n: u64, unit: u64) -> (r: u64)
    requires
        2 <= unit <= 1_000_000,
    ensures
        r == nearest_even(n as nat, unit as nat),
{
    let q: u64 = n / unit;
    let rest: u64 = n % unit;
    assert(q < u64::MAX) by (nonlinear_arith)
        requires
            q == n / unit,
            unit >= 2,
            n <= u64::MAX,
    ;
    if 2 * rest < unit || (2 * rest == unit && q % 2 == 0) {
        q
    } else {
        q + 1
    }
}

/// `n / unit` to the nearest integer, a tie going to the even neighbour.
pub fn to_nearest_even(n: u128, unit: u64) -> (r: u128)
    requires
        unit >= 1,
    ensures
        r == nearest_even(n as nat, unit as nat),
{
    let q: u128 = n / unit as u128;
    let rest: u128 = n % unit as u128;
    if 2 * rest < unit as u128 || (2 * rest == unit as u128 && q % 2 == 0) {
        q
    } else {
        assert(q < u128::MAX) by (nonlinear_arith)
            requires
                q == n / (unit as u128),
                rest == n % (unit as u128),
                rest > 0,
                unit >= 1,
        ;
        q + 1
    }
}

fn fixed(n: u64, scale: u64, places: usize) -> (r: String)
    requires
        scale > 0,
    ensures
        r@ == fixed_point(n as nat, scale as nat, places as nat),
{
    let mut s = dec(n / scale);
    s.append(".");
    s.append(dec_padded(n % scale, places).as_str());
    s
}

/// Writes microseconds as seconds with six decimals.
pub fn seconds_6(us: u64) -> (r: String)
    ensures
        r@ == seconds6(us as nat),
{
    fixed(us, 1_000_000, 6)
}

/// Writes microseconds as seconds with three decimals.
pub fn seconds_3(us: u64) -> (r: String)
    ensures
        r@ == seconds3(us as nat),
{
    fixed(round_to_even(us, 1_000), 1_000, 3)
}

/// Writes microseconds as seconds with two decimals.
pub fn seconds_2(us: u64) -> (r: String)
    ensures
        r@ == fixed_point(nearest_even(us as nat, 10_000), 100, 2),
{
    fixed(round_to_even(us, 10_000), 100, 2)
}

/// Writes microseconds as seconds with one decimal.
pub fn seconds_1(us: u64) -> (r: String)
    ensures
        r@ == seconds1(us as nat),
{
    fixed(round_to_even(us, 100_000), 10, 1)
}

/// A signed decimal number.
pub open spec fn signed_decimal(n: int) -> Seq<char> {
    if n < 0 {
        "-"@ + decimal((-n) as nat)
    } else {
        decimal(n as nat)
    }
}

/// Writes `n` in decimal, with a minus sign where it is negative.
pub fn dec_signed(n: i64) -> (r: String)
    ensures
        r@ == signed_decimal(n as int),
{
    if n < 0 {
        let mut s = "-".to_owned();
        s.append(dec((-(n as i128)) as u64).as_str());
        s
    } else {
        dec(n as u64)
    }
}

// ---------------------------------------------------------------------------
// Lists of texts
// ---------------------------------------------------------------------------

/// The texts of a list, as sequences of characters.
pub open spec fn views(list: Seq<String>) -> Seq<Seq<char>> {
    Seq::new(list.len(), |i: int| list[i]@)
}

/// Appends one text to a list.
pub fn put(list: &mut Vec<String>, s: &str)
    ensures
        views(final(list)@) == views(old(list)@).push(s@),
        final(list)@.len() == old(list)@.len() + 1,
{
    list.push(s.to_owned());
    assert(views(list@) =~= views(old(list)@).push(s@));
}

/// Appends every text of `more` to a list.
pub fn put_all(list: &mut Vec<String>, more: &[String])
    ensures
        views(final(list)@) == views(old(list)@) + views(more@),
        final(list)@.len() == old(list)@.len() + more@.len(),
{
    for i in 0..more.len()
        invariant
            views(list@) =~= views(old(list)@) + views(more@).take(i as int),
            list@.len() == old(list)@.len() + i,
    {
        put(list, more[i].as_str());
    }
    assert(views(more@).take(more@.len() as int) =~= views(more@));
}

/// The texts of a list one after the other, with `sep` between neighbours.
pub open spec fn joined(list: Seq<Seq<char>>, sep: Seq<char>) -> Seq<char>
    decreases list.len(),
{
    if list.len() == 0 {
        Seq::empty()
    } else if list.len() == 1 {
        list[0]
    } else {
        joined(list.drop_last(), sep) + sep + list.last()
    }
}

/// Joins the texts of a list with `sep` between neighbours.
pub fn join(list: &[String], sep: &str) -> (r: String)
    ensures
        r@ == joined(views(list@), sep@),
{
    let mut out = String::new();
    for i in 0..list.len()
        invariant
            out@ =~= joined(views(list@).take(i as int), sep@),
    {
        let ghost before = views(list@).take(i as int);
        let ghost after = views(list@).take(i + 1);
        assert(after.drop_last() =~= before);
        assert(after.last() == list@[i as int]@);
        if i > 0 {
            out.append(sep);
        }
        out.append(list[i].as_str());
    }
    assert(views(list@).take(list@.len() as int) =~= views(list@));
    out
}

/// Whether `list` holds a text equal to `s`.
pub fn holds(list: &[String], s: &str) -> (r: bool)
    ensures
        r == views(list@).contains(s@),
{
    for i in 0..list.len()
        invariant
            forall|j: int| 0 <= j < i ==> list@[j]@ != s@,
    {
        if same(list[i].as_str(), s) {
            assert(views(list@)[i as int] == s@);
            return true;
        }
    }
    false
}

// ---------------------------------------------------------------------------
// Searching
// ---------------------------------------------------------------------------

/// Whether `needle` stands in `hay` at position `at`.
pub open spec fn occurs_at(hay: Seq<char>, needle: Seq<char>, at: int) -> bool {
    0 <= at && at + needle.len() <= hay.len() && hay.subrange(at, at + needle.len()) == needle
}

/// Whether `needle` stands anywhere in `hay`.
pub open spec fn contains(hay: Seq<char>, needle: Seq<char>) -> bool {
    exists|at: int| occurs_at(hay, needle, at)
}

/// Whether `hay` begins with `prefix`.
pub open spec fn starts(hay: Seq<char>, prefix: Seq<char>) -> bool {
    occurs_at(hay, prefix, 0)
}

/// Whether `hay` ends with `suffix`.
pub open spec fn ends(hay: Seq<char>, suffix: Seq<char>) -> bool {
    occurs_at(hay, suffix, hay.len() - suffix.len())
}

pub fn matches_at(hay: &[char], needle: &[char], at: usize) -> (r: bool)
    requires
        at + needle@.len() <= hay@.len(),
    ensures
        r == occurs_at(hay@, needle@, at as int),
{
    for i in 0..needle.len()
        invariant
            at + needle.len() <= hay.len(),
            forall|j: int| 0 <= j < i ==> hay@[at + j] == needle@[j],
    {
        if hay[at + i] != needle[i] {
            assert(hay@.subrange(at as int, at + needle@.len())[i as int] != needle@[i as int]);
            return false;
        }
    }
    assert(hay@.subrange(at as int, at + needle@.len()) =~= needle@);
    true
}

/// Whether the character list `needle` stands in `hay`.
pub fn chars_contain(hay: &[char], needle: &[char]) -> (r: bool)
    ensures
        r == contains(hay@, needle@),
{
    if needle.len() > hay.len() {
        return false;
    }
    let last: usize = hay.len() - needle.len();
    let mut at: usize = 0;
    loop
        invariant
            last == hay@.len() - needle@.len(),
            at <= last,
            forall|k: int| 0 <= k < at ==> !occurs_at(hay@, needle@, k),
        decreases last - at,
    {
        if matches_at(hay, needle, at) {
            return true;
        }
        if at == last {
            return false;
        }
        at = at + 1;
    }
}

/// Whether `needle` stands in `hay`.
pub fn has(hay: &str, needle: &str) -> (r: bool)
    ensures
        r == contains(hay@, needle@),
{
    chars_contain(to_chars(hay).as_slice(), to_chars(needle).as_slice())
}

/// Whether `hay` begins with `prefix`.
pub fn has_prefix(hay: &str, prefix: &str) -> (r: bool)
    ensures
        r == starts(hay@, prefix@),
{
    let h = to_chars(hay);
    let p = to_chars(prefix);
    p.len() <= h.len() && matches_at(h.as_slice(), p.as_slice(), 0)
}

/// Whether `hay` ends with `suffix`.
pub fn has_suffix(hay: &str, suffix: &str) -> (r: bool)
    ensures
        r == ends(hay@, suffix@),
{
    let h = to_chars(hay);
    let p = to_chars(suffix);
    p.len() <= h.len() && matches_at(h.as_slice(), p.as_slice(), h.len() - p.len())
}

/// Whether any of the texts in `needles` stands in `hay`.
pub open spec fn contains_any(hay: Seq<char>, needles: Seq<Seq<char>>) -> bool {
    exists|i: int| 0 <= i < needles.len() && contains(hay, #[trigger] needles[i])
}

/// Whether any of the texts in `needles` stands in `hay`.
pub fn has_any(hay: &str, needles: &[String]) -> (r: bool)
    ensures
        r == contains_any(hay@, views(needles@)),
{
    let h = to_chars(hay);
    for i in 0..needles.len()
        invariant
            h@ == hay@,
            forall|j: int| 0 <= j < i ==> !contains(hay@, #[trigger] views(needles@)[j]),
    {
        if chars_contain(h.as_slice(), to_chars(needles[i].as_str()).as_slice()) {
            assert(contains(hay@, views(needles@)[i as int]));
            return true;
        }
    }
    false
}

/// The position of the first `c` in `s`, or the length of `s` where there is none.
pub open spec fn first_index(s: Seq<char>, c: char) -> int
    decreases s.len(),
{
    if s.len() == 0 || s[0] == c {
        0
    } else {
        1 + first_index(s.skip(1), c)
    }
}

pub proof fn lemma_first_index(s: Seq<char>, c: char, at: int)
    requires
        0 <= at <= s.len(),
        forall|j: int| 0 <= j < at ==> s[j] != c,
        at < s.len() ==> s[at] == c,
    ensures
        first_index(s, c) == at,
    decreases s.len(),
{
    if at > 0 {
        assert forall|j: int| 0 <= j < at - 1 implies s.skip(1)[j] != c by {
            assert(s[j + 1] != c);
        }
        lemma_first_index(s.skip(1), c, at - 1);
    }
}

pub proof fn lemma_first_index_bounds(s: Seq<char>, c: char)
    ensures
        0 <= first_index(s, c) <= s.len(),
        first_index(s, c) < s.len() ==> s[first_index(s, c)] == c,
        forall|j: int| 0 <= j < first_index(s, c) ==> s[j] != c,
    decreases s.len(),
{
    if s.len() > 0 && s[0] != c {
        lemma_first_index_bounds(s.skip(1), c);
        assert forall|j: int| 0 <= j < first_index(s, c) implies s[j] != c by {
            if j > 0 {
                assert(s.skip(1)[j - 1] != c);
            }
        }
    }
}

/// The position of the first `c` at or after `from`, or the length where there is none.
pub fn index_from(s: &[char], from: usize, c: char) -> (r: usize)
    requires
        from <= s@.len(),
    ensures
        from <= r <= s@.len(),
        r == from + first_index(s@.skip(from as int), c),
        r < s@.len() ==> s@[r as int] == c,
        forall|j: int| from <= j < r ==> s@[j] != c,
{
    let mut i: usize = from;
    while i < s.len() && s[i] != c
        invariant
            from <= i <= s@.len(),
            forall|j: int| from <= j < i ==> s@[j] != c,
        decreases s@.len() - i,
    {
        i = i + 1;
    }
    proof {
        lemma_first_index(s@.skip(from as int), c, i - from);
    }
    i
}

/// A copy of the characters from `from` up to `to`.
pub fn slice_of(s: &[char], from: usize, to: usize) -> (r: Vec<char>)
    requires
        from <= to <= s@.len(),
    ensures
        r@ == s@.subrange(from as int, to as int),
{
    let mut out: Vec<char> = Vec::new();
    for i in from..to
        invariant
            from <= to <= s@.len(),
            out@ =~= s@.subrange(from as int, i as int),
    {
        out.push(s[i]);
    }
    out
}

// ---------------------------------------------------------------------------
// White space
// ---------------------------------------------------------------------------

/// The characters with the Unicode property White_Space.
pub open spec fn whitespace(c: char) -> bool {
    let u = c as u32;
    ||| 9 <= u <= 13
    ||| u == 0x20
    ||| u == 0x85
    ||| u == 0xA0
    ||| u == 0x1680
    ||| 0x2000 <= u <= 0x200A
    ||| u == 0x2028
    ||| u == 0x2029
    ||| u == 0x202F
    ||| u == 0x205F
    ||| u == 0x3000
}

/// Whether `c` is white space.
pub fn is_whitespace(c: char) -> (r: bool)
    ensures
        r == whitespace(c),
{
    let u: u32 = c as u32;
    (9 <= u && u <= 13) || u == 0x20 || u == 0x85 || u == 0xA0 || u == 0x1680 || (0x2000 <= u && u
        <= 0x200A) || u == 0x2028 || u == 0x2029 || u == 0x202F || u == 0x205F || u == 0x3000
}

/// The control characters (Unicode category Cc).
pub open spec fn control(c: char) -> bool {
    let u = c as u32;
    u < 0x20 || 0x7F <= u < 0xA0
}

/// Whether `c` is a control character.
pub fn is_control(c: char) -> (r: bool)
    ensures
        r == control(c),
{
    let u: u32 = c as u32;
    u < 0x20 || (0x7F <= u && u < 0xA0)
}

/// `s` without the white space it begins with.
pub open spec fn trimmed_start(s: Seq<char>) -> Seq<char>
    decreases s.len(),
{
    if s.len() > 0 && whitespace(s[0]) {
        trimmed_start(s.skip(1))
    } else {
        s
    }
}

/// `s` without the white space it ends with.
pub open spec fn trimmed_end(s: Seq<char>) -> Seq<char>
    decreases s.len(),
{
    if s.len() > 0 && whitespace(s.last()) {
        trimmed_end(s.drop_last())
    } else {
        s
    }
}

/// `s` without the white space around it.
pub open spec fn trimmed(s: Seq<char>) -> Seq<char> {
    trimmed_end(trimmed_start(s))
}

/// The characters of `s` without the white space around them.
pub fn trim_chars(s: &[char]) -> (r: Vec<char>)
    ensures
        r@ == trimmed(s@),
{
    let mut from: usize = 0;
    assert(s@.skip(0) =~= s@);
    while from < s.len() && is_whitespace(s[from])
        invariant
            from <= s@.len(),
            trimmed_start(s@) == trimmed_start(s@.skip(from as int)),
        decreases s@.len() - from,
    {
        assert(s@.skip(from as int).skip(1) =~= s@.skip(from + 1));
        from = from + 1;
    }
    let ghost rest = s@.skip(from as int);
    assert(trimmed_start(s@) == rest);
    let mut to: usize = s.len();
    assert(s@.subrange(from as int, to as int) =~= rest);
    while to > from && is_whitespace(s[to - 1])
        invariant
            from <= to <= s@.len(),
            trimmed_end(rest) == trimmed_end(s@.subrange(from as int, to as int)),
        decreases to,
    {
        assert(s@.subrange(from as int, to as int).drop_last() =~= s@.subrange(
            from as int,
            to - 1,
        ));
        to = to - 1;
    }
    slice_of(s, from, to)
}

/// `s` without the white space around it.
pub fn trim(s: &str) -> (r: String)
    ensures
        r@ == trimmed(s@),
{
    from_chars(trim_chars(to_chars(s).as_slice()).as_slice())
}

/// `s` without the white space it begins with.
pub fn trim_start(s: &str) -> (r: String)
    ensures
        r@ == trimmed_start(s@),
{
    let chars = to_chars(s);
    let mut from: usize = 0;
    assert(chars@.skip(0) =~= chars@);
    while from < chars.len() && is_whitespace(chars[from])
        invariant
            from <= chars@.len(),
            trimmed_start(chars@) == trimmed_start(chars@.skip(from as int)),
        decreases chars@.len() - from,
    {
        assert(chars@.skip(from as int).skip(1) =~= chars@.skip(from + 1));
        from = from + 1;
    }
    let r = from_chars(slice_of(chars.as_slice(), from, chars.len()).as_slice());
    assert(r@ =~= chars@.skip(from as int));
    r
}

/// `s` without the white space it ends with.
pub fn trim_end(s: &str) -> (r: String)
    ensures
        r@ == trimmed_end(s@),
{
    let chars = to_chars(s);
    let mut to: usize = chars.len();
    assert(chars@.take(to as int) =~= chars@);
    while to > 0 && is_whitespace(chars[to - 1])
        invariant
            to <= chars@.len(),
            trimmed_end(chars@) == trimmed_end(chars@.take(to as int)),
        decreases to,
    {
        assert(chars@.take(to as int).drop_last() =~= chars@.take(to - 1));
        to = to - 1;
    }
    let r = from_chars(slice_of(chars.as_slice(), 0, to).as_slice());
    assert(r@ =~= chars@.take(to as int));
    r
}

/// Trimming leaves nothing to trim: the text neither begins nor ends with white
/// space.
pub proof fn law_trimmed_has_no_outer_space(s: Seq<char>)
    ensures
        trimmed(s).len() > 0 ==> !whitespace(trimmed(s)[0]) && !whitespace(trimmed(s).last()),
        trimmed(trimmed(s)) == trimmed(s),
{
    lemma_trimmed_start(s);
    lemma_trimmed_end(trimmed_start(s));
}

/// Whether all of a text is white space.
pub open spec fn blank(s: Seq<char>) -> bool {
    forall|i: int| 0 <= i < s.len() ==> whitespace(#[trigger] s[i])
}

/// Trimming drops white space alone, and only around the text.
pub proof fn law_trimming_drops_only_outer_space(s: Seq<char>)
    ensures
        exists|a: Seq<char>, b: Seq<char>|
            blank(a) && blank(b) && s == #[trigger] (a + trimmed(s) + b),
        exists|a: Seq<char>| blank(a) && s == #[trigger] (a + trimmed_start(s)),
        exists|b: Seq<char>| blank(b) && s == #[trigger] (trimmed_end(s) + b),
        trimmed(s).len() == 0 <==> blank(s),
{
    let t = trimmed_start(s);
    let a = lemma_start_is_blank(s);
    let b = lemma_end_is_blank(t);
    let e = lemma_end_is_blank(s);
    assert(s =~= a + trimmed(s) + b);
    law_trimmed_has_no_outer_space(s);
    if trimmed(s).len() == 0 {
        assert forall|i: int| 0 <= i < s.len() implies whitespace(#[trigger] s[i]) by {
            if i < a.len() {
                assert(s[i] == a[i]);
            } else {
                assert(s[i] == b[i - a.len()]);
            }
        }
    } else {
        assert(s[a.len() as int] == trimmed(s)[0]);
    }
}

proof fn lemma_start_is_blank(s: Seq<char>) -> (a: Seq<char>)
    ensures
        blank(a),
        s == a + trimmed_start(s),
    decreases s.len(),
{
    if s.len() > 0 && whitespace(s[0]) {
        let a = lemma_start_is_blank(s.skip(1));
        let all = seq![s[0]] + a;
        assert(s =~= all + trimmed_start(s)) by {
            assert(s =~= seq![s[0]] + s.skip(1));
        }
        all
    } else {
        assert(s =~= Seq::empty() + s);
        Seq::empty()
    }
}

proof fn lemma_end_is_blank(s: Seq<char>) -> (b: Seq<char>)
    ensures
        blank(b),
        s == trimmed_end(s) + b,
    decreases s.len(),
{
    if s.len() > 0 && whitespace(s.last()) {
        let b = lemma_end_is_blank(s.drop_last());
        let all = b.push(s.last());
        assert(s =~= trimmed_end(s) + all) by {
            assert(s =~= s.drop_last().push(s.last()));
        }
        all
    } else {
        assert(s =~= s + Seq::empty());
        Seq::empty()
    }
}

pub proof fn lemma_trimmed_start(s: Seq<char>)
    ensures
        trimmed_start(s).len() > 0 ==> !whitespace(trimmed_start(s)[0]),
    decreases s.len(),
{
    if s.len() > 0 && whitespace(s[0]) {
        lemma_trimmed_start(s.skip(1));
    }
}

pub proof fn lemma_trimmed_end(s: Seq<char>)
    ensures
        trimmed_end(s).len() > 0 ==> !whitespace(trimmed_end(s).last()) && trimmed_end(s)[0]
            == s[0],
    decreases s.len(),
{
    if s.len() > 0 && whitespace(s.last()) {
        lemma_trimmed_end(s.drop_last());
    }
}

/// What is left of a trimmed text is a stretch of it.
pub proof fn lemma_trimmed_part(s: Seq<char>) -> (part: (int, int))
    ensures
        0 <= part.0 <= part.1 <= s.len(),
        trimmed(s) == s.subrange(part.0, part.1),
{
    let from = lemma_trimmed_start_part(s);
    let to = lemma_trimmed_end_part(s.skip(from));
    assert(s.skip(from).take(to) =~= s.subrange(from, from + to));
    (from, from + to)
}

proof fn lemma_trimmed_start_part(s: Seq<char>) -> (from: int)
    ensures
        0 <= from <= s.len(),
        trimmed_start(s) == s.skip(from),
    decreases s.len(),
{
    if s.len() > 0 && whitespace(s[0]) {
        let k = lemma_trimmed_start_part(s.skip(1));
        assert(s.skip(1).skip(k) =~= s.skip(k + 1));
        k + 1
    } else {
        assert(s.skip(0) =~= s);
        0
    }
}

proof fn lemma_trimmed_end_part(s: Seq<char>) -> (to: int)
    ensures
        0 <= to <= s.len(),
        trimmed_end(s) == s.take(to),
    decreases s.len(),
{
    if s.len() > 0 && whitespace(s.last()) {
        let k = lemma_trimmed_end_part(s.drop_last());
        assert(s.drop_last().take(k) =~= s.take(k));
        k
    } else {
        assert(s.take(s.len() as int) =~= s);
        s.len() as int
    }
}

// ---------------------------------------------------------------------------
// Lines and pieces
// ---------------------------------------------------------------------------

/// A line without the carriage return that its line end may have.
pub open spec fn without_cr(s: Seq<char>) -> Seq<char> {
    if s.len() > 0 && s.last() == '\r' {
        s.drop_last()
    } else {
        s
    }
}

/// The lines of a text: each ends at a line feed (with or without a carriage
/// return before it), the last one at the end of the text; a text that ends in
/// a line feed has no empty line after it.
pub open spec fn lines_of(s: Seq<char>) -> Seq<Seq<char>>
    decreases s.len(),
{
    if s.len() == 0 {
        Seq::empty()
    } else {
        proof {
            lemma_first_index_bounds(s, '\n');
        }
        let k = first_index(s, '\n');
        if k == s.len() {
            seq![s]
        } else {
            seq![without_cr(s.take(k))] + lines_of(s.skip(k + 1))
        }
    }
}

/// Splits a text into its lines.
pub fn lines(s: &str) -> (r: Vec<String>)
    ensures
        views(r@) == lines_of(s@),
{
    let chars = to_chars(s);
    let mut out: Vec<String> = Vec::new();
    let mut from: usize = 0;
    assert(s@.skip(0) =~= s@);
    while from < chars.len()
        invariant
            chars@ == s@,
            from <= chars@.len(),
            views(out@) + lines_of(chars@.skip(from as int)) =~= lines_of(chars@),
        decreases chars@.len() - from,
    {
        let ghost rest = chars@.skip(from as int);
        let end = index_from(chars.as_slice(), from, '\n');
        if end == chars.len() {
            put(&mut out, from_chars(slice_of(chars.as_slice(), from, end).as_slice()).as_str());
            assert(chars@.subrange(from as int, end as int) =~= rest);
            assert(chars@.skip(chars@.len() as int) =~= Seq::empty());
            assert(lines_of(chars@.skip(chars@.len() as int)) =~= Seq::empty());
            from = end;
        } else {
            let stop: usize = if end > from && chars[end - 1] == '\r' { end - 1 } else { end };
            put(&mut out, from_chars(slice_of(chars.as_slice(), from, stop).as_slice()).as_str());
            assert(rest.take(end - from) =~= chars@.subrange(from as int, end as int));
            assert(without_cr(rest.take(end - from)) =~= chars@.subrange(from as int, stop as int));
            assert(rest.skip(end - from + 1) =~= chars@.skip(end + 1));
            from = end + 1;
        }
    }
    assert(chars@.skip(from as int) =~= Seq::empty());
    assert(lines_of(chars@.skip(from as int)) =~= Seq::empty());
    out
}

/// The position of the first white space in `s`, or its length where there is none.
pub open spec fn first_space(s: Seq<char>) -> int
    decreases s.len(),
{
    if s.len() == 0 || whitespace(s[0]) {
        0
    } else {
        1 + first_space(s.skip(1))
    }
}

pub proof fn lemma_first_space(s: Seq<char>, at: int)
    requires
        0 <= at <= s.len(),
        forall|j: int| 0 <= j < at ==> !whitespace(s[j]),
        at < s.len() ==> whitespace(s[at]),
    ensures
        first_space(s) == at,
    decreases s.len(),
{
    if at > 0 {
        assert forall|j: int| 0 <= j < at - 1 implies !whitespace(s.skip(1)[j]) by {
            assert(!whitespace(s[j + 1]));
        }
        lemma_first_space(s.skip(1), at - 1);
    }
}

pub proof fn lemma_first_space_bounds(s: Seq<char>)
    ensures
        0 <= first_space(s) <= s.len(),
        s.len() > 0 && !whitespace(s[0]) ==> first_space(s) > 0,
    decreases s.len(),
{
    if s.len() > 0 && !whitespace(s[0]) {
        lemma_first_space_bounds(s.skip(1));
    }
}

pub proof fn lemma_trimmed_start_len(s: Seq<char>)
    ensures
        trimmed_start(s).len() <= s.len(),
    decreases s.len(),
{
    if s.len() > 0 && whitespace(s[0]) {
        lemma_trimmed_start_len(s.skip(1));
    }
}

/// The words of a text: its longest stretches without white space.
pub open spec fn words_of(s: Seq<char>) -> Seq<Seq<char>>
    decreases s.len(),
{
    let t = trimmed_start(s);
    if t.len() == 0 {
        Seq::empty()
    } else {
        proof {
            lemma_trimmed_start_len(s);
            lemma_trimmed_start(s);
            lemma_first_space_bounds(t);
        }
        let k = first_space(t);
        seq![t.take(k)] + words_of(t.skip(k))
    }
}

/// Splits a text into its words.
pub fn words(s: &str) -> (r: Vec<String>)
    ensures
        views(r@) == words_of(s@),
{
    let chars = to_chars(s);
    let mut out: Vec<String> = Vec::new();
    let mut from: usize = 0;
    assert(s@.skip(0) =~= s@);
    loop
        invariant
            chars@ == s@,
            from <= chars@.len(),
            views(out@) + words_of(chars@.skip(from as int)) =~= words_of(chars@),
        decreases chars@.len() - from,
    {
        let ghost rest = chars@.skip(from as int);
        let mut start: usize = from;
        while start < chars.len() && is_whitespace(chars[start])
            invariant
                from <= start <= chars@.len(),
                rest == chars@.skip(from as int),
                trimmed_start(rest) == trimmed_start(chars@.skip(start as int)),
            decreases chars@.len() - start,
        {
            assert(chars@.skip(start as int).skip(1) =~= chars@.skip(start + 1));
            start = start + 1;
        }
        let ghost t = chars@.skip(start as int);
        assert(trimmed_start(rest) == t);
        if start == chars.len() {
            assert(words_of(rest) =~= Seq::empty());
            return out;
        }
        let mut end: usize = start;
        while end < chars.len() && !is_whitespace(chars[end])
            invariant
                start <= end <= chars@.len(),
                forall|j: int| start <= j < end ==> !whitespace(chars@[j]),
            decreases chars@.len() - end,
        {
            end = end + 1;
        }
        proof {
            lemma_first_space(t, end - start);
            assert(t.take(end - start) =~= chars@.subrange(start as int, end as int));
            assert(t.skip(end - start) =~= chars@.skip(end as int));
        }
        put(&mut out, from_chars(slice_of(chars.as_slice(), start, end).as_slice()).as_str());
        from = end;
    }
}

// ---------------------------------------------------------------------------
// Letter case
// ---------------------------------------------------------------------------

/// `c` with an ASCII capital letter made small.
pub open spec fn small(c: char) -> char {
    if 'A' <= c <= 'Z' {
        (c as u32 + 32) as char
    } else {
        c
    }
}

/// `s` with its ASCII capital letters made small.
pub open spec fn ascii_small(s: Seq<char>) -> Seq<char> {
    Seq::new(s.len(), |i: int| small(s[i]))
}

fn to_small(c: char) -> (r: char)
    ensures
        r == small(c),
{
    let u: u32 = c as u32;
    if 65 <= u && u <= 90 {
        (u as u8 + 32) as char
    } else {
        c
    }
}

/// Whether the two texts are the same but for the case of ASCII letters.
pub fn same_ignoring_case(a: &str, b: &str) -> (r: bool)
    ensures
        r == (ascii_small(a@) == ascii_small(b@)),
{
    let x = to_chars(a);
    let y = to_chars(b);
    if x.len() != y.len() {
        assert(ascii_small(a@).len() != ascii_small(b@).len());
        return false;
    }
    for i in 0..x.len()
        invariant
            x@ == a@,
            y@ == b@,
            x@.len() == y@.len(),
            forall|j: int| 0 <= j < i ==> small(x@[j]) == small(y@[j]),
    {
        if to_small(x[i]) != to_small(y[i]) {
            assert(ascii_small(a@)[i as int] != ascii_small(b@)[i as int]);
            return false;
        }
    }
    assert(ascii_small(a@) =~= ascii_small(b@));
    true
}

/// The text that `str::to_lowercase` gives for a text.
pub uninterp spec fn lowercase(s: Seq<char>) -> Seq<char>;

/// A text in lower case: one of ASCII characters with its capital letters made
/// small, any other as `str::to_lowercase` gives it.
pub open spec fn lowered(s: Seq<char>) -> Seq<char> {
    if is_ascii_chars(s) {
        ascii_small(s)
    } else {
        lowercase(s)
    }
}

/// `str::to_lowercase`, whose result depends on the text alone (the Unicode
/// lower-case mapping); on a text of ASCII characters it makes the capital
/// letters small and leaves everything else.
#[verifier::external_body]
pub(crate) fn to_lowercase(s: &str) -> (r: String)
    ensures
        r@ == (if is_ascii_chars(s@) {
            ascii_small(s@)
        } else {
            lowercase(s@)
        }),
{
    s.to_lowercase()
}

/// A list of the given texts.
pub fn list(parts: Vec<&str>) -> (r: Vec<String>)
    ensures
        views(r@) == Seq::new(parts@.len(), |i: int| parts@[i]@),
{
    let mut out: Vec<String> = Vec::new();
    for i in 0..parts.len()
        invariant
            views(out@) =~= Seq::new(i as nat, |j: int| parts@[j]@),
    {
        put(&mut out, parts[i]);
    }
    out
}

// ---------------------------------------------------------------------------
// Numbers read back
// ---------------------------------------------------------------------------

/// The number that a row of decimal digits stands for.
pub open spec fn number_of(s: Seq<char>) -> int
    decreases s.len(),
{
    if s.len() == 0 {
        0
    } else {
        number_of(s.drop_last()) * 10 + (s.last() as int - 48)
    }
}

/// Whether every character is a decimal digit.
pub open spec fn all_digits(s: Seq<char>) -> bool {
    forall|i: int| 0 <= i < s.len() ==> '0' <= #[trigger] s[i] <= '9'
}

/// A number written in decimal consists of digits, and reads back as itself.
pub proof fn law_decimal_reads_back(n: nat)
    ensures
        decimal(n).len() >= 1,
        all_digits(decimal(n)),
        number_of(decimal(n)) == n,
    decreases n,
{
    if n < 10 {
        reveal_with_fuel(number_of, 2);
        assert(decimal(n).drop_last() =~= Seq::empty());
    } else {
        law_decimal_reads_back(n / 10);
        assert(decimal(n).drop_last() =~= decimal(n / 10));
        let d = (n % 10) as int;
        assert(digit(d) as int == 48 + d);
        assert forall|i: int| 0 <= i < decimal(n).len() implies '0' <= #[trigger] decimal(n)[i]
            <= '9' by {
            if i < decimal(n / 10).len() {
                assert(decimal(n)[i] == decimal(n / 10)[i]);
            }
        }
    }
}

/// The number that a text spells in decimal digits, with an optional plus sign.
pub open spec fn unsigned_of(s: Seq<char>) -> Option<int> {
    let digits = if s.len() > 0 && s[0] == '+' {
        s.skip(1)
    } else {
        s
    };
    if digits.len() == 0 || !all_digits(digits) {
        None
    } else {
        Some(number_of(digits))
    }
}

/// Longer rows of digits stand for numbers at least as large.
pub proof fn lemma_number_grows(s: Seq<char>, n: int)
    requires
        all_digits(s),
        0 <= n <= s.len(),
    ensures
        0 <= number_of(s.take(n)) <= number_of(s),
    decreases s.len() - n,
{
    if n < s.len() {
        lemma_number_grows(s, n + 1);
        assert(s.take(n + 1).drop_last() =~= s.take(n));
        assert('0' <= s[n] <= '9');
        lemma_number_not_negative(s.take(n));
    } else {
        assert(s.take(n) =~= s);
        lemma_number_not_negative(s);
    }
}

proof fn lemma_number_not_negative(s: Seq<char>)
    requires
        all_digits(s),
    ensures
        number_of(s) >= 0,
    decreases s.len(),
{
    if s.len() > 0 {
        let front = s.drop_last();
        assert forall|i: int| 0 <= i < front.len() implies '0' <= #[trigger] front[i] <= '9' by {
            assert(front[i] == s[i]);
        }
        lemma_number_not_negative(front);
        assert(s.last() == s[s.len() - 1]);
    }
}

/// Reads a number that a text spells, where it is at most `max`.
pub fn parse_unsigned(s: &str, max: u64) -> (r: Option<u64>)
    ensures
        match r {
            Some(n) => unsigned_of(s@) == Some(n as int) && n <= max,
            None => unsigned_of(s@) is None || unsigned_of(s@)->0 > max,
        },
{
    let chars = to_chars(s);
    let from: usize = if chars.len() > 0 && chars[0] == '+' { 1 } else { 0 };
    let ghost digits = if s@.len() > 0 && s@[0] == '+' {
        s@.skip(1)
    } else {
        s@
    };
    assert(digits =~= chars@.skip(from as int));
    if from == chars.len() {
        return None;
    }
    for i in from..chars.len()
        invariant
            digits == chars@.skip(from as int),
            !all_digits(digits) ==> unsigned_of(s@) is None,
            from < chars@.len(),
            forall|j: int| 0 <= j < i - from ==> '0' <= #[trigger] digits[j] <= '9',
    {
        assert(digits[i - from] == chars@[i as int]);
        if chars[i] < '0' || chars[i] > '9' {
            assert(!all_digits(digits));
            return None;
        }
    }
    let mut value: u64 = 0;
    assert(digits.take(0) =~= Seq::empty());
    for i in from..chars.len()
        invariant
            chars@ == s@,
            digits == chars@.skip(from as int),
            all_digits(digits),
            unsigned_of(s@) == Some(number_of(digits)),
            value == number_of(digits.take(i - from)),
            value <= max,
    {
        proof {
            assert(digits.take(i - from + 1).drop_last() =~= digits.take(i - from));
            assert(digits[i - from] == chars@[i as int]);
            assert('0' <= digits[i - from] <= '9');
            lemma_number_grows(digits, i - from + 1);
        }
        let d: u64 = chars[i] as u64 - 48;
        if value > max / 10 || (value == max / 10 && d > max % 10) {
            assert(value * 10 + d > max);
            return None;
        }
        assert(value * 10 + d <= max);
        value = value * 10 + d;
    }
    assert(digits.take(chars@.len() - from) =~= digits);
    Some(value)
}

/// How often `c` stands in `s`.
pub open spec fn count_of(s: Seq<char>, c: char) -> nat
    decreases s.len(),
{
    if s.len() == 0 {
        0
    } else {
        count_of(s.drop_last(), c) + if s.last() == c {
            1nat
        } else {
            0
        }
    }
}

/// Counts how often `c` stands in `s`.
pub fn count_char(s: &str, c: char) -> (r: usize)
    ensures
        r == count_of(s@, c),
{
    let chars = to_chars(s);
    let mut n: usize = 0;
    for i in 0..chars.len()
        invariant
            n <= i,
            n == count_of(chars@.take(i as int), c),
    {
        assert(chars@.take(i + 1).drop_last() =~= chars@.take(i as int));
        if chars[i] == c {
            n = n + 1;
        }
    }
    assert(chars@.take(chars@.len() as int) =~= chars@);
    n
}

proof fn lemma_zeros(k: nat, s: Seq<char>)
    ensures
        number_of(Seq::new(k, |i: int| '0') + s) == number_of(s),
    decreases k + s.len(),
{
    let z = Seq::new(k, |i: int| '0');
    if s.len() > 0 {
        assert((z + s).drop_last() =~= z + s.drop_last());
        assert((z + s).last() == s.last());
        lemma_zeros(k, s.drop_last());
    } else if k > 0 {
        assert((z + s).drop_last() =~= Seq::new((k - 1) as nat, |i: int| '0') + s);
        assert((z + s).last() == '0');
        lemma_zeros((k - 1) as nat, s);
    } else {
        assert(z + s =~= s);
    }
}

/// Zeros in front of a number change neither its value nor that it consists of
/// digits.
pub proof fn law_padded_decimal_reads_back(n: nat, width: nat)
    ensures
        zero_padded(decimal(n), width).len() >= width,
        all_digits(zero_padded(decimal(n), width)),
        number_of(zero_padded(decimal(n), width)) == n,
{
    law_decimal_reads_back(n);
    let s = decimal(n);
    if s.len() < width {
        lemma_zeros((width - s.len()) as nat, s);
        assert forall|i: int| 0 <= i < zero_padded(s, width).len() implies '0'
            <= #[trigger] zero_padded(s, width)[i] <= '9' by {
            if i >= width - s.len() {
                assert(zero_padded(s, width)[i] == s[i - (width - s.len())]);
            }
        }
    }
}

} // verus!
