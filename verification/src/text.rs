//! Character-level text handling: whitespace, trimming, prefixes, line
//! splitting, decimal rendering and string building, each with the
//! mathematical statement of what it computes.
use vstd::prelude::*;

verus! {

/// The Unicode `White_Space` property, which both `char::is_whitespace`
/// and the `\s` class of regular expressions follow.
pub open spec fn is_ws(c: char) -> bool {
    let u = c as u32;
    ||| 9 <= u && u <= 13
    ||| u == 32
    ||| u == 0x85
    ||| u == 0xa0
    ||| u == 0x1680
    ||| 0x2000 <= u && u <= 0x200a
    ||| u == 0x2028
    ||| u == 0x2029
    ||| u == 0x202f
    ||| u == 0x205f
    ||| u == 0x3000
}

/// Whether `c` is whitespace, as `char::is_whitespace` decides it.
pub fn is_whitespace(c: char) -> (r: bool)
    ensures
        r == is_ws(c),
{
    let u = c as u32;
    (9 <= u && u <= 13) || u == 32 || u == 0x85 || u == 0xa0 || u == 0x1680 || (0x2000 <= u && u
        <= 0x200a) || u == 0x2028 || u == 0x2029 || u == 0x202f || u == 0x205f || u == 0x3000
}

/// First index at or after `i` that is not whitespace (or the length).
pub open spec fn ws_prefix_end(s: Seq<char>, i: int) -> int
    decreases s.len() - i,
{
    if 0 <= i < s.len() && is_ws(s[i]) {
        ws_prefix_end(s, i + 1)
    } else {
        i
    }
}

/// Going down from `j`, the first index whose predecessor is not
/// whitespace, never below `lo`.
pub open spec fn ws_suffix_start(s: Seq<char>, lo: int, j: int) -> int
    decreases j - lo,
{
    if lo < j && j <= s.len() && is_ws(s[j - 1]) {
        ws_suffix_start(s, lo, j - 1)
    } else {
        j
    }
}

/// `str::trim`: the text without leading and trailing whitespace.
pub open spec fn trim(s: Seq<char>) -> Seq<char> {
    let a = ws_prefix_end(s, 0);
    s.subrange(a, ws_suffix_start(s, a, s.len() as int))
}

/// `str::trim_start`: the text without leading whitespace.
pub open spec fn trim_start(s: Seq<char>) -> Seq<char> {
    s.subrange(ws_prefix_end(s, 0), s.len() as int)
}

pub open spec fn starts_with(s: Seq<char>, p: Seq<char>) -> bool {
    p.len() <= s.len() && s.subrange(0, p.len() as int) == p
}

pub open spec fn ends_with(s: Seq<char>, p: Seq<char>) -> bool {
    p.len() <= s.len() && s.subrange(s.len() - p.len(), s.len() as int) == p
}

proof fn lemma_ws_prefix_end_bounds(s: Seq<char>, i: int)
    requires
        0 <= i <= s.len(),
    ensures
        i <= ws_prefix_end(s, i) <= s.len(),
    decreases s.len() - i,
{
    if i < s.len() && is_ws(s[i]) {
        lemma_ws_prefix_end_bounds(s, i + 1);
    }
}

proof fn lemma_ws_suffix_start_bounds(s: Seq<char>, lo: int, j: int)
    requires
        0 <= lo <= j <= s.len(),
    ensures
        lo <= ws_suffix_start(s, lo, j) <= j,
    decreases j - lo,
{
    if lo < j && is_ws(s[j - 1]) {
        lemma_ws_suffix_start_bounds(s, lo, j - 1);
    }
}

/// The characters of a string slice.
pub fn chars_of(s: &str) -> (v: Vec<char>)
    ensures
        v@ == s@,
{
    let mut v: Vec<char> = Vec::new();
    for c in it: s.chars()
        invariant
            v@ == it.seq().take(it.index() as int),
            it.seq() == s@,
    {
        v.push(c);
    }
    v
}

/// Appends one character to a string (`String::push`).
#[verifier::external_body]
pub(crate) fn push_char(s: &mut String, c: char)
    ensures
        final(s)@ == old(s)@.push(c),
{
    s.push(c);
}

/// The string made of the given characters.
pub fn string_of(v: &[char]) -> (s: String)
    ensures
        s@ == v@,
{
    let mut s = String::new();
    let mut i: usize = 0;
    while i < v.len()
        invariant
            i <= v@.len(),
            s@ == v@.take(i as int),
        decreases v@.len() - i,
    {
        push_char(&mut s, v[i]);
        assert(v@.take(i as int).push(v@[i as int]) =~= v@.take(i + 1));
        i = i + 1;
    }
    assert(v@.take(v@.len() as int) =~= v@);
    s
}

/// Appends a string slice to a string.
pub fn push_str(s: &mut String, t: &str)
    ensures
        final(s)@ == old(s)@ + t@,
{
    s.append(t);
}

/// An owned copy of a string slice.
pub fn owned(t: &str) -> (s: String)
    ensures
        s@ == t@,
{
    String::from_str(t)
}

/// The characters `v[a..b]`.
pub fn sub_chars(v: &[char], a: usize, b: usize) -> (r: Vec<char>)
    requires
        a <= b <= v@.len(),
    ensures
        r@ == v@.subrange(a as int, b as int),
{
    let mut r: Vec<char> = Vec::new();
    let mut i: usize = a;
    while i < b
        invariant
            a <= i <= b <= v@.len(),
            r@ == v@.subrange(a as int, i as int),
        decreases b - i,
    {
        r.push(v[i]);
        assert(v@.subrange(a as int, i as int).push(v@[i as int]) =~= v@.subrange(
            a as int,
            i + 1,
        ));
        i = i + 1;
    }
    r
}

/// Index of the first non-whitespace character.
fn prefix_end(v: &[char]) -> (a: usize)
    ensures
        a == ws_prefix_end(v@, 0),
        a <= v@.len(),
{
    let mut i: usize = 0;
    proof {
        lemma_ws_prefix_end_bounds(v@, 0);
    }
    while i < v.len() && is_whitespace(v[i])
        invariant
            i <= v@.len(),
            ws_prefix_end(v@, i as int) == ws_prefix_end(v@, 0),
        decreases v@.len() - i,
    {
        i = i + 1;
    }
    i
}

/// `str::trim` on characters.
pub fn trim_chars(v: &[char]) -> (r: Vec<char>)
    ensures
        r@ == trim(v@),
{
    let a = prefix_end(v);
    let mut b: usize = v.len();
    proof {
        lemma_ws_suffix_start_bounds(v@, a as int, v@.len() as int);
    }
    while a < b && is_whitespace(v[b - 1])
        invariant
            a <= b <= v@.len(),
            ws_suffix_start(v@, a as int, b as int) == ws_suffix_start(
                v@,
                a as int,
                v@.len() as int,
            ),
        decreases b,
    {
        b = b - 1;
    }
    sub_chars(v, a, b)
}

/// Whether the characters begin with the given text.
pub fn starts_with_str(v: &[char], p: &str) -> (r: bool)
    ensures
        r == starts_with(v@, p@),
{
    let pv = chars_of(p);
    if pv.len() > v.len() {
        return false;
    }
    let mut i: usize = 0;
    while i < pv.len()
        invariant
            pv@ == p@,
            pv@.len() <= v@.len(),
            i <= pv@.len(),
            forall|k: int| 0 <= k < i ==> v@[k] == pv@[k],
        decreases pv@.len() - i,
    {
        if v[i] != pv[i] {
            assert(v@.subrange(0, pv@.len() as int)[i as int] != pv@[i as int]);
            return false;
        }
        i = i + 1;
    }
    assert(v@.subrange(0, pv@.len() as int) =~= pv@);
    true
}

/// Whether two character sequences are equal.
pub fn chars_eq(a: &[char], b: &[char]) -> (r: bool)
    ensures
        r == (a@ == b@),
{
    if a.len() != b.len() {
        return false;
    }
    let mut i: usize = 0;
    while i < a.len()
        invariant
            a@.len() == b@.len(),
            i <= a@.len(),
            forall|k: int| 0 <= k < i ==> a@[k] == b@[k],
        decreases a@.len() - i,
    {
        if a[i] != b[i] {
            return false;
        }
        i = i + 1;
    }
    assert(a@ =~= b@);
    true
}

/// Whether a string slice equals the given text.
pub fn str_eq(a: &str, b: &str) -> (r: bool)
    ensures
        r == (a@ == b@),
{
    let av = chars_of(a);
    let bv = chars_of(b);
    chars_eq(av.as_slice(), bv.as_slice())
}

/// First index at or after `i` that does not hold `c` (or the length).
pub open spec fn char_prefix_end(s: Seq<char>, c: char, i: int) -> int
    decreases s.len() - i,
{
    if 0 <= i < s.len() && s[i] == c {
        char_prefix_end(s, c, i + 1)
    } else {
        i
    }
}

/// Going down from `j`, the first index whose predecessor is not `c`,
/// never below `lo`.
pub open spec fn char_suffix_start(s: Seq<char>, c: char, lo: int, j: int) -> int
    decreases j - lo,
{
    if lo < j && j <= s.len() && s[j - 1] == c {
        char_suffix_start(s, c, lo, j - 1)
    } else {
        j
    }
}

/// `str::trim_matches` with one character: the text without leading and
/// trailing occurrences of `c`.
pub open spec fn trim_char(s: Seq<char>, c: char) -> Seq<char> {
    let a = char_prefix_end(s, c, 0);
    s.subrange(a, char_suffix_start(s, c, a, s.len() as int))
}

/// Removes every leading and trailing occurrence of `c`.
pub fn trim_char_chars(v: &[char], c: char) -> (r: Vec<char>)
    ensures
        r@ == trim_char(v@, c),
{
    let mut a: usize = 0;
    while a < v.len() && v[a] == c
        invariant
            a <= v@.len(),
            char_prefix_end(v@, c, a as int) == char_prefix_end(v@, c, 0),
        decreases v@.len() - a,
    {
        a = a + 1;
    }
    let mut b: usize = v.len();
    while b > a && v[b - 1] == c
        invariant
            a <= b <= v@.len(),
            a == char_prefix_end(v@, c, 0),
            char_suffix_start(v@, c, a as int, b as int) == char_suffix_start(v@, c, a as int, v@.len() as int),
        decreases b - a,
    {
        b = b - 1;
    }
    sub_chars(v, a, b)
}

// ---------------------------------------------------------------------------
// Lines, as `str::lines` yields them
// ---------------------------------------------------------------------------
/// First index at or after `i` holding a line feed (or the length).
pub open spec fn next_newline(s: Seq<char>, i: int) -> int
    decreases s.len() - i,
{
    if 0 <= i < s.len() && s[i] != '\n' {
        next_newline(s, i + 1)
    } else {
        i
    }
}

/// The line that starts at `i` and ends before the line feed at `j`
/// (or at the end of the text), without a carriage return that stands
/// directly before that line feed.
pub open spec fn line_between(s: Seq<char>, i: int, j: int) -> Seq<char> {
    let raw = s.subrange(i, j);
    if j < s.len() && raw.len() > 0 && raw.last() == '\r' {
        raw.drop_last()
    } else {
        raw
    }
}

/// The lines that start at position `i` of the text.
pub open spec fn lines_from(s: Seq<char>, i: int) -> Seq<Seq<char>>
    decreases s.len() - i,
{
    if i < 0 || i >= s.len() {
        Seq::empty()
    } else {
        let j = next_newline(s, i);
        if j < i || j > s.len() {
            Seq::empty()
        } else if j == s.len() {
            seq![line_between(s, i, j)]
        } else {
            seq![line_between(s, i, j)] + lines_from(s, j + 1)
        }
    }
}

/// `str::lines`: the text split at line feeds, each line without its line
/// ending (a line feed, or a carriage return and a line feed); a final
/// line ending adds no empty line.
pub open spec fn lines(s: Seq<char>) -> Seq<Seq<char>> {
    lines_from(s, 0)
}

proof fn lemma_next_newline_bounds(s: Seq<char>, i: int)
    requires
        0 <= i <= s.len(),
    ensures
        i <= next_newline(s, i) <= s.len(),
        next_newline(s, i) < s.len() ==> s[next_newline(s, i)] == '\n',
    decreases s.len() - i,
{
    if i < s.len() && s[i] != '\n' {
        lemma_next_newline_bounds(s, i + 1);
    }
}

/// No character of the text is a line feed.
pub open spec fn single_line(s: Seq<char>) -> bool {
    forall|k: int| 0 <= k < s.len() ==> s[k] != '\n'
}

proof fn lemma_next_newline_clear(s: Seq<char>, i: int)
    requires
        0 <= i <= s.len(),
    ensures
        forall|k: int| i <= k < next_newline(s, i) ==> s[k] != '\n',
    decreases s.len() - i,
{
    if i < s.len() && s[i] != '\n' {
        lemma_next_newline_clear(s, i + 1);
    }
}

/// No line of a text holds a line feed.
pub proof fn lemma_lines_single(s: Seq<char>, i: int)
    requires
        0 <= i,
    ensures
        forall|k: int| 0 <= k < lines_from(s, i).len() ==> single_line(#[trigger] lines_from(s, i)[k]),
    decreases s.len() - i,
{
    if i < s.len() {
        let j = next_newline(s, i);
        lemma_next_newline_bounds(s, i);
        lemma_next_newline_clear(s, i);
        let l = line_between(s, i, j);
        assert(single_line(l)) by {
            assert forall|k: int| 0 <= k < l.len() implies l[k] != '\n' by {
                assert(l[k] == s[i + k]);
            }
        }
        if j < s.len() {
            lemma_lines_single(s, j + 1);
            let rest = lines_from(s, j + 1);
            assert forall|k: int| 0 <= k < lines_from(s, i).len() implies single_line(#[trigger] lines_from(s, i)[k]) by {
                assert(lines_from(s, i) == seq![l] + rest);
                if k > 0 {
                    assert(lines_from(s, i)[k] == rest[k - 1]);
                }
            }
        }
    }
}

/// Trimming a text without line feeds leaves none.
pub proof fn lemma_trim_single(s: Seq<char>)
    requires
        single_line(s),
    ensures
        single_line(trim(s)),
{
    let a = ws_prefix_end(s, 0);
    lemma_ws_prefix_end_bounds(s, 0);
    lemma_ws_suffix_start_bounds(s, a, s.len() as int);
    let t = trim(s);
    assert forall|k: int| 0 <= k < t.len() implies t[k] != '\n' by {
        assert(t[k] == s[a + k]);
    }
}

/// The lines of the text, each as its characters.
pub fn split_lines(v: &[char]) -> (r: Vec<Vec<char>>)
    ensures
        r@.len() == lines(v@).len(),
        forall|k: int| 0 <= k < r@.len() ==> #[trigger] r@[k]@ == lines(v@)[k],
{
    let mut r: Vec<Vec<char>> = Vec::new();
    let mut i: usize = 0;
    while i < v.len()
        invariant
            i <= v@.len(),
            r@.len() + lines_from(v@, i as int).len() == lines(v@).len(),
            forall|k: int| 0 <= k < r@.len() ==> #[trigger] r@[k]@ == lines(v@)[k],
            forall|k: int|
                0 <= k < lines_from(v@, i as int).len() ==> #[trigger] lines_from(
                    v@,
                    i as int,
                )[k] == lines(v@)[r@.len() + k],
        decreases v@.len() - i,
    {
        let mut j: usize = i;
        proof {
            lemma_next_newline_bounds(v@, i as int);
        }
        while j < v.len() && v[j] != '\n'
            invariant
                i <= j <= v@.len(),
                next_newline(v@, j as int) == next_newline(v@, i as int),
            decreases v@.len() - j,
        {
            j = j + 1;
        }
        let mut end: usize = j;
        if j < v.len() && j > i && v[j - 1] == '\r' {
            end = j - 1;
        }
        let line = sub_chars(v, i, end);
        let ghost rest = lines_from(v@, i as int);
        assert(line@ == line_between(v@, i as int, j as int));
        if j < v.len() {
            assert(rest == seq![line_between(v@, i as int, j as int)] + lines_from(v@, j + 1));
            assert(rest[0] == line@);
            assert forall|k: int|
                0 <= k < lines_from(v@, j + 1).len() implies #[trigger] lines_from(v@, j + 1)[k]
                == lines(v@)[r@.len() + 1 + k] by {
                assert(lines_from(v@, j + 1)[k] == rest[k + 1]);
            }
            r.push(line);
            i = j + 1;
        } else {
            assert(rest == seq![line_between(v@, i as int, j as int)]);
            assert(rest[0] == line@);
            r.push(line);
            i = j;
            assert(lines_from(v@, i as int).len() == 0);
        }
    }
    r
}

/// Lines joined with a line feed between neighbours (`[String]::join("\n")`).
pub open spec fn join_lines(ls: Seq<Seq<char>>) -> Seq<char>
    decreases ls.len(),
{
    if ls.len() == 0 {
        Seq::empty()
    } else if ls.len() == 1 {
        ls[0]
    } else {
        join_lines(ls.drop_last()) + seq!['\n'] + ls.last()
    }
}

/// Joins strings with a line feed between neighbours.
pub fn join_with_newline(ls: &Vec<String>) -> (r: String)
    ensures
        r@ == join_lines(ls@.map_values(|l: String| l@)),
{
    let ghost views = ls@.map_values(|l: String| l@);
    let mut r = String::new();
    let mut i: usize = 0;
    while i < ls.len()
        invariant
            i <= ls@.len(),
            views == ls@.map_values(|l: String| l@),
            r@ == join_lines(views.take(i as int)),
        decreases ls@.len() - i,
    {
        assert(views.take(i + 1).drop_last() =~= views.take(i as int));
        if i > 0 {
            push_char(&mut r, '\n');
        }
        r.append(ls[i].as_str());
        i = i + 1;
    }
    assert(views.take(ls@.len() as int) =~= views);
    r
}

// ---------------------------------------------------------------------------
// Decimal numbers
// ---------------------------------------------------------------------------
pub open spec fn digit_char(d: nat) -> char {
    if d == 0 {
        '0'
    } else if d == 1 {
        '1'
    } else if d == 2 {
        '2'
    } else if d == 3 {
        '3'
    } else if d == 4 {
        '4'
    } else if d == 5 {
        '5'
    } else if d == 6 {
        '6'
    } else if d == 7 {
        '7'
    } else if d == 8 {
        '8'
    } else {
        '9'
    }
}

/// The decimal notation of a natural number, as `{}` formats it.
pub open spec fn decimal(n: nat) -> Seq<char>
    decreases n,
{
    if n < 10 {
        seq![digit_char(n)]
    } else {
        decimal(n / 10).push(digit_char(n % 10))
    }
}

fn digit(d: usize) -> (c: char)
    requires
        d < 10,
    ensures
        c == digit_char(d as nat),
{
    if d == 0 {
        '0'
    } else if d == 1 {
        '1'
    } else if d == 2 {
        '2'
    } else if d == 3 {
        '3'
    } else if d == 4 {
        '4'
    } else if d == 5 {
        '5'
    } else if d == 6 {
        '6'
    } else if d == 7 {
        '7'
    } else if d == 8 {
        '8'
    } else {
        '9'
    }
}

/// The decimal notation of `n`.
pub fn decimal_string(n: usize) -> (s: String)
    ensures
        s@ == decimal(n as nat),
    decreases n,
{
    if n < 10 {
        let mut s = String::new();
        push_char(&mut s, digit(n));
        s
    } else {
        let mut s = decimal_string(n / 10);
        push_char(&mut s, digit(n % 10));
        s
    }
}


/// Whether `needle` occurs in `hay`, as a run of consecutive characters.
pub open spec fn contains_text(hay: Seq<char>, needle: Seq<char>) -> bool {
    exists|i: int|
        0 <= i && i + needle.len() <= hay.len() && #[trigger] hay.subrange(i, i + needle.len()) == needle
}

/// A text contains what stands in its middle.
pub proof fn lemma_contains_middle(x: Seq<char>, needle: Seq<char>, z: Seq<char>)
    ensures
        contains_text(x + needle + z, needle),
{
    let h = x + needle + z;
    assert(h.subrange(x.len() as int, (x.len() + needle.len()) as int) =~= needle);
}

/// A text contains what a part of it contains.
pub proof fn lemma_contains_within(x: Seq<char>, y: Seq<char>, z: Seq<char>, needle: Seq<char>)
    requires
        contains_text(y, needle),
    ensures
        contains_text(x + y + z, needle),
{
    let i = choose|i: int|
        0 <= i && i + needle.len() <= y.len() && #[trigger] y.subrange(i, i + needle.len()) == needle;
    let h = x + y + z;
    assert(h.subrange(x.len() + i, x.len() + i + needle.len()) =~= y.subrange(i, i + needle.len()));
}

} // verus!
