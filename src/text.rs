use vstd::prelude::*;

verus! {

pub uninterp spec fn alphanumeric(c: char) -> bool;

/// Relies on `char::is_alphanumeric`: alphabetic or numeric in the Unicode sense,
/// which on ASCII means a letter or a digit.
#[verifier::external_body]
fn is_alphanumeric(c: char) -> (r: bool)
    ensures
        r == alphanumeric(c),
        ('a' <= c <= 'z' || 'A' <= c <= 'Z' || '0' <= c <= '9') ==> r,
        (c as u32) < 128 && !('a' <= c <= 'z' || 'A' <= c <= 'Z' || '0' <= c <= '9') ==> !r,
{
    c.is_alphanumeric()
}

/// The characters of `s`, in order.
pub fn chars_of(s: &str) -> (r: Vec<char>)
    ensures
        r@ == s@,
{
    let mut r: Vec<char> = Vec::new();
    for c in it: s.chars()
        invariant
            r@ == it.seq().take(it.index() as int),
    {
        r.push(c);
    }
    r
}


/// A character that can stand inside a word: alphanumeric, `_` or `-`.
pub open spec fn word_char(c: char) -> bool {
    alphanumeric(c) || c == '_' || c == '-'
}

/// `w` occurs in `s` at `i` as a whole token: every character of `w` is a word
/// character and neither neighbour of the occurrence is one.
pub open spec fn word_at(s: Seq<char>, w: Seq<char>, i: int) -> bool {
    &&& 0 <= i && i + w.len() <= s.len()
    &&& s.subrange(i, i + w.len()) == w
    &&& forall|k: int| 0 <= k < w.len() ==> word_char(#[trigger] w[k])
    &&& (i == 0 || !word_char(s[i - 1]))
    &&& (i + w.len() == s.len() || !word_char(s[i + w.len()]))
}

/// Splitting `s` at every non-word character yields a piece equal to `w`.
pub open spec fn has_word(s: Seq<char>, w: Seq<char>) -> bool {
    exists|i: int| word_at(s, w, i)
}

/// `w` occurs in `s` as a contiguous run of characters.
pub open spec fn has_substring(s: Seq<char>, w: Seq<char>) -> bool {
    exists|i: int| 0 <= i && i + w.len() <= s.len() && #[trigger] s.subrange(i, i + w.len()) == w
}

pub fn is_word_char(c: char) -> (r: bool)
    ensures
        r == word_char(c),
{
    c == '_' || c == '-' || is_alphanumeric(c)
}

/// Whether `s[i..i + w.len()]` equals `w`.
pub fn matches_at(s: &Vec<char>, w: &Vec<char>, i: usize) -> (r: bool)
    requires
        i + w.len() <= s.len(),
    ensures
        r == (s@.subrange(i as int, i + w.len()) == w@),
{
    let mut k: usize = 0;
    while k < w.len()
        invariant
            i + w.len() <= s.len(),
            k <= w.len(),
            forall|j: int| 0 <= j < k ==> s@[i + j] == w@[j],
        decreases w.len() - k,
    {
        if s[i + k] != w[k] {
            assert(s@.subrange(i as int, i + w.len())[k as int] != w@[k as int]);
            return false;
        }
        k = k + 1;
    }
    assert(s@.subrange(i as int, i + w.len()) =~= w@);
    true
}

/// Whether every character of `w` is a word character.
fn all_word_chars(w: &Vec<char>) -> (r: bool)
    ensures
        r == (forall|k: int| 0 <= k < w.len() ==> word_char(#[trigger] w@[k])),
{
    let mut k: usize = 0;
    while k < w.len()
        invariant
            k <= w.len(),
            forall|j: int| 0 <= j < k ==> word_char(#[trigger] w@[j]),
        decreases w.len() - k,
    {
        if !is_word_char(w[k]) {
            return false;
        }
        k = k + 1;
    }
    true
}

/// Whole-token search over characters.
pub fn contains_word(s: &Vec<char>, w: &Vec<char>) -> (r: bool)
    ensures
        r == has_word(s@, w@),
{
    if !all_word_chars(w) {
        assert(forall|i: int| !word_at(s@, w@, i));
        return false;
    }
    if w.len() > s.len() {
        assert(forall|i: int| !word_at(s@, w@, i));
        return false;
    }
    let last: usize = s.len() - w.len();
    let mut i: usize = 0;
    while i <= last
        invariant
            last == s.len() - w.len(),
            w.len() <= s.len(),
            forall|k: int| 0 <= k < w.len() ==> word_char(#[trigger] w@[k]),
            i <= last,
            forall|j: int| 0 <= j < i ==> !word_at(s@, w@, j),
        ensures
            forall|j: int| 0 <= j <= last ==> !word_at(s@, w@, j),
        decreases last - i,
    {
        let left_ok = i == 0 || !is_word_char(s[i - 1]);
        if left_ok {
            let end: usize = i + w.len();
            let right_ok = end == s.len() || !is_word_char(s[end]);
            if right_ok && matches_at(s, w, i) {
                assert(word_at(s@, w@, i as int));
                return true;
            }
        }
        if i == last {
            break;
        }
        i = i + 1;
    }
    assert(forall|j: int| !word_at(s@, w@, j)) by {
        assert forall|j: int| !word_at(s@, w@, j) by {
            if j > last {
                assert(j + w.len() > s.len());
            }
        }
    }
    false
}

/// Plain substring search over characters.
pub fn contains_substring(s: &Vec<char>, w: &Vec<char>) -> (r: bool)
    ensures
        r == has_substring(s@, w@),
{
    if w.len() > s.len() {
        return false;
    }
    let last: usize = s.len() - w.len();
    let mut i: usize = 0;
    while i <= last
        invariant
            last == s.len() - w.len(),
            w.len() <= s.len(),
            i <= last,
            forall|j: int| 0 <= j < i ==> #[trigger] s@.subrange(j, j + w.len()) != w@,
        ensures
            forall|j: int| 0 <= j <= last ==> #[trigger] s@.subrange(j, j + w.len()) != w@,
        decreases last - i,
    {
        if matches_at(s, w, i) {
            return true;
        }
        if i == last {
            break;
        }
        i = i + 1;
    }
    assert forall|j: int| 0 <= j && j + w.len() <= s.len() implies #[trigger] s@.subrange(j, j + w.len()) != w@ by {
        assert(j <= last);
    }
    false
}


pub uninterp spec fn white_space(c: char) -> bool;

/// Relies on `char::is_whitespace`: the Unicode `White_Space` property, which on
/// ASCII holds of the space and of tab through carriage return.
#[verifier::external_body]
fn is_whitespace(c: char) -> (r: bool)
    ensures
        r == white_space(c),
        (c as u32) < 128 ==> (r <==> (c == ' ' || ('\t' <= c <= '\r'))),
{
    c.is_whitespace()
}

/// Position `a` holds the first non-blank character of `s`, and a comment opens there.
pub open spec fn comment_opens_at(s: Seq<char>, a: int) -> bool {
    &&& 0 <= a && a + 1 < s.len()
    &&& forall|k: int| 0 <= k < a ==> white_space(#[trigger] s[k])
    &&& s[a] == '/' && (s[a + 1] == '/' || s[a + 1] == '*')
}

/// A line that is blank, or whose first non-blank characters open a comment.
pub open spec fn ignored_line(s: Seq<char>) -> bool {
    (forall|k: int| 0 <= k < s.len() ==> white_space(#[trigger] s[k]))
    || exists|a: int| comment_opens_at(s, a)
}

/// Whether the line is skipped by pattern extraction: empty after trimming, or
/// starting with `//` or `/*` after trimming.
pub fn is_ignored_line(line: &Vec<char>) -> (r: bool)
    ensures
        r == ignored_line(line@),
{
    let mut a: usize = 0;
    while a < line.len()
        invariant
            a <= line.len(),
            forall|k: int| 0 <= k < a ==> white_space(#[trigger] line@[k]),
            forall|k: int| 0 <= k < a ==> #[trigger] line@[k] != '/',
        decreases line.len() - a,
    {
        if !is_whitespace(line[a]) {
            let r = line[a] == '/' && a + 1 < line.len() && (line[a + 1] == '/' || line[a + 1] == '*');
            if !r {
                assert forall|b: int| !comment_opens_at(line@, b) by {
                    if comment_opens_at(line@, b) {
                        if b < a {
                            assert(line@[b] != '/');
                        } else if b > a {
                            assert(white_space(line@[a as int]));
                        }
                    }
                }
            } else {
                assert(comment_opens_at(line@, a as int));
            }
            return r;
        }
        a = a + 1;
    }
    true
}

/// A line ended by a newline loses one carriage return before it.
pub open spec fn strip_cr(l: Seq<char>) -> Seq<char> {
    if l.len() > 0 && l.last() == '\r' { l.drop_last() } else { l }
}

/// After the first `n` characters of `s`: the lines already ended and the line in progress.
pub open spec fn split_state(s: Seq<char>, n: int) -> (Seq<Seq<char>>, Seq<char>)
    decreases n,
{
    if n <= 0 {
        (Seq::empty(), Seq::empty())
    } else {
        let (done, cur) = split_state(s, n - 1);
        if s[n - 1] == '\n' {
            (done.push(strip_cr(cur)), Seq::empty())
        } else {
            (done, cur.push(s[n - 1]))
        }
    }
}

/// The lines of `s`: split at `\n`, a `\r` before it dropped, no empty last line.
pub open spec fn lines_of(s: Seq<char>) -> Seq<Seq<char>> {
    let (done, cur) = split_state(s, s.len() as int);
    if cur.len() > 0 { done.push(cur) } else { done }
}

/// Relies on `str::lines`, which splits as `lines_of` states.
#[verifier::external_body]
pub(crate) fn lines(s: &str) -> (r: Vec<String>)
    ensures
        r@.map_values(|l: String| l@) == lines_of(s@),
{
    s.lines().map(|l| l.to_string()).collect()
}

/// The views of a sequence of strings.
pub open spec fn strings_view(v: Seq<String>) -> Seq<Seq<char>> {
    v.map_values(|s: String| s@)
}

/// Whether two character sequences are equal.
pub fn same_chars(a: &Vec<char>, b: &Vec<char>) -> (r: bool)
    ensures
        r == (a@ == b@),
{
    if a.len() != b.len() {
        return false;
    }
    let mut i: usize = 0;
    while i < a.len()
        invariant
            a.len() == b.len(),
            i <= a.len(),
            forall|k: int| 0 <= k < i ==> a@[k] == b@[k],
        decreases a.len() - i,
    {
        if a[i] != b[i] {
            return false;
        }
        i = i + 1;
    }
    assert(a@ =~= b@);
    true
}

/// A copy of each string.
pub fn clone_strings(v: &Vec<String>) -> (r: Vec<String>)
    ensures
        strings_view(r@) == strings_view(v@),
{
    let mut r: Vec<String> = Vec::new();
    let mut i: usize = 0;
    while i < v.len()
        invariant
            i <= v.len(),
            strings_view(r@) == strings_view(v@).take(i as int),
        decreases v.len() - i,
    {
        r.push(v[i].clone());
        assert(strings_view(v@).take(i + 1) =~= strings_view(v@).take(i as int).push(v@[i as int]@));
        assert(strings_view(r@) =~= strings_view(v@).take(i as int).push(v@[i as int]@));
        i = i + 1;
    }
    assert(strings_view(v@).take(v.len() as int) =~= strings_view(v@));
    r
}

/// Whether `x` is one of the strings of `list`.
pub fn contains_string(list: &Vec<String>, x: &str) -> (r: bool)
    ensures
        r == strings_view(list@).contains(x@),
{
    let xs = x.to_string();
    let mut i: usize = 0;
    while i < list.len()
        invariant
            i <= list.len(),
            xs@ == x@,
            forall|k: int| 0 <= k < i ==> list@[k]@ != x@,
        decreases list.len() - i,
    {
        if list[i] == xs {
            assert(strings_view(list@)[i as int] == x@);
            return true;
        }
        i = i + 1;
    }
    false
}

/// Index of the first `c` among the first `n` characters of `s`, or -1.
pub open spec fn first_in(s: Seq<char>, c: char, n: int) -> int
    decreases n,
{
    if n <= 0 {
        -1
    } else {
        let r = first_in(s, c, n - 1);
        if r >= 0 { r } else if s[n - 1] == c { n - 1 } else { -1 }
    }
}

/// Index of the last `c` among the first `n` characters of `s`, or -1.
pub open spec fn last_in(s: Seq<char>, c: char, n: int) -> int
    decreases n,
{
    if n <= 0 {
        -1
    } else if s[n - 1] == c {
        n - 1
    } else {
        last_in(s, c, n - 1)
    }
}

/// Index of the first `c` in `s`.
pub fn first_index(s: &Vec<char>, c: char) -> (r: Option<usize>)
    ensures
        r matches Some(i) ==> i == first_in(s@, c, s@.len() as int) && i < s.len(),
        r is None ==> first_in(s@, c, s@.len() as int) == -1,
{
    let mut i: usize = 0;
    while i < s.len()
        invariant
            i <= s.len(),
            first_in(s@, c, i as int) == -1,
        decreases s.len() - i,
    {
        if s[i] == c {
            assert(first_in(s@, c, i + 1) == i);
            proof {
                lemma_first_in_stable(s@, c, i + 1, s@.len() as int);
            }
            return Some(i);
        }
        i = i + 1;
    }
    None
}

pub proof fn lemma_first_in_stable(s: Seq<char>, c: char, n: int, m: int)
    requires
        n <= m,
        first_in(s, c, n) >= 0,
    ensures
        first_in(s, c, m) == first_in(s, c, n),
    decreases m - n,
{
    if m > n {
        lemma_first_in_stable(s, c, n, m - 1);
    }
}

pub proof fn lemma_last_after_first(s: Seq<char>, c: char, n: int)
    requires
        first_in(s, c, n) >= 0,
    ensures
        last_in(s, c, n) >= first_in(s, c, n),
        first_in(s, c, n) < n,
    decreases n,
{
    if n > 0 && first_in(s, c, n - 1) >= 0 {
        lemma_last_after_first(s, c, n - 1);
    }
}

/// Index of the last `c` in `s`.
pub fn last_index(s: &Vec<char>, c: char) -> (r: Option<usize>)
    ensures
        r matches Some(i) ==> i == last_in(s@, c, s@.len() as int) && i < s.len(),
        r is None ==> last_in(s@, c, s@.len() as int) == -1,
{
    let mut i: usize = s.len();
    while i > 0
        invariant
            i <= s.len(),
            last_in(s@, c, s@.len() as int) == last_in(s@, c, i as int),
        decreases i,
    {
        if s[i - 1] == c {
            return Some(i - 1);
        }
        i = i - 1;
    }
    None
}

/// Appends `s[from..to]` to `out`.
pub fn push_range(out: &mut Vec<char>, s: &Vec<char>, from: usize, to: usize)
    requires
        from <= to <= s.len(),
    ensures
        final(out)@ == old(out)@ + s@.subrange(from as int, to as int),
{
    let mut i: usize = from;
    while i < to
        invariant
            from <= i <= to <= s.len(),
            out@ == old(out)@ + s@.subrange(from as int, i as int),
        decreases to - i,
    {
        out.push(s[i]);
        assert(s@.subrange(from as int, i + 1) =~= s@.subrange(from as int, i as int).push(s@[i as int]));
        i = i + 1;
    }
}

} // verus!
