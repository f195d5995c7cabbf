//! Small helpers on paths and collections.
use vstd::prelude::*;
use vstd::string::StrSliceExecFns;
use crate::text::{chars_of, last_in, last_index, lines, lines_of};

verus! {

/// The file name of a `/`-separated path: everything after the last `/`.
pub open spec fn file_name_of(p: Seq<char>) -> Seq<char> {
    p.subrange(last_in(p, '/', p.len() as int) + 1, p.len() as int)
}

/// The extension of a path: what follows the last `.` of its file name, when
/// that `.` is not the name's first character.
pub open spec fn extension_of(p: Seq<char>) -> Option<Seq<char>> {
    let n = file_name_of(p);
    let d = last_in(n, '.', n.len() as int);
    if d > 0 {
        Some(n.subrange(d + 1, n.len() as int))
    } else {
        None
    }
}

pub proof fn lemma_last_in_bounds(s: Seq<char>, c: char, n: int)
    requires
        0 <= n <= s.len(),
    ensures
        -1 <= last_in(s, c, n) < n,
        last_in(s, c, n) >= 0 ==> s[last_in(s, c, n)] == c,
    decreases n,
{
    if n > 0 {
        lemma_last_in_bounds(s, c, n - 1);
    }
}

/// The extension of a path, as `extension_of` states.
pub fn get_file_extension(path: &str) -> (r: Option<String>)
    ensures
        r matches Some(e) ==> extension_of(path@) == Some(e@),
        r is None ==> extension_of(path@) is None,
{
    let p = chars_of(path);
    proof {
        lemma_last_in_bounds(p@, '/', p@.len() as int);
    }
    let start: usize = match last_index(&p, '/') {
        Some(i) => i + 1,
        None => 0,
    };
    let ghost n = file_name_of(p@);
    // the last '.' at or after `start`
    let mut d: usize = p.len();
    while d > start
        invariant
            start <= d <= p.len(),
            n == p@.subrange(start as int, p.len() as int),
            last_in(n, '.', n.len() as int) == last_in(n, '.', d - start),
        ensures
            d > start ==> p@[d - 1] == '.',
            last_in(n, '.', n.len() as int) == last_in(n, '.', d - start),
        decreases d,
    {
        if p[d - 1] == '.' {
            break;
        }
        d = d - 1;
    }
    if d - start > 1 {
        assert(n[d - 1 - start] == '.');
        assert(last_in(n, '.', n.len() as int) == d - 1 - start);
        let e = path.substring_char(d, p.len()).to_string();
        assert(e@ =~= n.subrange(d - start, n.len() as int));
        Some(e)
    } else {
        proof {
            lemma_last_in_bounds(n, '.', d - start);
        }
        None
    }
}

pub open spec fn strs_view(v: Seq<&str>) -> Seq<Seq<char>> {
    v.map_values(|x: &str| x@)
}

/// Whether the path's extension is one of `extensions`.
pub fn has_extension(path: &str, extensions: &[&str]) -> (r: bool)
    ensures
        r == (extension_of(path@) is Some && strs_view(extensions@).contains(extension_of(path@)->Some_0)),
{
    match get_file_extension(path) {
        Some(e) => {
            let ghost xs = strs_view(extensions@);
            let mut i: usize = 0;
            while i < extensions.len()
                invariant
                    i <= extensions.len(),
                    xs == strs_view(extensions@),
                    extension_of(path@) == Some(e@),
                    forall|k: int| 0 <= k < i ==> xs[k] != e@,
                decreases extensions.len() - i,
            {
                let x = extensions[i].to_string();
                assert(xs[i as int] == extensions@[i as int]@);
                if x == e {
                    assert(xs[i as int] == e@);
                    assert(xs.contains(e@));
                    return true;
                }
                i = i + 1;
            }
            false
        },
        None => false,
    }
}

/// How many items make one progress step, for about `target_updates` reports in all.
pub fn calculate_progress_step_size(total: usize, target_updates: usize) -> (r: usize)
    requires
        target_updates > 0,
    ensures
        r == if total / target_updates > 1 { total / target_updates } else { 1 },
{
    let q = total / target_updates;
    if q > 1 { q } else { 1 }
}

/// The first element of each pair, in order.
pub fn extract_first_element<T, U>(items: Vec<(T, U)>) -> (r: Vec<T>)
    ensures
        r@ == items@.map_values(|p: (T, U)| p.0),
{
    let ghost all = items@;
    let mut r: Vec<T> = Vec::new();
    for p in it: items
        invariant
            all == it.seq(),
            r.len() == it.index(),
            forall|k: int| 0 <= k < r.len() ==> r@[k] == (#[trigger] all[k]).0,
    {
        r.push(p.0);
    }
    assert(r@ =~= all.map_values(|p: (T, U)| p.0));
    r
}

/// The second element of each pair, in order.
pub fn extract_second_element<T, U>(items: Vec<(T, U)>) -> (r: Vec<U>)
    ensures
        r@ == items@.map_values(|p: (T, U)| p.1),
{
    let ghost all = items@;
    let mut r: Vec<U> = Vec::new();
    for p in it: items
        invariant
            all == it.seq(),
            r.len() == it.index(),
            forall|k: int| 0 <= k < r.len() ==> r@[k] == (#[trigger] all[k]).1,
    {
        r.push(p.1);
    }
    assert(r@ =~= all.map_values(|p: (T, U)| p.1));
    r
}

pub uninterp spec fn control(c: char) -> bool;

/// Relies on `char::is_control`: the Unicode general category `Cc`.
#[verifier::external_body]
fn is_control(c: char) -> (r: bool)
    ensures
        r == control(c),
        c == '\u{1b}' || c == '\t' ==> r,
        ' ' <= c <= '~' ==> !r,
{
    c.is_control()
}

/// How many of the first `n` characters of the line are not control characters.
pub open spec fn visible_count(l: Seq<char>, n: int) -> int
    decreases n,
{
    if n <= 0 {
        0
    } else {
        visible_count(l, n - 1) + if control(l[n - 1]) { 0int } else { 1int }
    }
}

/// The widest of the first `n` lines, counting visible characters.
pub open spec fn widest(ls: Seq<Seq<char>>, n: int) -> int
    decreases n,
{
    if n <= 0 {
        0
    } else {
        let w = visible_count(ls[n - 1], ls[n - 1].len() as int);
        let prev = widest(ls, n - 1);
        if n == 1 || w > prev { w } else { prev }
    }
}

proof fn lemma_visible_count_bound(l: Seq<char>, n: int)
    requires
        0 <= n <= l.len(),
    ensures
        0 <= visible_count(l, n) <= n,
    decreases n,
{
    if n > 0 {
        lemma_visible_count_bound(l, n - 1);
    }
}

/// The number of visible characters on the widest line of `content`, or 60 when
/// it has no lines.
pub fn get_max_line_length(content: &str) -> (r: usize)
    ensures
        r == if lines_of(content@).len() == 0 { 60 } else { widest(lines_of(content@), lines_of(content@).len() as int) },
{
    let ls = lines(content);
    let ghost lv = lines_of(content@);
    if ls.len() == 0 {
        return 60;
    }
    let mut best: usize = 0;
    let mut i: usize = 0;
    while i < ls.len()
        invariant
            i <= ls.len(),
            ls@.map_values(|l: String| l@) == lv,
            best == widest(lv, i as int),
        decreases ls.len() - i,
    {
        let line = chars_of(ls[i].as_str());
        assert(line@ == lv[i as int]);
        let mut count: usize = 0;
        let mut k: usize = 0;
        while k < line.len()
            invariant
                k <= line.len(),
                count == visible_count(line@, k as int),
            decreases line.len() - k,
        {
            proof {
                lemma_visible_count_bound(line@, k as int);
            }
            if !is_control(line[k]) {
                count = count + 1;
            }
            k = k + 1;
        }
        if i == 0 || count > best {
            best = count;
        }
        i = i + 1;
    }
    best
}

/// The items of the first `n` whose flag is `want`, in order.
pub open spec fn select_by<T>(items: Seq<T>, flags: Seq<bool>, want: bool, n: int) -> Seq<T>
    decreases n,
{
    if n <= 0 {
        Seq::empty()
    } else if flags[n - 1] == want {
        select_by(items, flags, want, n - 1).push(items[n - 1])
    } else {
        select_by(items, flags, want, n - 1)
    }
}

/// Splits the items into those for which `condition` holds and the others,
/// each part in the original order.
pub fn separate_items_by_condition<T, F: Fn(&T) -> bool>(items: Vec<T>, condition: F) -> (r: (Vec<T>, Vec<T>))
    requires
        forall|t: &T| condition.requires((t,)),
    ensures
        exists|flags: Seq<bool>|
            #![trigger select_by(items@, flags, true, items@.len() as int)]
            flags.len() == items@.len()
            && (forall|i: int| 0 <= i < items@.len() ==> condition.ensures((&items@[i],), #[trigger] flags[i]))
            && r.0@ == select_by(items@, flags, true, items@.len() as int)
            && r.1@ == select_by(items@, flags, false, items@.len() as int),
{
    let ghost all = items@;
    let ghost mut flags: Seq<bool> = Seq::empty();
    let mut true_items: Vec<T> = Vec::new();
    let mut false_items: Vec<T> = Vec::new();
    for item in it: items
        invariant
            all == it.seq(),
            forall|t: &T| condition.requires((t,)),
            flags.len() == it.index(),
            forall|i: int| 0 <= i < flags.len() ==> condition.ensures((&all[i],), #[trigger] flags[i]),
            true_items@ == select_by(all, flags, true, flags.len() as int),
            false_items@ == select_by(all, flags, false, flags.len() as int),
    {
        let b = condition(&item);
        proof {
            let ghost old_flags = flags;
            flags = flags.push(b);
            assert forall|k: int, w: bool| 0 <= k <= old_flags.len() implies
                select_by(all, flags, w, k) == select_by(all, old_flags, w, k) by {
                lemma_select_prefix(all, old_flags, flags, w, k);
            }
        }
        if b {
            true_items.push(item);
        } else {
            false_items.push(item);
        }
    }
    (true_items, false_items)
}

/// The first elements of the pairs that satisfy `predicate`, in order.
pub fn filter_and_extract<T, U, F: Fn(&(T, U)) -> bool>(items: Vec<(T, U)>, predicate: F) -> (r: Vec<T>)
    requires
        forall|p: &(T, U)| predicate.requires((p,)),
    ensures
        exists|flags: Seq<bool>|
            #![trigger select_by(items@, flags, true, items@.len() as int)]
            flags.len() == items@.len()
            && (forall|i: int| 0 <= i < items@.len() ==> predicate.ensures((&items@[i],), #[trigger] flags[i]))
            && r@ == select_by(items@, flags, true, items@.len() as int).map_values(|p: (T, U)| p.0),
{
    let ghost all = items@;
    let ghost mut flags: Seq<bool> = Seq::empty();
    let mut out: Vec<T> = Vec::new();
    for item in it: items
        invariant
            all == it.seq(),
            forall|p: &(T, U)| predicate.requires((p,)),
            flags.len() == it.index(),
            forall|i: int| 0 <= i < flags.len() ==> predicate.ensures((&all[i],), #[trigger] flags[i]),
            out@ == select_by(all, flags, true, flags.len() as int).map_values(|p: (T, U)| p.0),
    {
        let b = predicate(&item);
        proof {
            let ghost old_flags = flags;
            flags = flags.push(b);
            lemma_select_prefix(all, old_flags, flags, true, old_flags.len() as int);
        }
        if b {
            let ghost before = out@;
            out.push(item.0);
            assert(out@ =~= select_by(all, flags, true, flags.len() as int).map_values(|p: (T, U)| p.0));
        } else {
            assert(out@ =~= select_by(all, flags, true, flags.len() as int).map_values(|p: (T, U)| p.0));
        }
    }
    out
}

proof fn lemma_select_prefix<T>(items: Seq<T>, f1: Seq<bool>, f2: Seq<bool>, want: bool, k: int)
    requires
        0 <= k <= f1.len() <= f2.len(),
        forall|i: int| 0 <= i < f1.len() ==> f1[i] == f2[i],
    ensures
        select_by(items, f1, want, k) == select_by(items, f2, want, k),
    decreases k,
{
    if k > 0 {
        lemma_select_prefix(items, f1, f2, want, k - 1);
    }
}

} // verus!
