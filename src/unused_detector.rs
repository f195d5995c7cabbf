//! The unused-class report: extraction, exact-match pass, dynamic-pattern pass
//! and aggregation by file.
use vstd::prelude::*;
use vstd::pervasive::VecAdditionalExecFns;
use crate::config::{default_css_extensions_spec, Config};
use crate::css_parser::{class_pattern, classes_view, copy_class, extracted_classes, files_view, CssClass, CssParser};
use crate::error::TagError;
use crate::matcher::regex_compiles;
use crate::scanner::{css_matches, other_matches, stylesheet_path, FileScanner};
use crate::text::{contains_string, strings_view};
use crate::text_processor::{dynamic_patterns, pattern_used, patterns_view, DynamicPattern, TextProcessor};

verus! {

/// Builds the unused-class report for a directory's files.
pub struct UnusedDetector {
    directory: String,
    thread_count: Option<usize>,
    config: Option<Config>,
}

/// A class and whether the analysis found it unused.
#[derive(Debug, Clone)]
pub struct UnusedClass {
    pub class: CssClass,
    pub is_unused: bool,
}

/// The outcome of an analysis. `by_file` holds one entry per stylesheet that
/// declares classes, in order of first appearance, listing its used classes
/// and then its unused ones.
#[derive(Debug)]
pub struct UnusedReport {
    pub total_classes: usize,
    pub unused_classes: Vec<CssClass>,
    pub used_classes: Vec<CssClass>,
    pub by_file: Vec<(String, Vec<UnusedClass>)>,
}

pub open spec fn entry_view(u: UnusedClass) -> ((Seq<char>, Seq<char>, int), bool) {
    (u.class@, u.is_unused)
}

pub open spec fn entries_view(v: Seq<UnusedClass>) -> Seq<((Seq<char>, Seq<char>, int), bool)> {
    v.map_values(|u: UnusedClass| entry_view(u))
}

pub open spec fn by_file_view(v: Seq<(String, Vec<UnusedClass>)>) -> Seq<(Seq<char>, Seq<((Seq<char>, Seq<char>, int), bool)>)> {
    v.map_values(|g: (String, Vec<UnusedClass>)| (g.0@, entries_view(g.1@)))
}

/// The files, among the first `n`, that are stylesheets, in order.
pub open spec fn css_subset(files: Seq<(Seq<char>, Seq<char>)>, exts: Seq<Seq<char>>, n: int) -> Seq<(Seq<char>, Seq<char>)>
    decreases n,
{
    if n <= 0 {
        Seq::empty()
    } else if stylesheet_path(exts, files[n - 1].0) {
        css_subset(files, exts, n - 1).push(files[n - 1])
    } else {
        css_subset(files, exts, n - 1)
    }
}

/// Some file other than a stylesheet contains the name, or no file at all does.
pub open spec fn used_exactly(name: Seq<char>, files: Seq<(Seq<char>, Seq<char>)>, exts: Seq<Seq<char>>) -> bool {
    !(css_matches(files, name, exts).len() > 0 && other_matches(files, name, exts).len() == 0)
}

/// Some pattern covering the name is assembled in some file.
pub open spec fn used_by_pattern(
    name: Seq<char>,
    files: Seq<(Seq<char>, Seq<char>)>,
    pats: Seq<(Seq<char>, Seq<char>, Seq<char>, Seq<Seq<char>>)>,
) -> bool {
    exists|i: int, j: int|
        0 <= i < pats.len() && 0 <= j < files.len() && pats[i].3.contains(name)
            && #[trigger] pattern_used(files[j].1, pats[i].0, pats[i].1)
}

/// 0: used by exact match; 1: used through a dynamic pattern; 2: unused.
pub open spec fn class_status(
    name: Seq<char>,
    files: Seq<(Seq<char>, Seq<char>)>,
    exts: Seq<Seq<char>>,
    pats: Seq<(Seq<char>, Seq<char>, Seq<char>, Seq<Seq<char>>)>,
) -> int {
    if used_exactly(name, files, exts) {
        0
    } else if used_by_pattern(name, files, pats) {
        1
    } else {
        2
    }
}

/// The classes, among the first `n`, of the given status, in order.
pub open spec fn classes_with_status(
    cs: Seq<(Seq<char>, Seq<char>, int)>,
    files: Seq<(Seq<char>, Seq<char>)>,
    exts: Seq<Seq<char>>,
    pats: Seq<(Seq<char>, Seq<char>, Seq<char>, Seq<Seq<char>>)>,
    status: int,
    n: int,
) -> Seq<(Seq<char>, Seq<char>, int)>
    decreases n,
{
    if n <= 0 {
        Seq::empty()
    } else if class_status(cs[n - 1].0, files, exts, pats) == status {
        classes_with_status(cs, files, exts, pats, status, n - 1).push(cs[n - 1])
    } else {
        classes_with_status(cs, files, exts, pats, status, n - 1)
    }
}

/// Index of the first group among the first `n` whose file is `file`, or -1.
pub open spec fn find_file_group(g: Seq<(Seq<char>, Seq<((Seq<char>, Seq<char>, int), bool)>)>, file: Seq<char>, n: int) -> int
    decreases n,
{
    if n <= 0 {
        -1
    } else {
        let r = find_file_group(g, file, n - 1);
        if r >= 0 { r } else if g[n - 1].0 == file { n - 1 } else { -1 }
    }
}

/// The groups by file of the first `n` entries.
pub open spec fn group_by_file(es: Seq<((Seq<char>, Seq<char>, int), bool)>, n: int) -> Seq<(Seq<char>, Seq<((Seq<char>, Seq<char>, int), bool)>)>
    decreases n,
{
    if n <= 0 {
        Seq::empty()
    } else {
        let g = group_by_file(es, n - 1);
        let e = es[n - 1];
        let j = find_file_group(g, e.0.1, g.len() as int);
        if j >= 0 {
            g.update(j, (e.0.1, g[j].1.push(e)))
        } else {
            g.push((e.0.1, seq![e]))
        }
    }
}

/// Each class paired with its flag.
pub open spec fn flagged(cs: Seq<(Seq<char>, Seq<char>, int)>, unused: bool) -> Seq<((Seq<char>, Seq<char>, int), bool)> {
    cs.map_values(|c: (Seq<char>, Seq<char>, int)| (c, unused))
}

/// The used classes, then the unused ones, grouped by file.
pub open spec fn report_by_file(
    used: Seq<(Seq<char>, Seq<char>, int)>,
    unused: Seq<(Seq<char>, Seq<char>, int)>,
) -> Seq<(Seq<char>, Seq<((Seq<char>, Seq<char>, int), bool)>)> {
    let es = flagged(used, false) + flagged(unused, true);
    group_by_file(es, es.len() as int)
}

pub open spec fn names_of(cs: Seq<(Seq<char>, Seq<char>, int)>) -> Seq<Seq<char>> {
    cs.map_values(|c: (Seq<char>, Seq<char>, int)| c.0)
}

/// The classes of the report, from the stylesheets among the files.
pub open spec fn report_classes(files: Seq<(Seq<char>, Seq<char>)>, exts: Seq<Seq<char>>) -> Seq<(Seq<char>, Seq<char>, int)> {
    extracted_classes(css_subset(files, exts, files.len() as int))
}

/// The classes used by exact match, then those used through a pattern.
pub open spec fn report_used(files: Seq<(Seq<char>, Seq<char>)>, exts: Seq<Seq<char>>) -> Seq<(Seq<char>, Seq<char>, int)> {
    let cs = report_classes(files, exts);
    let pats = dynamic_patterns(names_of(cs));
    classes_with_status(cs, files, exts, pats, 0, cs.len() as int) + classes_with_status(cs, files, exts, pats, 1, cs.len() as int)
}

/// The classes that neither pass finds used.
pub open spec fn report_unused(files: Seq<(Seq<char>, Seq<char>)>, exts: Seq<Seq<char>>) -> Seq<(Seq<char>, Seq<char>, int)> {
    let cs = report_classes(files, exts);
    let pats = dynamic_patterns(names_of(cs));
    classes_with_status(cs, files, exts, pats, 2, cs.len() as int)
}


impl UnusedReport {
    /// The counts agree, and `by_file` groups the used classes, then the unused
    /// ones, by file.
    pub open spec fn wf(&self) -> bool {
        &&& self.total_classes == self.unused_classes@.len() + self.used_classes@.len()
        &&& by_file_view(self.by_file@) == report_by_file(classes_view(self.used_classes@), classes_view(self.unused_classes@))
    }
}

/// The unused entries among the first `n`, in order.
pub open spec fn unused_entries(es: Seq<((Seq<char>, Seq<char>, int), bool)>, n: int) -> Seq<((Seq<char>, Seq<char>, int), bool)>
    decreases n,
{
    if n <= 0 {
        Seq::empty()
    } else if es[n - 1].1 {
        unused_entries(es, n - 1).push(es[n - 1])
    } else {
        unused_entries(es, n - 1)
    }
}

impl UnusedReport {
    /// The unused classes listed for the file, in order; none when the file has no list.
    pub fn get_unused_classes_in_file(&self, file: &str) -> (r: Vec<UnusedClass>)
        ensures
            ({
                let g = by_file_view(self.by_file@);
                let j = find_file_group(g, file@, g.len() as int);
                entries_view(r@) == if j >= 0 {
                    unused_entries(g[j].1, g[j].1.len() as int)
                } else {
                    Seq::empty()
                }
            }),
    {
        let ghost g = by_file_view(self.by_file@);
        let key = file.to_string();
        let mut j: usize = 0;
        while j < self.by_file.len()
            invariant
                j <= self.by_file.len(),
                g == by_file_view(self.by_file@),
                key@ == file@,
                find_file_group(g, file@, j as int) == -1,
            decreases self.by_file.len() - j,
        {
            assert(g[j as int].0 == self.by_file@[j as int].0@);
            if self.by_file[j].0 == key {
                assert(find_file_group(g, file@, j + 1) == j);
                proof {
                    lemma_find_file_group_stable(g, file@, j + 1, g.len() as int);
                }
                let entries = &self.by_file[j].1;
                let ghost ev = entries_view(entries@);
                assert(ev == g[j as int].1);
                let mut out: Vec<UnusedClass> = Vec::new();
                let mut k: usize = 0;
                while k < entries.len()
                    invariant
                        k <= entries.len(),
                        ev == entries_view(entries@),
                        entries_view(out@) == unused_entries(ev, k as int),
                    decreases entries.len() - k,
                {
                    assert(ev[k as int] == entry_view(entries@[k as int]));
                    if entries[k].is_unused {
                        let e = UnusedClass { class: copy_class(&entries[k].class), is_unused: true };
                        let ghost before = entries_view(out@);
                        out.push(e);
                        assert(entries_view(out@) =~= before.push(ev[k as int]));
                    }
                    k = k + 1;
                }
                return out;
            }
            j = j + 1;
        }
        let out: Vec<UnusedClass> = Vec::new();
        assert(entries_view(out@) =~= Seq::<((Seq<char>, Seq<char>, int), bool)>::empty());
        out
    }
}

/// Every class has exactly one status, so the three selections together are as
/// long as the classes.
pub proof fn lemma_status_partition(
    cs: Seq<(Seq<char>, Seq<char>, int)>,
    files: Seq<(Seq<char>, Seq<char>)>,
    exts: Seq<Seq<char>>,
    pats: Seq<(Seq<char>, Seq<char>, Seq<char>, Seq<Seq<char>>)>,
    n: int,
)
    requires
        0 <= n <= cs.len(),
    ensures
        classes_with_status(cs, files, exts, pats, 0, n).len() + classes_with_status(cs, files, exts, pats, 1, n).len()
            + classes_with_status(cs, files, exts, pats, 2, n).len() == n,
    decreases n,
{
    if n > 0 {
        lemma_status_partition(cs, files, exts, pats, n - 1);
    }
}

/// The entries, among the first `n`, whose class comes from `file`, in order.
pub open spec fn entries_for_file(es: Seq<((Seq<char>, Seq<char>, int), bool)>, file: Seq<char>, n: int) -> Seq<((Seq<char>, Seq<char>, int), bool)>
    decreases n,
{
    if n <= 0 {
        Seq::empty()
    } else if es[n - 1].0.1 == file {
        entries_for_file(es, file, n - 1).push(es[n - 1])
    } else {
        entries_for_file(es, file, n - 1)
    }
}

/// The groups have distinct files, each holds exactly the entries of its file in
/// order, and every entry's file has a group.
pub open spec fn partitions_by_file(
    g: Seq<(Seq<char>, Seq<((Seq<char>, Seq<char>, int), bool)>)>,
    es: Seq<((Seq<char>, Seq<char>, int), bool)>,
    n: int,
) -> bool {
    &&& forall|a: int, b: int| 0 <= a < b < g.len() ==> #[trigger] g[a].0 != #[trigger] g[b].0
    &&& forall|k: int| 0 <= k < g.len() ==> (#[trigger] g[k]).1 == entries_for_file(es, g[k].0, n)
    &&& forall|i: int| 0 <= i < n ==> exists|k: int| 0 <= k < g.len() && (#[trigger] g[k]).0 == (#[trigger] es[i]).0.1
}

proof fn lemma_find_file_group_facts(g: Seq<(Seq<char>, Seq<((Seq<char>, Seq<char>, int), bool)>)>, file: Seq<char>, n: int)
    requires
        0 <= n <= g.len(),
    ensures
        find_file_group(g, file, n) < n,
        find_file_group(g, file, n) >= 0 ==> g[find_file_group(g, file, n)].0 == file,
        find_file_group(g, file, n) < 0 ==> forall|k: int| 0 <= k < n ==> g[k].0 != file,
    decreases n,
{
    if n > 0 {
        lemma_find_file_group_facts(g, file, n - 1);
    }
}

proof fn lemma_entries_for_file_empty(es: Seq<((Seq<char>, Seq<char>, int), bool)>, file: Seq<char>, n: int)
    requires
        0 <= n <= es.len(),
        forall|i: int| 0 <= i < n ==> (#[trigger] es[i]).0.1 != file,
    ensures
        entries_for_file(es, file, n) == Seq::<((Seq<char>, Seq<char>, int), bool)>::empty(),
    decreases n,
{
    if n > 0 {
        lemma_entries_for_file_empty(es, file, n - 1);
    }
}

proof fn lemma_group_by_file_partitions(es: Seq<((Seq<char>, Seq<char>, int), bool)>, n: int)
    requires
        0 <= n <= es.len(),
    ensures
        partitions_by_file(group_by_file(es, n), es, n),
    decreases n,
{
    if n > 0 {
        lemma_group_by_file_partitions(es, n - 1);
        let g = group_by_file(es, n - 1);
        let e = es[n - 1];
        let f = e.0.1;
        let j = find_file_group(g, f, g.len() as int);
        lemma_find_file_group_facts(g, f, g.len() as int);
        let g2 = group_by_file(es, n);
        if j >= 0 {
            assert(g2 == g.update(j, (f, g[j].1.push(e))));
            assert forall|k: int| 0 <= k < g2.len() implies (#[trigger] g2[k]).1 == entries_for_file(es, g2[k].0, n) by {
                assert(g2[k].0 == g[k].0);
            }
            assert forall|i: int| 0 <= i < n implies exists|k: int| 0 <= k < g2.len() && (#[trigger] g2[k]).0 == (#[trigger] es[i]).0.1 by {
                if i < n - 1 {
                    let k = choose|k: int| 0 <= k < g.len() && (#[trigger] g[k]).0 == es[i].0.1;
                    assert(g2[k].0 == g[k].0);
                } else {
                    assert(g2[j].0 == f);
                }
            }
            assert forall|a: int, b: int| 0 <= a < b < g2.len() implies #[trigger] g2[a].0 != #[trigger] g2[b].0 by {
                assert(g2[a].0 == g[a].0 && g2[b].0 == g[b].0);
            }
        } else {
            assert(g2 == g.push((f, seq![e])));
            assert forall|i: int| 0 <= i < n - 1 implies (#[trigger] es[i]).0.1 != f by {
                let k = choose|k: int| 0 <= k < g.len() && (#[trigger] g[k]).0 == es[i].0.1;
            }
            lemma_entries_for_file_empty(es, f, n - 1);
            assert(entries_for_file(es, f, n) =~= seq![e]);
            assert forall|k: int| 0 <= k < g2.len() implies (#[trigger] g2[k]).1 == entries_for_file(es, g2[k].0, n) by {
                if k < g.len() {
                    assert(g2[k] == g[k]);
                }
            }
            assert forall|i: int| 0 <= i < n implies exists|k: int| 0 <= k < g2.len() && (#[trigger] g2[k]).0 == (#[trigger] es[i]).0.1 by {
                if i < n - 1 {
                    let k = choose|k: int| 0 <= k < g.len() && (#[trigger] g[k]).0 == es[i].0.1;
                    assert(g2[k] == g[k]);
                } else {
                    assert(g2[g.len() as int].0 == f);
                }
            }
            assert forall|a: int, b: int| 0 <= a < b < g2.len() implies #[trigger] g2[a].0 != #[trigger] g2[b].0 by {
                if b < g.len() {
                    assert(g2[a] == g[a] && g2[b] == g[b]);
                } else {
                    assert(g2[a] == g[a]);
                }
            }
        }
    }
}

/// In a report's by-file view, files are distinct, each file's list holds
/// exactly the entries of the classes from that file (used ones first, then
/// unused ones, each in report order), and every class has its file listed: so
/// each class appears in exactly one file's list.
pub proof fn by_file_partitions_classes(
    used: Seq<(Seq<char>, Seq<char>, int)>,
    unused: Seq<(Seq<char>, Seq<char>, int)>,
)
    ensures
        ({
            let es = flagged(used, false) + flagged(unused, true);
            partitions_by_file(report_by_file(used, unused), es, es.len() as int)
        }),
{
    let es = flagged(used, false) + flagged(unused, true);
    lemma_group_by_file_partitions(es, es.len() as int);
}

/// Whether the class name is one of the pattern's classes.
fn pattern_covers(p: &DynamicPattern, name: &str) -> (r: bool)
    ensures
        r == p@.3.contains(name@),
{
    contains_string(&p.matching_classes, name)
}

proof fn lemma_find_file_group_stable(
    g: Seq<(Seq<char>, Seq<((Seq<char>, Seq<char>, int), bool)>)>,
    file: Seq<char>,
    n: int,
    m: int,
)
    requires
        n <= m,
        find_file_group(g, file, n) >= 0,
    ensures
        find_file_group(g, file, m) == find_file_group(g, file, n),
    decreases m - n,
{
    if m > n {
        lemma_find_file_group_stable(g, file, n, m - 1);
    }
}

/// Adds one entry to the groups by file, as `group_by_file` does.
fn add_by_file(groups: &mut Vec<(String, Vec<UnusedClass>)>, c: &CssClass, is_unused: bool)
    ensures
        by_file_view(final(groups)@) == ({
            let g = by_file_view(old(groups)@);
            let e = (c@, is_unused);
            let j = find_file_group(g, e.0.1, g.len() as int);
            if j >= 0 {
                g.update(j, (e.0.1, g[j].1.push(e)))
            } else {
                g.push((e.0.1, seq![e]))
            }
        }),
{
    let ghost g = by_file_view(groups@);
    let entry = UnusedClass { class: copy_class(c), is_unused };
    assert(entry_view(entry) == (c@, is_unused));
    let mut j: usize = 0;
    let mut found = false;
    while j < groups.len()
        invariant_except_break
            !found,
        invariant
            g == by_file_view(groups@),
            j <= groups.len(),
            !found ==> find_file_group(g, c.file@, j as int) == -1,
        ensures
            !found ==> find_file_group(g, c.file@, groups.len() as int) == -1,
            found ==> find_file_group(g, c.file@, groups.len() as int) == j && j < groups.len() && g[j as int].0 == c.file@,
        decreases groups.len() - j,
    {
        assert(g[j as int].0 == groups@[j as int].0@);
        if groups[j].0 == c.file {
            found = true;
            assert(find_file_group(g, c.file@, j + 1) == j);
            proof {
                lemma_find_file_group_stable(g, c.file@, j + 1, g.len() as int);
            }
            break;
        }
        j = j + 1;
    }
    if found {
        let mut slot: (String, Vec<UnusedClass>) = (String::new(), Vec::new());
        groups.set_and_swap(j, &mut slot);
        assert(entries_view(slot.1@) == g[j as int].1);
        let ghost before = entries_view(slot.1@);
        slot.1.push(entry);
        assert(entries_view(slot.1@) =~= before.push((c@, is_unused)));
        groups.set(j, slot);
        assert(by_file_view(groups@) =~= g.update(j as int, (c.file@, g[j as int].1.push((c@, is_unused)))));
    } else {
        let mut members: Vec<UnusedClass> = Vec::new();
        members.push(entry);
        assert(entries_view(members@) =~= seq![(c@, is_unused)]);
        groups.push((c.file.clone(), members));
        assert(by_file_view(groups@) =~= g.push((c.file@, seq![(c@, is_unused)])));
    }
}

proof fn lemma_flagged_push(cs: Seq<(Seq<char>, Seq<char>, int)>, c: (Seq<char>, Seq<char>, int), unused: bool)
    ensures
        flagged(cs.push(c), unused) == flagged(cs, unused).push((c, unused)),
{
    assert(flagged(cs.push(c), unused) =~= flagged(cs, unused).push((c, unused)));
}

proof fn lemma_group_prefix(es: Seq<((Seq<char>, Seq<char>, int), bool)>, more: Seq<((Seq<char>, Seq<char>, int), bool)>, n: int)
    requires
        0 <= n <= es.len(),
    ensures
        group_by_file(es + more, n) == group_by_file(es, n),
    decreases n,
{
    if n > 0 {
        lemma_group_prefix(es, more, n - 1);
        assert((es + more)[n - 1] == es[n - 1]);
    }
}

impl UnusedDetector {
    pub fn new(directory: String) -> (r: Self)
        ensures
            r.directory_view() == directory@,
            r.thread_count() is None,
            r.css_extensions() == default_css_extensions_spec(),
    {
        UnusedDetector { directory, thread_count: None, config: None }
    }

    pub closed spec fn directory_view(&self) -> Seq<char> {
        self.directory@
    }

    pub closed spec fn thread_count(&self) -> Option<usize> {
        self.thread_count
    }

    /// The extensions of the stylesheets whose classes are analysed.
    pub closed spec fn css_extensions(&self) -> Seq<Seq<char>> {
        match self.config {
            Some(c) => c.css_extensions_view(),
            None => default_css_extensions_spec(),
        }
    }

    pub fn with_thread_count(self, count: usize) -> (r: Self)
        ensures
            r.directory_view() == self.directory_view(),
            r.thread_count() == Some(count),
            r.css_extensions() == self.css_extensions(),
    {
        UnusedDetector { thread_count: Some(count), ..self }
    }

    pub fn with_config(self, config: Config) -> (r: Self)
        ensures
            r.directory_view() == self.directory_view(),
            r.thread_count() == self.thread_count(),
            r.css_extensions() == config.css_extensions_view(),
    {
        UnusedDetector { config: Some(config), ..self }
    }

    /// The directory to analyse.
    pub fn directory(&self) -> (r: &str)
        ensures
            r@ == self.directory_view(),
    {
        self.directory.as_str()
    }

    /// The worker count asked for, if any.
    pub fn get_thread_count(&self) -> (r: Option<usize>)
        ensures
            r == self.thread_count(),
    {
        self.thread_count
    }

    /// The rules given, if any.
    pub fn config(&self) -> (r: Option<&Config>)
        ensures
            r matches Some(c) ==> c.css_extensions_view() == self.css_extensions(),
    {
        match &self.config {
            Some(c) => Some(c),
            None => None,
        }
    }

    /// A scanner that knows stylesheets by the detector's extensions.
    fn scanner(&self) -> (r: FileScanner)
        ensures
            r.css_extensions() == self.css_extensions(),
    {
        match &self.config {
            Some(c) => FileScanner::new().with_config(c.clone_rules()),
            None => FileScanner::new(),
        }
    }

    /// The stylesheets among the files, in order.
    fn filter_css_files(&self, files_with_content: &Vec<(String, String)>) -> (r: Vec<(String, String)>)
        ensures
            files_view(r@) == css_subset(files_view(files_with_content@), self.css_extensions(), files_with_content@.len() as int),
    {
        let scanner = self.scanner();
        let ghost files = files_view(files_with_content@);
        let mut out: Vec<(String, String)> = Vec::new();
        let mut i: usize = 0;
        while i < files_with_content.len()
            invariant
                i <= files_with_content.len(),
                files == files_view(files_with_content@),
                scanner.css_extensions() == self.css_extensions(),
                files_view(out@) == css_subset(files, self.css_extensions(), i as int),
            decreases files_with_content.len() - i,
        {
            let path = &files_with_content[i].0;
            let content = &files_with_content[i].1;
            assert(files[i as int] == (path@, content@));
            if scanner.is_css_file(path.as_str()) {
                let ghost before = files_view(out@);
                out.push((path.clone(), content.clone()));
                assert(files_view(out@) =~= before.push((path@, content@)));
            }
            i = i + 1;
        }
        out
    }

    /// Whether only stylesheets contain the class name, or nothing does.
    fn is_class_unused_exact(&self, class: &CssClass, files_with_content: &Vec<(String, String)>) -> (r: bool)
        ensures
            r == !used_exactly(class.name@, files_view(files_with_content@), self.css_extensions()),
    {
        let scanner = self.scanner();
        let result = scanner.scan_files(class.name.as_str(), files_with_content);
        result.is_css_only
    }

    /// Whether some pattern covering the class is assembled in some file.
    fn is_class_unused_dynamic(
        &self,
        class: &CssClass,
        files_with_content: &Vec<(String, String)>,
        dynamic_patterns: &Vec<DynamicPattern>,
    ) -> (r: bool)
        ensures
            r == used_by_pattern(class.name@, files_view(files_with_content@), patterns_view(dynamic_patterns@)),
    {
        let ghost files = files_view(files_with_content@);
        let ghost pats = patterns_view(dynamic_patterns@);
        let processor = TextProcessor::new();
        let mut i: usize = 0;
        while i < dynamic_patterns.len()
            invariant
                i <= dynamic_patterns.len(),
                files == files_view(files_with_content@),
                pats == patterns_view(dynamic_patterns@),
                forall|a: int, b: int|
                    0 <= a < i && 0 <= b < files.len() && pats[a].3.contains(class.name@)
                        ==> !#[trigger] pattern_used(files[b].1, pats[a].0, pats[a].1),
            decreases dynamic_patterns.len() - i,
        {
            let pattern = &dynamic_patterns[i];
            assert(pats[i as int] == pattern@);
            if pattern_covers(pattern, class.name.as_str()) {
                let mut j: usize = 0;
                while j < files_with_content.len()
                    invariant
                        j <= files_with_content.len(),
                        files == files_view(files_with_content@),
                        pats[i as int] == pattern@,
                        i < pats.len(),
                        pats == patterns_view(dynamic_patterns@),
                        pattern@.3.contains(class.name@),
                        forall|b: int| 0 <= b < j ==> !#[trigger] pattern_used(files[b].1, pattern.prefix@, pattern.suffix@),
                    decreases files_with_content.len() - j,
                {
                    assert(files[j as int].1 == files_with_content@[j as int].1@);
                    if processor.find_pattern_usage(files_with_content[j].1.as_str(), pattern) {
                        assert(pattern_used(files[j as int].1, pats[i as int].0, pats[i as int].1));
                        return true;
                    }
                    j = j + 1;
                }
            }
            i = i + 1;
        }
        false
    }

    /// The class records of the stylesheets.
    fn extract_classes(&self, files_with_content: Vec<(String, String)>) -> (r: Result<Vec<CssClass>, TagError>)
        ensures
            r is Ok <==> regex_compiles(class_pattern()),
            r matches Ok(v) ==> classes_view(v@) == extracted_classes(files_view(files_with_content@)),
    {
        let parser = match self.thread_count {
            Some(n) => CssParser::new().with_thread_count(n),
            None => CssParser::new(),
        };
        parser.extract_classes_parallel(files_with_content)
    }

    /// The dynamic patterns that the class names give.
    fn detect_patterns(&self, classes: &Vec<CssClass>) -> (r: Vec<DynamicPattern>)
        ensures
            patterns_view(r@) == dynamic_patterns(names_of(classes_view(classes@))),
    {
        let ghost cs = classes_view(classes@);
        let mut names: Vec<String> = Vec::new();
        let mut i: usize = 0;
        while i < classes.len()
            invariant
                i <= classes.len(),
                cs == classes_view(classes@),
                strings_view(names@) == names_of(cs).take(i as int),
            decreases classes.len() - i,
        {
            assert(names_of(cs)[i as int] == classes@[i as int].name@);
            let ghost before = strings_view(names@);
            names.push(classes[i].name.clone());
            assert(strings_view(names@) =~= before.push(classes@[i as int].name@));
            assert(names_of(cs).take(i + 1) =~= names_of(cs).take(i as int).push(names_of(cs)[i as int]));
            i = i + 1;
        }
        assert(names_of(cs).take(classes.len() as int) =~= names_of(cs));
        let processor = TextProcessor::new();
        processor.detect_dynamic_patterns(names.as_slice())
    }

    /// Sorts the classes into unused and used, the latter those found by exact
    /// match followed by those found through a pattern, and groups both by file.
    fn analyze_class_usage(
        &self,
        classes: &Vec<CssClass>,
        all_files_with_content: &Vec<(String, String)>,
        dynamic_patterns: &Vec<DynamicPattern>,
    ) -> (r: (Vec<CssClass>, Vec<CssClass>, Vec<(String, Vec<UnusedClass>)>))
        ensures
            ({
                let cs = classes_view(classes@);
                let files = files_view(all_files_with_content@);
                let exts = self.css_extensions();
                let pats = patterns_view(dynamic_patterns@);
                let used = classes_with_status(cs, files, exts, pats, 0, cs.len() as int)
                    + classes_with_status(cs, files, exts, pats, 1, cs.len() as int);
                let unused = classes_with_status(cs, files, exts, pats, 2, cs.len() as int);
                &&& classes_view(r.0@) == unused
                &&& classes_view(r.1@) == used
                &&& by_file_view(r.2@) == report_by_file(used, unused)
            }),
    {
        let ghost cs = classes_view(classes@);
        let ghost files = files_view(all_files_with_content@);
        let ghost exts = self.css_extensions();
        let ghost pats = patterns_view(dynamic_patterns@);
        let mut exact_used: Vec<CssClass> = Vec::new();
        let mut pattern_used_classes: Vec<CssClass> = Vec::new();
        let mut unused: Vec<CssClass> = Vec::new();
        let mut i: usize = 0;
        while i < classes.len()
            invariant
                i <= classes.len(),
                cs == classes_view(classes@),
                files == files_view(all_files_with_content@),
                pats == patterns_view(dynamic_patterns@),
                exts == self.css_extensions(),
                classes_view(exact_used@) == classes_with_status(cs, files, exts, pats, 0, i as int),
                classes_view(pattern_used_classes@) == classes_with_status(cs, files, exts, pats, 1, i as int),
                classes_view(unused@) == classes_with_status(cs, files, exts, pats, 2, i as int),
            decreases classes.len() - i,
        {
            let class = &classes[i];
            assert(cs[i as int] == class@);
            if !self.is_class_unused_exact(class, all_files_with_content) {
                let ghost before = classes_view(exact_used@);
                exact_used.push(copy_class(class));
                assert(classes_view(exact_used@) =~= before.push(class@));
            } else if self.is_class_unused_dynamic(class, all_files_with_content, dynamic_patterns) {
                let ghost before = classes_view(pattern_used_classes@);
                pattern_used_classes.push(copy_class(class));
                assert(classes_view(pattern_used_classes@) =~= before.push(class@));
            } else {
                let ghost before = classes_view(unused@);
                unused.push(copy_class(class));
                assert(classes_view(unused@) =~= before.push(class@));
            }
            i = i + 1;
        }
        let mut used = exact_used;
        let ghost u0 = classes_view(used@);
        let ghost u1 = classes_view(pattern_used_classes@);
        used.append(&mut pattern_used_classes);
        assert(classes_view(used@) =~= u0 + u1);
        let ghost uv = classes_view(used@);
        let ghost nv = classes_view(unused@);
        let ghost es = flagged(uv, false) + flagged(nv, true);
        let mut by_file: Vec<(String, Vec<UnusedClass>)> = Vec::new();
        let mut k: usize = 0;
        while k < used.len()
            invariant
                k <= used.len(),
                uv == classes_view(used@),
                es == flagged(uv, false) + flagged(nv, true),
                by_file_view(by_file@) == group_by_file(es, k as int),
            decreases used.len() - k,
        {
            assert(es[k as int] == (used@[k as int]@, false));
            add_by_file(&mut by_file, &used[k], false);
            k = k + 1;
        }
        let mut m: usize = 0;
        while m < unused.len()
            invariant
                m <= unused.len(),
                uv == classes_view(used@),
                nv == classes_view(unused@),
                es == flagged(uv, false) + flagged(nv, true),
                by_file_view(by_file@) == group_by_file(es, used.len() + m),
            decreases unused.len() - m,
        {
            assert(es[used.len() + m] == (unused@[m as int]@, true));
            add_by_file(&mut by_file, &unused[m], true);
            m = m + 1;
        }
        (unused, used, by_file)
    }

    /// The report on the given files: the classes declared in its stylesheets,
    /// which of them are used, and the same grouped by file. Fails only if the
    /// class pattern cannot be compiled.
    pub fn report_for_files(&self, files_with_content: Vec<(String, String)>) -> (r: Result<UnusedReport, TagError>)
        ensures
            r is Ok <==> regex_compiles(class_pattern()),
            r matches Ok(rep) ==> {
                let files = files_view(files_with_content@);
                let exts = self.css_extensions();
                &&& rep.wf()
                &&& classes_view(rep.used_classes@) == report_used(files, exts)
                &&& classes_view(rep.unused_classes@) == report_unused(files, exts)
                &&& rep.total_classes == report_classes(files, exts).len()
            },
    {
        let ghost files = files_view(files_with_content@);
        let css_files = self.filter_css_files(&files_with_content);
        let classes = match self.extract_classes(css_files) {
            Ok(c) => c,
            Err(e) => {
                return Err(e);
            },
        };
        let ghost cs = classes_view(classes@);
        let dynamic_patterns = self.detect_patterns(&classes);
        let (unused_classes, used_classes, by_file) = self.analyze_class_usage(
            &classes,
            &files_with_content,
            &dynamic_patterns,
        );
        proof {
            lemma_status_partition(cs, files, self.css_extensions(), patterns_view(dynamic_patterns@), cs.len() as int);
        }
        let report = UnusedReport { total_classes: classes.len(), unused_classes, used_classes, by_file };
        Ok(report)
    }
}

} // verus!
