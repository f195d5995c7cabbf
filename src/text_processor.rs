//! Line-oriented pattern extraction, whole-word search and dynamic class-name
//! templates.
use vstd::prelude::*;
use regex::Regex;
use crate::error::TagError;
use crate::matcher::{compile, escape, escaped, group_one_captures, is_match, regex_compiles, regex_group_one, regex_is_match, regex_source};
use vstd::string::StrSliceExecFns;
use vstd::string::StringExecFns;
use crate::text::{first_in, first_index, last_in, last_index, lemma_last_after_first, push_range, clone_strings, same_chars, strings_view, chars_of, contains_word, has_word, ignored_line, is_ignored_line, lines, lines_of};

verus! {

/// A family of class names that share a literal prefix and suffix around a
/// varying middle, as code that assembles names at run time produces them.
#[derive(Debug, Clone)]
pub struct DynamicPattern {
    pub prefix: String,
    pub suffix: String,
    /// `prefix*suffix`, for display.
    pub pattern: String,
    pub matching_classes: Vec<String>,
}

impl View for DynamicPattern {
    type V = (Seq<char>, Seq<char>, Seq<char>, Seq<Seq<char>>);

    open spec fn view(&self) -> (Seq<char>, Seq<char>, Seq<char>, Seq<Seq<char>>) {
        (self.prefix@, self.suffix@, self.pattern@, strings_view(self.matching_classes@))
    }
}

/// The grouping key of a name around separator `c`, which it holds: the name up
/// to and including the first `c`, followed, when a later `c` exists, by the
/// name from the last `c` on.
pub open spec fn key_around(s: Seq<char>, c: char) -> Seq<char> {
    let p = first_in(s, c, s.len() as int);
    let q = last_in(s, c, s.len() as int);
    if q != p {
        s.subrange(0, p + 1) + s.subrange(q, s.len() as int)
    } else {
        s.subrange(0, p + 1)
    }
}

/// The grouping key of a class name: around `-` if it has one, else around `_`,
/// else none.
pub open spec fn pattern_key(s: Seq<char>) -> Option<Seq<char>> {
    if first_in(s, '-', s.len() as int) >= 0 {
        Some(key_around(s, '-'))
    } else if first_in(s, '_', s.len() as int) >= 0 {
        Some(key_around(s, '_'))
    } else {
        None
    }
}

/// Index of the first group among the first `n` whose key is `key`, or -1.
pub open spec fn find_group(g: Seq<(Seq<char>, Seq<Seq<char>>)>, key: Seq<char>, n: int) -> int
    decreases n,
{
    if n <= 0 {
        -1
    } else {
        let r = find_group(g, key, n - 1);
        if r >= 0 { r } else if g[n - 1].0 == key { n - 1 } else { -1 }
    }
}

/// The groups after one more name: appended to the group of its key, which is
/// created at the end when new; a name without key changes nothing.
pub open spec fn add_to_groups(g: Seq<(Seq<char>, Seq<Seq<char>>)>, name: Seq<char>) -> Seq<(Seq<char>, Seq<Seq<char>>)> {
    match pattern_key(name) {
        None => g,
        Some(k) => {
            let j = find_group(g, k, g.len() as int);
            if j >= 0 {
                g.update(j, (k, g[j].1.push(name)))
            } else {
                g.push((k, seq![name]))
            }
        },
    }
}

/// The groups of the first `n` names, keyed by `pattern_key`, in order of first appearance.
pub open spec fn groups_of(names: Seq<Seq<char>>, n: int) -> Seq<(Seq<char>, Seq<Seq<char>>)>
    decreases n,
{
    if n <= 0 {
        Seq::empty()
    } else {
        add_to_groups(groups_of(names, n - 1), names[n - 1])
    }
}

/// Every name has at index `i` the character that the first name has there.
pub open spec fn all_share_at(ns: Seq<Seq<char>>, i: int) -> bool {
    forall|j: int| 0 <= j < ns.len() ==> i < (#[trigger] ns[j]).len() && ns[j][i] == ns[0][i]
}

/// Length of the common prefix of the names, counting on from `k`.
pub open spec fn common_prefix_from(ns: Seq<Seq<char>>, k: int) -> int
    decreases ns[0].len() - k,
{
    if 0 <= k < ns[0].len() && all_share_at(ns, k) {
        common_prefix_from(ns, k + 1)
    } else {
        k
    }
}

/// Every name has, `i` places from its end, the character that the first name has there.
pub open spec fn all_share_from_end(ns: Seq<Seq<char>>, i: int) -> bool {
    forall|j: int|
        0 <= j < ns.len() ==> i <= (#[trigger] ns[j]).len() && ns[j][ns[j].len() - i] == ns[0][ns[0].len() - i]
}

/// Length of the common suffix of the names, `k` characters being matched already.
pub open spec fn common_suffix_from(ns: Seq<Seq<char>>, k: int) -> int
    decreases ns[0].len() - k,
{
    if 0 <= k < ns[0].len() && all_share_from_end(ns, k + 1) {
        common_suffix_from(ns, k + 1)
    } else {
        k
    }
}

/// The pattern a group of names gives, if their common prefix has at least two characters.
pub open spec fn pattern_of(ns: Seq<Seq<char>>) -> Option<(Seq<char>, Seq<char>, Seq<char>, Seq<Seq<char>>)> {
    let lp = common_prefix_from(ns, 0);
    let ls = common_suffix_from(ns, 0);
    let first = ns[0];
    let prefix = first.subrange(0, lp);
    let suffix = first.subrange(first.len() - ls, first.len() as int);
    if lp >= 2 {
        Some((prefix, suffix, prefix + seq!['*'] + suffix, ns))
    } else {
        None
    }
}

/// The patterns of the first `n` groups: one for each group of two or more
/// names that gives one.
pub open spec fn patterns_of_groups(g: Seq<(Seq<char>, Seq<Seq<char>>)>, n: int) -> Seq<(Seq<char>, Seq<char>, Seq<char>, Seq<Seq<char>>)>
    decreases n,
{
    if n <= 0 {
        Seq::empty()
    } else {
        let prev = patterns_of_groups(g, n - 1);
        let ns = g[n - 1].1;
        if ns.len() >= 2 {
            match pattern_of(ns) {
                Some(p) => prev.push(p),
                None => prev,
            }
        } else {
            prev
        }
    }
}

/// The dynamic patterns inferred from the names.
pub open spec fn dynamic_patterns(names: Seq<Seq<char>>) -> Seq<(Seq<char>, Seq<char>, Seq<char>, Seq<Seq<char>>)> {
    let g = groups_of(names, names.len() as int);
    patterns_of_groups(g, g.len() as int)
}

pub open spec fn patterns_view(v: Seq<DynamicPattern>) -> Seq<(Seq<char>, Seq<char>, Seq<char>, Seq<Seq<char>>)> {
    v.map_values(|p: DynamicPattern| p@)
}

pub open spec fn chars_view(v: Seq<Vec<char>>) -> Seq<Seq<char>> {
    v.map_values(|c: Vec<char>| c@)
}

pub open spec fn groups_view(keys: Seq<Vec<char>>, members: Seq<Vec<String>>) -> Seq<(Seq<char>, Seq<Seq<char>>)> {
    Seq::new(keys.len(), |i: int| (keys[i]@, strings_view(members[i]@)))
}

proof fn lemma_find_group_stable(g: Seq<(Seq<char>, Seq<Seq<char>>)>, key: Seq<char>, n: int, m: int)
    requires
        n <= m,
        find_group(g, key, n) >= 0,
    ensures
        find_group(g, key, m) == find_group(g, key, n),
    decreases m - n,
{
    if m > n {
        lemma_find_group_stable(g, key, n, m - 1);
    }
}

/// The key of `name` around `sep`, whose first occurrence is at `p`.
fn key_for(name: &Vec<char>, sep: char, p: usize) -> (r: Vec<char>)
    requires
        p == first_in(name@, sep, name@.len() as int),
        p < name.len(),
    ensures
        r@ == key_around(name@, sep),
{
    proof {
        lemma_last_after_first(name@, sep, name@.len() as int);
    }
    let mut key: Vec<char> = Vec::new();
    push_range(&mut key, name, 0, p + 1);
    match last_index(name, sep) {
        Some(q) => {
            if q != p {
                push_range(&mut key, name, q, name.len());
            }
        },
        None => {},
    }
    assert(key@ =~= key_around(name@, sep));
    key
}

/// The expressions that betray a name assembled from template pieces, given the
/// escaped prefix and suffix: `${...}` interpolation, `{...}` interpolation, a
/// quoted piece between them, and a quoted `${...}` interpolation.
pub open spec fn template_forms(ep: Seq<char>, es: Seq<char>) -> Seq<Seq<char>> {
    seq![
        ep + r"\$\{[^}]*\}"@ + es,
        ep + r"\{[^}]*\}"@ + es,
        ep + r"['`][^'`]*['`]"@ + es,
        r#"["'`]"#@ + ep + r"\$\{.*?\}"@ + es + r#"["'`]"#@,
    ]
}

/// The expressions that betray a name assembled by string concatenation, given
/// the escaped prefix and suffix: a quoted `${...}` interpolation,
/// `"prefix" + var + "suffix"`, and `"prefix" + var`.
pub open spec fn concat_forms(ep: Seq<char>, es: Seq<char>) -> Seq<Seq<char>> {
    seq![
        r#"["'`]"#@ + ep + r"\$\{[^}]*\}"@ + es + r#"["'`]"#@,
        r#"["'`]"#@ + ep + r#"["'`]\s*\+\s*\w+\s*\+\s*["'`]"#@ + es + r#"["'`]"#@,
        r#"["'`]"#@ + ep + r#"["'`]\s*\+\s*\w+"#@,
    ]
}

/// Some expression of `forms` is valid and matches `content`.
pub open spec fn some_form_matches(forms: Seq<Seq<char>>, content: Seq<char>) -> bool {
    exists|i: int| 0 <= i < forms.len() && #[trigger] regex_compiles(forms[i]) && regex_is_match(forms[i], content)
}

/// Whether the code in `content` assembles names of the pattern with this prefix and suffix.
pub open spec fn pattern_used(content: Seq<char>, prefix: Seq<char>, suffix: Seq<char>) -> bool {
    some_form_matches(template_forms(escaped(prefix), escaped(suffix)), content)
        || some_form_matches(concat_forms(escaped(prefix), escaped(suffix)), content)
}

/// `a + b + c` as a new string.
fn joined(a: &str, b: &str, c: &str) -> (r: String)
    ensures
        r@ == a@ + b@ + c@,
{
    let mut r = a.to_string();
    r.append(b);
    r.append(c);
    r
}

/// Whether any of the expressions is valid and matches `content`; invalid ones are skipped.
fn any_form_matches(forms: &Vec<String>, content: &str) -> (r: bool)
    ensures
        r == some_form_matches(strings_view(forms@), content@),
{
    let ghost fv = strings_view(forms@);
    let mut i: usize = 0;
    while i < forms.len()
        invariant
            i <= forms.len(),
            fv == strings_view(forms@),
            forall|k: int| 0 <= k < i ==> !(#[trigger] regex_compiles(fv[k]) && regex_is_match(fv[k], content@)),
        decreases forms.len() - i,
    {
        assert(fv[i as int] == forms@[i as int]@);
        match compile(forms[i].as_str()) {
            Ok(re) => {
                if is_match(&re, content) {
                    return true;
                }
            },
            Err(_) => {},
        }
        i = i + 1;
    }
    false
}

/// Named regular expressions, applied line by line.
pub struct TextProcessor {
    patterns: Vec<(String, Regex)>,
}

/// One capture: which pattern, the text of its first group, the 1-based line
/// and the byte offset in that line.
#[derive(Debug, Clone)]
pub struct TextMatch {
    pub pattern_name: String,
    pub matched_text: String,
    pub line: usize,
    pub column: usize,
}

pub open spec fn match_view(m: TextMatch) -> (Seq<char>, Seq<char>, int, int) {
    (m.pattern_name@, m.matched_text@, m.line as int, m.column as int)
}

pub open spec fn matches_view(v: Seq<TextMatch>) -> Seq<(Seq<char>, Seq<char>, int, int)> {
    v.map_values(|m: TextMatch| match_view(m))
}

/// The matches that the first `n` captures of one pattern on one line give.
pub open spec fn capture_matches(
    name: Seq<char>,
    caps: Seq<Option<(int, Seq<char>)>>,
    line_no: int,
    n: int,
) -> Seq<(Seq<char>, Seq<char>, int, int)>
    decreases n,
{
    if n <= 0 {
        Seq::empty()
    } else {
        let prev = capture_matches(name, caps, line_no, n - 1);
        match caps[n - 1] {
            Some(c) => prev.push((name, c.1, line_no, c.0)),
            None => prev,
        }
    }
}

/// The matches of the first `k` patterns on one line.
pub open spec fn line_matches(
    pats: Seq<(Seq<char>, Seq<char>)>,
    line: Seq<char>,
    line_no: int,
    k: int,
) -> Seq<(Seq<char>, Seq<char>, int, int)>
    decreases k,
{
    if k <= 0 {
        Seq::empty()
    } else {
        let caps = regex_group_one(pats[k - 1].1, line);
        line_matches(pats, line, line_no, k - 1) + capture_matches(
            pats[k - 1].0,
            caps,
            line_no,
            caps.len() as int,
        )
    }
}

/// The matches on the first `n` lines, ignored lines contributing none.
pub open spec fn lines_matches(
    pats: Seq<(Seq<char>, Seq<char>)>,
    ls: Seq<Seq<char>>,
    n: int,
) -> Seq<(Seq<char>, Seq<char>, int, int)>
    decreases n,
{
    if n <= 0 {
        Seq::empty()
    } else if ignored_line(ls[n - 1]) {
        lines_matches(pats, ls, n - 1)
    } else {
        lines_matches(pats, ls, n - 1) + line_matches(pats, ls[n - 1], n, pats.len() as int)
    }
}

/// Every match of the patterns in `content`, line by line.
pub open spec fn content_matches(pats: Seq<(Seq<char>, Seq<char>)>, content: Seq<char>) -> Seq<(
    Seq<char>,
    Seq<char>,
    int,
    int,
)> {
    let ls = lines_of(content);
    lines_matches(pats, ls, ls.len() as int)
}

impl View for TextProcessor {
    /// Each pattern's name and source text, in order of registration.
    type V = Seq<(Seq<char>, Seq<char>)>;

    closed spec fn view(&self) -> Seq<(Seq<char>, Seq<char>)> {
        self.patterns@.map_values(|p: (String, Regex)| (p.0@, regex_source(p.1)))
    }
}

impl TextProcessor {
    pub fn new() -> (r: Self)
        ensures
            r@ == Seq::<(Seq<char>, Seq<char>)>::empty(),
    {
        let r = TextProcessor { patterns: Vec::new() };
        assert(r@ =~= Seq::<(Seq<char>, Seq<char>)>::empty());
        r
    }

    /// Registers a named pattern; fails when the pattern is not a valid expression.
    pub fn add_pattern(self, name: &str, pattern: &str) -> (r: Result<Self, TagError>)
        ensures
            r is Ok <==> regex_compiles(pattern@),
            r matches Ok(p) ==> p@ == self@.push((name@, pattern@)),
    {
        match compile(pattern) {
            Ok(re) => {
                let mut p = self;
                let ghost before = p@;
                p.patterns.push((name.to_string(), re));
                assert(p@ =~= before.push((name@, pattern@)));
                Ok(p)
            },
            Err(e) => Err(TagError::InvalidPattern(e)),
        }
    }

    /// Every match of every pattern, by line and then by pattern, skipping blank
    /// lines and lines that open with `//` or `/*`.
    pub fn process_content(&self, content: &str) -> (r: Vec<TextMatch>)
        ensures
            matches_view(r@) == content_matches(self@, content@),
    {
        let ls = lines(content);
        let ghost lsv = lines_of(content@);
        let mut out: Vec<TextMatch> = Vec::new();
        let mut i: usize = 0;
        while i < ls.len()
            invariant
                i <= ls.len(),
                ls@.map_values(|l: String| l@) == lsv,
                matches_view(out@) == lines_matches(self@, lsv, i as int),
            decreases ls.len() - i,
        {
            let line = &ls[i];
            assert(line@ == lsv[i as int]);
            let line_chars = chars_of(line.as_str());
            if !is_ignored_line(&line_chars) {
                let line_no: usize = i + 1;
                let mut k: usize = 0;
                while k < self.patterns.len()
                    invariant
                        k <= self.patterns.len(),
                        line_no == i + 1,
                        line@ == lsv[i as int],
                        matches_view(out@) == lines_matches(self@, lsv, i as int) + line_matches(
                            self@,
                            line@,
                            line_no as int,
                            k as int,
                        ),
                    decreases self.patterns.len() - k,
                {
                    let name = &self.patterns[k].0;
                    let caps = group_one_captures(&self.patterns[k].1, line.as_str());
                    let ghost base = matches_view(out@);
                    let ghost capsv = regex_group_one(self@[k as int].1, line@);
                    assert(self@[k as int] == (self.patterns@[k as int].0@, regex_source(self.patterns@[k as int].1)));
                    let mut j: usize = 0;
                    while j < caps.len()
                        invariant
                            j <= caps.len(),
                            crate::matcher::group_view(caps@) == capsv,
                            name@ == self@[k as int].0,
                            matches_view(out@) == base + capture_matches(name@, capsv, line_no as int, j as int),
                        decreases caps.len() - j,
                    {
                        assert(capsv[j as int] == crate::matcher::group_view(caps@)[j as int]);
                        match &caps[j] {
                            Some(c) => {
                                let m = TextMatch {
                                    pattern_name: name.clone(),
                                    matched_text: c.1.clone(),
                                    line: line_no,
                                    column: c.0,
                                };
                                let ghost prev = matches_view(out@);
                                out.push(m);
                                assert(matches_view(out@) =~= prev.push(match_view(m)));
                            },
                            None => {},
                        }
                        j = j + 1;
                    }
                    k = k + 1;
                }
            }
            i = i + 1;
        }
        out
    }

    /// The key under which a class name is grouped when inferring patterns.
    fn extract_pattern_key(&self, name: &Vec<char>) -> (r: Option<Vec<char>>)
        ensures
            r matches Some(k) ==> pattern_key(name@) == Some(k@),
            r is None ==> pattern_key(name@) is None,
    {
        match first_index(name, '-') {
            Some(p) => Some(key_for(name, '-', p)),
            None => match first_index(name, '_') {
                Some(p) => Some(key_for(name, '_', p)),
                None => None,
            },
        }
    }

    /// The pattern that a group of names gives: their common prefix and suffix,
    /// if the prefix has at least two characters.
    fn create_dynamic_pattern(&self, classes: &Vec<String>) -> (r: Option<DynamicPattern>)
        requires
            classes.len() >= 1,
        ensures
            r matches Some(p) ==> pattern_of(strings_view(classes@)) == Some(p@),
            r is None ==> pattern_of(strings_view(classes@)) is None,
    {
        let ghost ns = strings_view(classes@);
        let mut cs: Vec<Vec<char>> = Vec::new();
        let mut j: usize = 0;
        while j < classes.len()
            invariant
                j <= classes.len(),
                ns == strings_view(classes@),
                chars_view(cs@) == ns.take(j as int),
            decreases classes.len() - j,
        {
            let c = chars_of(classes[j].as_str());
            assert(ns[j as int] == classes@[j as int]@);
            assert(c@ == ns[j as int]);
            let ghost before = chars_view(cs@);
            cs.push(c);
            assert(chars_view(cs@) =~= before.push(c@));
            assert(ns.take(j + 1) =~= ns.take(j as int).push(ns[j as int]));
            j = j + 1;
        }
        assert(ns.take(classes.len() as int) =~= ns);
        let first = &cs[0];
        assert(first@ == ns[0]);
        // common prefix
        let mut lp: usize = 0;
        loop
            invariant
                chars_view(cs@) == ns,
                first@ == ns[0],
                cs.len() >= 1,
                0 <= lp <= first.len(),
                common_prefix_from(ns, lp as int) == common_prefix_from(ns, 0),
            ensures
                lp == common_prefix_from(ns, 0),
            decreases first.len() - lp,
        {
            if lp == first.len() {
                break;
            }
            let mut all = true;
            let mut k: usize = 0;
            while k < cs.len()
                invariant
                    chars_view(cs@) == ns,
                    first@ == ns[0],
                    lp < first.len(),
                    k <= cs.len(),
                    all == (forall|m: int| 0 <= m < k ==> lp < (#[trigger] ns[m]).len() && ns[m][lp as int] == ns[0][lp as int]),
                decreases cs.len() - k,
            {
                assert(cs@[k as int]@ == ns[k as int]);
                if !(lp < cs[k].len() && cs[k][lp] == first[lp]) {
                    all = false;
                }
                k = k + 1;
            }
            if !all {
                break;
            }
            lp = lp + 1;
        }
        // common suffix
        let mut ls: usize = 0;
        loop
            invariant
                chars_view(cs@) == ns,
                first@ == ns[0],
                cs.len() >= 1,
                0 <= ls <= first.len(),
                common_suffix_from(ns, ls as int) == common_suffix_from(ns, 0),
            ensures
                ls == common_suffix_from(ns, 0),
            decreases first.len() - ls,
        {
            if ls == first.len() {
                break;
            }
            let i: usize = ls + 1;
            let mut all = true;
            let mut k: usize = 0;
            while k < cs.len()
                invariant
                    chars_view(cs@) == ns,
                    first@ == ns[0],
                    1 <= i <= first.len(),
                    k <= cs.len(),
                    all == (forall|m: int| 0 <= m < k ==> i <= (#[trigger] ns[m]).len() && ns[m][ns[m].len() - i] == ns[0][ns[0].len() - i]),
                decreases cs.len() - k,
            {
                assert(cs@[k as int]@ == ns[k as int]);
                if !(i <= cs[k].len() && cs[k][cs[k].len() - i] == first[first.len() - i]) {
                    all = false;
                }
                k = k + 1;
            }
            if !all {
                break;
            }
            ls = ls + 1;
        }
        if lp < 2 {
            return None;
        }
        let name0 = classes[0].as_str();
        let prefix = name0.substring_char(0, lp).to_string();
        let suffix = name0.substring_char(first.len() - ls, first.len()).to_string();
        let mut pattern = prefix.clone();
        pattern.append("*");
        pattern.append(suffix.as_str());
        proof {
            reveal_strlit("*");
        }
        assert(pattern@ =~= prefix@ + seq!['*'] + suffix@);
        let p = DynamicPattern {
            prefix,
            suffix,
            pattern,
            matching_classes: clone_strings(classes),
        };
        Some(p)
    }

    /// Infers dynamic patterns: names are grouped by `pattern_key` in order of
    /// first appearance, and each group of two or more names whose common prefix
    /// has at least two characters gives one pattern.
    pub fn detect_dynamic_patterns(&self, class_names: &[String]) -> (r: Vec<DynamicPattern>)
        ensures
            patterns_view(r@) == dynamic_patterns(strings_view(class_names@)),
    {
        let ghost names = strings_view(class_names@);
        let mut keys: Vec<Vec<char>> = Vec::new();
        let mut members: Vec<Vec<String>> = Vec::new();
        let mut n: usize = 0;
        while n < class_names.len()
            invariant
                n <= class_names.len(),
                names == strings_view(class_names@),
                keys.len() == members.len(),
                groups_view(keys@, members@) == groups_of(names, n as int),
                forall|j: int| 0 <= j < members.len() ==> (#[trigger] members@[j]).len() >= 1,
            decreases class_names.len() - n,
        {
            let ghost g = groups_of(names, n as int);
            let name_chars = chars_of(class_names[n].as_str());
            assert(names[n as int] == class_names@[n as int]@);
            assert(name_chars@ == names[n as int]);
            assert(groups_of(names, n + 1) == add_to_groups(g, names[n as int]));
            match self.extract_pattern_key(&name_chars) {
                None => {},
                Some(key) => {
                    let mut j: usize = 0;
                    let mut found = false;
                    while j < keys.len()
                        invariant
                            keys.len() == members.len(),
                            groups_view(keys@, members@) == g,
                            j <= keys.len(),
                            !found ==> find_group(g, key@, j as int) == -1,
                            found ==> find_group(g, key@, keys.len() as int) == j && j < keys.len() && keys@[j as int]@ == key@,
                        ensures
                            !found ==> find_group(g, key@, keys.len() as int) == -1,
                            found ==> find_group(g, key@, keys.len() as int) == j && j < keys.len() && keys@[j as int]@ == key@,
                        decreases keys.len() - j + (if found { 0int } else { 1int }),
                    {
                        if found {
                            break;
                        }
                        assert(g[j as int].0 == keys@[j as int]@);
                        if same_chars(&keys[j], &key) {
                            found = true;
                            assert(find_group(g, key@, j + 1) == j);
                            proof {
                                lemma_find_group_stable(g, key@, j + 1, g.len() as int);
                            }
                        } else {
                            j = j + 1;
                        }
                    }
                    if found {
                        let mut m: Vec<String> = Vec::new();
                        members.set_and_swap(j, &mut m);
                        assert(strings_view(m@) == g[j as int].1);
                        m.push(class_names[n].clone());
                        assert(strings_view(m@) =~= g[j as int].1.push(names[n as int]));
                        members.set(j, m);
                        assert(groups_view(keys@, members@) =~= g.update(j as int, (key@, g[j as int].1.push(names[n as int]))));
                        assert(groups_view(keys@, members@) == add_to_groups(g, names[n as int]));
                    } else {
                        let mut m: Vec<String> = Vec::new();
                        m.push(class_names[n].clone());
                        keys.push(key);
                        members.push(m);
                        assert(strings_view(m@) =~= seq![names[n as int]]);
                        assert(groups_view(keys@, members@) =~= g.push((key@, seq![names[n as int]])));
                        assert(groups_view(keys@, members@) == add_to_groups(g, names[n as int]));
                    }
                },
            }
            n = n + 1;
        }
        let ghost g = groups_of(names, names.len() as int);
        let mut out: Vec<DynamicPattern> = Vec::new();
        let mut i: usize = 0;
        while i < members.len()
            invariant
                keys.len() == members.len(),
                groups_view(keys@, members@) == g,
                i <= members.len(),
                patterns_view(out@) == patterns_of_groups(g, i as int),
                forall|j: int| 0 <= j < members.len() ==> (#[trigger] members@[j]).len() >= 1,
            decreases members.len() - i,
        {
            assert(g[i as int].1 == strings_view(members@[i as int]@));
            if members[i].len() >= 2 {
                match self.create_dynamic_pattern(&members[i]) {
                    Some(p) => {
                        let ghost prev = patterns_view(out@);
                        out.push(p);
                        assert(patterns_view(out@) =~= prev.push(p@));
                    },
                    None => {},
                }
            }
            i = i + 1;
        }
        out
    }

    /// Whether `content` assembles names of the pattern dynamically: through
    /// template interpolation or string concatenation around its prefix and suffix.
    pub fn find_pattern_usage(&self, content: &str, pattern: &DynamicPattern) -> (r: bool)
        ensures
            r == pattern_used(content@, pattern.prefix@, pattern.suffix@),
    {
        let ep = escape(pattern.prefix.as_str());
        let es = escape(pattern.suffix.as_str());
        let mut forms: Vec<String> = Vec::new();
        forms.push(joined(ep.as_str(), r"\$\{[^}]*\}", es.as_str()));
        forms.push(joined(ep.as_str(), r"\{[^}]*\}", es.as_str()));
        forms.push(joined(ep.as_str(), r"['`][^'`]*['`]", es.as_str()));
        let mut last = joined(r#"["'`]"#, ep.as_str(), r"\$\{.*?\}");
        last.append(es.as_str());
        last.append(r#"["'`]"#);
        forms.push(last);
        assert(strings_view(forms@) =~= template_forms(ep@, es@));
        if any_form_matches(&forms, content) {
            return true;
        }
        self.find_string_concatenation_usage(content, pattern)
    }

    /// Whether `content` builds names of the pattern by string concatenation.
    fn find_string_concatenation_usage(&self, content: &str, pattern: &DynamicPattern) -> (r: bool)
        ensures
            r == some_form_matches(concat_forms(escaped(pattern.prefix@), escaped(pattern.suffix@)), content@),
    {
        let ep = escape(pattern.prefix.as_str());
        let es = escape(pattern.suffix.as_str());
        let mut forms: Vec<String> = Vec::new();
        let mut a = joined(r#"["'`]"#, ep.as_str(), r"\$\{[^}]*\}");
        a.append(es.as_str());
        a.append(r#"["'`]"#);
        forms.push(a);
        let mut b = joined(r#"["'`]"#, ep.as_str(), r#"["'`]\s*\+\s*\w+\s*\+\s*["'`]"#);
        b.append(es.as_str());
        b.append(r#"["'`]"#);
        forms.push(b);
        forms.push(joined(r#"["'`]"#, ep.as_str(), r#"["'`]\s*\+\s*\w+"#));
        assert(strings_view(forms@) =~= concat_forms(ep@, es@));
        any_form_matches(&forms, content)
    }

    /// Whether `target_word` is one of the pieces of `content` split at every
    /// character that is not alphanumeric, `_` or `-`.
    pub fn find_exact_words(&self, content: &str, target_word: &str) -> (r: bool)
        ensures
            r == has_word(content@, target_word@),
    {
        let c = chars_of(content);
        let w = chars_of(target_word);
        contains_word(&c, &w)
    }
}

} // verus!
