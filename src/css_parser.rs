//! Extraction of class selectors from stylesheets.
use vstd::prelude::*;
use crate::error::TagError;
use crate::matcher::regex_compiles;
use crate::text_processor::{content_matches, TextProcessor};
use crate::text::chars_of;

verus! {

/// Extracts class records from stylesheet contents.
pub struct CssParser {
    thread_count: Option<usize>,
}

/// A class selector declared in a stylesheet: its name, the file and the
/// 1-based line of its first declaration there.
#[derive(Debug, Clone)]
pub struct CssClass {
    pub name: String,
    pub file: String,
    pub line: usize,
}

impl View for CssClass {
    type V = (Seq<char>, Seq<char>, int);

    open spec fn view(&self) -> (Seq<char>, Seq<char>, int) {
        (self.name@, self.file@, self.line as int)
    }
}

pub open spec fn classes_view(v: Seq<CssClass>) -> Seq<(Seq<char>, Seq<char>, int)> {
    v.map_values(|c: CssClass| c@)
}

/// The name of the pattern that finds class selectors.
pub open spec fn class_pattern_name() -> Seq<char> {
    "css_class"@
}

/// A `.` followed by a class name, which the first group captures.
pub open spec fn class_pattern() -> Seq<char> {
    r"\.([a-zA-Z][a-zA-Z0-9_-]*)"@
}

/// A name of at least two characters that is not made of digits alone.
pub open spec fn valid_class_name(s: Seq<char>) -> bool {
    s.len() >= 2 && !(forall|k: int| 0 <= k < s.len() ==> '0' <= #[trigger] s[k] <= '9')
}

/// The class records that the first `n` matches in one file give.
pub open spec fn records_of_matches(
    ms: Seq<(Seq<char>, Seq<char>, int, int)>,
    file: Seq<char>,
    n: int,
) -> Seq<(Seq<char>, Seq<char>, int)>
    decreases n,
{
    if n <= 0 {
        Seq::empty()
    } else {
        let prev = records_of_matches(ms, file, n - 1);
        let m = ms[n - 1];
        if m.0 == class_pattern_name() && valid_class_name(m.1) {
            prev.push((m.1, file, m.2))
        } else {
            prev
        }
    }
}

/// The class records of one stylesheet, in order of appearance.
pub open spec fn file_records(file: Seq<char>, content: Seq<char>) -> Seq<(Seq<char>, Seq<char>, int)> {
    let ms = content_matches(seq![(class_pattern_name(), class_pattern())], content);
    records_of_matches(ms, file, ms.len() as int)
}

/// The class records of the first `n` files, file after file.
pub open spec fn all_records(files: Seq<(Seq<char>, Seq<char>)>, n: int) -> Seq<(Seq<char>, Seq<char>, int)>
    decreases n,
{
    if n <= 0 {
        Seq::empty()
    } else {
        all_records(files, n - 1) + file_records(files[n - 1].0, files[n - 1].1)
    }
}

/// Some record of `s` has this name and file.
pub open spec fn has_key(s: Seq<(Seq<char>, Seq<char>, int)>, name: Seq<char>, file: Seq<char>) -> bool {
    exists|j: int| 0 <= j < s.len() && (#[trigger] s[j]).0 == name && s[j].1 == file
}

/// The first `n` records with every record whose name and file came before dropped.
pub open spec fn dedup_records(s: Seq<(Seq<char>, Seq<char>, int)>, n: int) -> Seq<(Seq<char>, Seq<char>, int)>
    decreases n,
{
    if n <= 0 {
        Seq::empty()
    } else {
        let prev = dedup_records(s, n - 1);
        if has_key(prev, s[n - 1].0, s[n - 1].1) {
            prev
        } else {
            prev.push(s[n - 1])
        }
    }
}

pub open spec fn dedup(s: Seq<(Seq<char>, Seq<char>, int)>) -> Seq<(Seq<char>, Seq<char>, int)> {
    dedup_records(s, s.len() as int)
}

pub open spec fn files_view(v: Seq<(String, String)>) -> Seq<(Seq<char>, Seq<char>)> {
    v.map_values(|f: (String, String)| (f.0@, f.1@))
}

/// The classes declared in the files: every valid name that the class pattern
/// captures on a line that is not ignored, first declaration per name and file.
pub open spec fn extracted_classes(files: Seq<(Seq<char>, Seq<char>)>) -> Seq<(Seq<char>, Seq<char>, int)> {
    dedup(all_records(files, files.len() as int))
}

/// A copy of the record.
pub fn copy_class(c: &CssClass) -> (r: CssClass)
    ensures
        r@ == c@,
{
    CssClass { name: c.name.clone(), file: c.file.clone(), line: c.line }
}

/// No two records of `s` share name and file.
pub open spec fn unique_keys(s: Seq<(Seq<char>, Seq<char>, int)>) -> bool {
    forall|i: int, j: int| 0 <= i < j < s.len() ==> !(#[trigger] s[i].0 == #[trigger] s[j].0 && s[i].1 == s[j].1)
}

proof fn lemma_dedup_records_unique(s: Seq<(Seq<char>, Seq<char>, int)>, n: int)
    ensures
        unique_keys(dedup_records(s, n)),
    decreases n,
{
    if n > 0 {
        lemma_dedup_records_unique(s, n - 1);
        let prev = dedup_records(s, n - 1);
        if !has_key(prev, s[n - 1].0, s[n - 1].1) {
            let d = prev.push(s[n - 1]);
            assert forall|i: int, j: int| 0 <= i < j < d.len() implies !(#[trigger] d[i].0 == #[trigger] d[j].0 && d[i].1 == d[j].1) by {
                if j == d.len() - 1 {
                    assert(prev[i] == d[i]);
                } else {
                    assert(prev[i] == d[i] && prev[j] == d[j]);
                }
            }
        }
    }
}

proof fn lemma_dedup_of_unique(t: Seq<(Seq<char>, Seq<char>, int)>, k: int)
    requires
        unique_keys(t),
        0 <= k <= t.len(),
    ensures
        dedup_records(t, k) == t.take(k),
    decreases k,
{
    if k > 0 {
        lemma_dedup_of_unique(t, k - 1);
        let prev = t.take(k - 1);
        assert forall|j: int| 0 <= j < prev.len() implies !((#[trigger] prev[j]).0 == t[k - 1].0 && prev[j].1 == t[k - 1].1) by {
            assert(prev[j] == t[j]);
        }
        assert(t.take(k) =~= prev.push(t[k - 1]));
    }
}

/// Extraction yields each (name, file) pair at most once.
pub proof fn extraction_keys_unique(files: Seq<(Seq<char>, Seq<char>)>)
    ensures
        unique_keys(extracted_classes(files)),
{
    let s = all_records(files, files.len() as int);
    lemma_dedup_records_unique(s, s.len() as int);
}

/// Deduplicating what extraction returns changes nothing: extraction is idempotent.
pub proof fn extraction_idempotent(files: Seq<(Seq<char>, Seq<char>)>)
    ensures
        dedup(extracted_classes(files)) == extracted_classes(files),
{
    let t = extracted_classes(files);
    extraction_keys_unique(files);
    lemma_dedup_of_unique(t, t.len() as int);
    assert(t.take(t.len() as int) =~= t);
}

impl CssParser {
    pub fn new() -> (r: Self)
        ensures
            r.thread_count() is None,
    {
        CssParser { thread_count: None }
    }

    pub closed spec fn thread_count(&self) -> Option<usize> {
        self.thread_count
    }

    pub fn with_thread_count(self, count: usize) -> (r: Self)
        ensures
            r.thread_count() == Some(count),
    {
        CssParser { thread_count: Some(count) }
    }

    /// The worker count asked for, if any.
    pub fn get_thread_count(&self) -> (r: Option<usize>)
        ensures
            r == self.thread_count(),
    {
        self.thread_count
    }

    /// The class records of the stylesheets, file after file, each (name, file)
    /// pair once with the line of its first declaration. Fails only if the class
    /// pattern cannot be compiled.
    pub fn extract_classes_parallel(&self, files_with_content: Vec<(String, String)>) -> (r: Result<Vec<CssClass>, TagError>)
        ensures
            r is Ok <==> regex_compiles(class_pattern()),
            r matches Ok(v) ==> classes_view(v@) == extracted_classes(files_view(files_with_content@)),
    {
        let processor = match TextProcessor::new().add_pattern("css_class", r"\.([a-zA-Z][a-zA-Z0-9_-]*)") {
            Ok(p) => p,
            Err(e) => {
                return Err(e);
            },
        };
        let ghost pats = seq![(class_pattern_name(), class_pattern())];
        assert(processor@ =~= pats);
        let ghost files = files_view(files_with_content@);
        let mut all: Vec<CssClass> = Vec::new();
        let mut i: usize = 0;
        while i < files_with_content.len()
            invariant
                i <= files_with_content.len(),
                processor@ == pats,
                pats == seq![(class_pattern_name(), class_pattern())],
                files == files_view(files_with_content@),
                classes_view(all@) == all_records(files, i as int),
            decreases files_with_content.len() - i,
        {
            let path = &files_with_content[i].0;
            let content = &files_with_content[i].1;
            assert(files[i as int] == (path@, content@));
            let ms = processor.process_content(content.as_str());
            let ghost msv = crate::text_processor::matches_view(ms@);
            assert(msv == content_matches(pats, content@));
            let ghost base = classes_view(all@);
            let mut k: usize = 0;
            while k < ms.len()
                invariant
                    k <= ms.len(),
                    msv == crate::text_processor::matches_view(ms@),
                    classes_view(all@) == base + records_of_matches(msv, path@, k as int),
                decreases ms.len() - k,
            {
                let m = &ms[k];
                assert(msv[k as int] == crate::text_processor::match_view(*m));
                let is_class = m.pattern_name == "css_class".to_string();
                if is_class && self.is_valid_class_name(m.matched_text.as_str()) {
                    let c = CssClass { name: m.matched_text.clone(), file: path.clone(), line: m.line };
                    let ghost prev = classes_view(all@);
                    all.push(c);
                    assert(classes_view(all@) =~= prev.push(c@));
                }
                k = k + 1;
            }
            assert(file_records(path@, content@) == records_of_matches(content_matches(pats, content@), path@, content_matches(pats, content@).len() as int));
            assert(msv.len() == ms.len());
            assert(classes_view(all@) =~= all_records(files, i + 1));
            i = i + 1;
        }
        self.deduplicate_classes(&mut all);
        Ok(all)
    }

    /// At least two characters, not all of them digits.
    fn is_valid_class_name(&self, name: &str) -> (r: bool)
        ensures
            r == valid_class_name(name@),
    {
        let c = chars_of(name);
        if c.len() < 2 {
            return false;
        }
        let mut k: usize = 0;
        while k < c.len()
            invariant
                k <= c.len(),
                c@ == name@,
                c.len() >= 2,
                forall|j: int| 0 <= j < k ==> '0' <= #[trigger] c@[j] <= '9',
            decreases c.len() - k,
        {
            if !('0' <= c[k] && c[k] <= '9') {
                assert(!('0' <= name@[k as int] <= '9'));
                return true;
            }
            k = k + 1;
        }
        false
    }

    /// Keeps the first record of each (name, file) pair, in order.
    fn deduplicate_classes(&self, classes: &mut Vec<CssClass>)
        ensures
            classes_view(final(classes)@) == dedup(classes_view(old(classes)@)),
    {
        let ghost s = classes_view(classes@);
        let mut out: Vec<CssClass> = Vec::new();
        let mut i: usize = 0;
        while i < classes.len()
            invariant
                i <= classes.len(),
                s == classes_view(classes@),
                classes@ == old(classes)@,
                classes_view(out@) == dedup_records(s, i as int),
            decreases classes.len() - i,
        {
            let c = &classes[i];
            assert(s[i as int] == c@);
            let ghost ov = classes_view(out@);
            let mut j: usize = 0;
            let mut seen = false;
            while j < out.len()
                invariant_except_break
                    !seen,
                invariant
                    j <= out.len(),
                    ov == classes_view(out@),
                    forall|k: int| 0 <= k < j ==> !((#[trigger] ov[k]).0 == c.name@ && ov[k].1 == c.file@),
                ensures
                    seen ==> has_key(ov, c.name@, c.file@),
                    !seen ==> !has_key(ov, c.name@, c.file@),
                decreases out.len() - j,
            {
                assert(ov[j as int] == out@[j as int]@);
                if out[j].name == c.name && out[j].file == c.file {
                    seen = true;
                    break;
                }
                j = j + 1;
            }
            if !seen {
                let ghost prev = classes_view(out@);
                out.push(copy_class(c));
                assert(classes_view(out@) =~= prev.push(c@));
            }
            i = i + 1;
        }
        assert(s.len() == classes.len());
        *classes = out;
    }
}

} // verus!
