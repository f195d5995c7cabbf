//! Which files contain a word, and whether only stylesheets do.
use vstd::prelude::*;
use crate::config::{default_css_extensions_spec, Config};
use crate::css_parser::files_view;
use crate::text::{chars_of, contains_substring, contains_word, has_substring, has_word, is_word_char, strings_view, word_char, contains_string};
use crate::utils::{extension_of, get_file_extension, select_by, separate_items_by_condition};

verus! {

/// Searches file contents for a word.
pub struct FileScanner {
    thread_count: Option<usize>,
    config: Option<Config>,
}

/// The files that contain the word, split into stylesheets and the rest.
#[derive(Debug)]
pub struct ScanResult {
    pub css_files: Vec<String>,
    pub other_files: Vec<String>,
    pub is_css_only: bool,
}

/// A file that contains the word, and whether it is a stylesheet.
struct ScanFileResult {
    file_path: String,
    is_css: bool,
}

/// The word holds a character that cannot stand inside a word.
pub open spec fn has_special_chars(w: Seq<char>) -> bool {
    exists|k: int| 0 <= k < w.len() && !word_char(#[trigger] w[k])
}

/// Whether the content contains the word: as a substring when the word holds a
/// special character, as a whole token otherwise.
pub open spec fn file_contains(content: Seq<char>, word: Seq<char>) -> bool {
    if has_special_chars(word) {
        has_substring(content, word)
    } else {
        has_word(content, word)
    }
}

/// The paths, among the first `n` files, that contain the word and whose
/// stylesheet status is `css`.
pub open spec fn matching_paths(
    files: Seq<(Seq<char>, Seq<char>)>,
    word: Seq<char>,
    css_exts: Seq<Seq<char>>,
    css: bool,
    n: int,
) -> Seq<Seq<char>>
    decreases n,
{
    if n <= 0 {
        Seq::empty()
    } else {
        let prev = matching_paths(files, word, css_exts, css, n - 1);
        let f = files[n - 1];
        if file_contains(f.1, word) && stylesheet_path(css_exts, f.0) == css {
            prev.push(f.0)
        } else {
            prev
        }
    }
}

/// The path's extension is one of the stylesheet extensions.
pub open spec fn stylesheet_path(css_exts: Seq<Seq<char>>, path: Seq<char>) -> bool {
    extension_of(path) is Some && css_exts.contains(extension_of(path)->Some_0)
}

/// Stylesheets that contain the word, in order.
pub open spec fn css_matches(files: Seq<(Seq<char>, Seq<char>)>, word: Seq<char>, css_exts: Seq<Seq<char>>) -> Seq<Seq<char>> {
    matching_paths(files, word, css_exts, true, files.len() as int)
}

/// Other files that contain the word, in order.
pub open spec fn other_matches(files: Seq<(Seq<char>, Seq<char>)>, word: Seq<char>, css_exts: Seq<Seq<char>>) -> Seq<Seq<char>> {
    matching_paths(files, word, css_exts, false, files.len() as int)
}

impl ScanResult {
    /// Stylesheets contain the word and nothing else does.
    pub open spec fn wf(&self) -> bool {
        self.is_css_only == (self.css_files@.len() > 0 && self.other_files@.len() == 0)
    }
}

spec fn scan_results_view(v: Seq<ScanFileResult>) -> Seq<(Seq<char>, bool)> {
    v.map_values(|r: ScanFileResult| (r.file_path@, r.is_css))
}

/// The paths of the first `n` entries whose flag is `css`, in order.
spec fn select_paths_upto(rv: Seq<(Seq<char>, bool)>, css: bool, n: int) -> Seq<Seq<char>>
    decreases n,
{
    if n <= 0 {
        Seq::empty()
    } else if rv[n - 1].1 == css {
        select_paths_upto(rv, css, n - 1).push(rv[n - 1].0)
    } else {
        select_paths_upto(rv, css, n - 1)
    }
}

spec fn select_paths(rv: Seq<(Seq<char>, bool)>, css: bool) -> Seq<Seq<char>> {
    select_paths_upto(rv, css, rv.len() as int)
}

proof fn lemma_select_paths_prefix(rv: Seq<(Seq<char>, bool)>, e: (Seq<char>, bool), css: bool, k: int)
    requires
        0 <= k <= rv.len(),
    ensures
        select_paths_upto(rv.push(e), css, k) == select_paths_upto(rv, css, k),
    decreases k,
{
    if k > 0 {
        lemma_select_paths_prefix(rv, e, css, k - 1);
        assert(rv.push(e)[k - 1] == rv[k - 1]);
    }
}

proof fn lemma_select_paths_push(rv: Seq<(Seq<char>, bool)>, e: (Seq<char>, bool), css: bool)
    ensures
        select_paths(rv.push(e), css) == if e.1 == css {
            select_paths(rv, css).push(e.0)
        } else {
            select_paths(rv, css)
        },
{
    lemma_select_paths_prefix(rv, e, css, rv.len() as int);
    assert(rv.push(e)[rv.len() as int] == e);
}

spec fn paths_of(v: Seq<ScanFileResult>) -> Seq<Seq<char>> {
    v.map_values(|r: ScanFileResult| r.file_path@)
}

proof fn lemma_paths_of_selected(items: Seq<ScanFileResult>, flags: Seq<bool>, css: bool, n: int)
    requires
        0 <= n <= items.len() == flags.len(),
        forall|i: int| 0 <= i < items.len() ==> #[trigger] flags[i] == items[i].is_css,
    ensures
        paths_of(select_by(items, flags, css, n)) == select_paths_upto(scan_results_view(items), css, n),
    decreases n,
{
    if n > 0 {
        lemma_paths_of_selected(items, flags, css, n - 1);
        let prev = select_by(items, flags, css, n - 1);
        assert(flags[n - 1] == items[n - 1].is_css);
        assert(paths_of(prev.push(items[n - 1])) =~= paths_of(prev).push(items[n - 1].file_path@));
    }
}

/// The path of each entry, in order.
fn take_paths(v: Vec<ScanFileResult>) -> (r: Vec<String>)
    ensures
        strings_view(r@) == paths_of(v@),
{
    let ghost all = v@;
    let mut r: Vec<String> = Vec::new();
    for e in it: v
        invariant
            all == it.seq(),
            r.len() == it.index(),
            forall|k: int| 0 <= k < r.len() ==> r@[k]@ == (#[trigger] all[k]).file_path@,
    {
        r.push(e.file_path);
    }
    assert(strings_view(r@) =~= paths_of(all));
    r
}

/// Whether a word search shows its result lists: when all matches are asked
/// for, or when the word is found in stylesheets only.
pub fn should_show_results(result: &ScanResult, all: bool) -> (r: bool)
    ensures
        r == (all || result.is_css_only),
{
    all || result.is_css_only
}

/// Whether the word was found, but not in stylesheets only.
pub fn has_non_css_matches(result: &ScanResult) -> (r: bool)
    ensures
        r == (!result.is_css_only && (result.css_files@.len() > 0 || result.other_files@.len() > 0)),
{
    !result.is_css_only && (result.css_files.len() > 0 || result.other_files.len() > 0)
}

impl FileScanner {
    pub fn new() -> (r: Self)
        ensures
            r.thread_count() is None,
            r.css_extensions() == default_css_extensions_spec(),
    {
        FileScanner { thread_count: None, config: None }
    }

    pub closed spec fn thread_count(&self) -> Option<usize> {
        self.thread_count
    }

    /// The extensions that mark a stylesheet: the configured ones, else `css` and `scss`.
    pub closed spec fn css_extensions(&self) -> Seq<Seq<char>> {
        match self.config {
            Some(c) => c.css_extensions_view(),
            None => default_css_extensions_spec(),
        }
    }

    pub fn with_thread_count(self, count: usize) -> (r: Self)
        ensures
            r.thread_count() == Some(count),
            r.css_extensions() == self.css_extensions(),
    {
        FileScanner { thread_count: Some(count), config: self.config }
    }

    pub fn with_config(self, config: Config) -> (r: Self)
        ensures
            r.thread_count() == self.thread_count(),
            r.css_extensions() == config.css_extensions_view(),
    {
        FileScanner { thread_count: self.thread_count, config: Some(config) }
    }

    /// The worker count asked for, if any.
    pub fn get_thread_count(&self) -> (r: Option<usize>)
        ensures
            r == self.thread_count(),
    {
        self.thread_count
    }

    /// Whether the word is found in the content, by the rule of `file_contains`.
    pub fn file_matches(&self, target_word: &str, content: &str) -> (r: bool)
        ensures
            r == file_contains(content@, target_word@),
    {
        let w = chars_of(target_word);
        let c = chars_of(content);
        if self.contains_special_chars(target_word) {
            contains_substring(&c, &w)
        } else {
            contains_word(&c, &w)
        }
    }

    /// The files that contain the word, bucketed by whether they are stylesheets.
    pub fn scan(&self, target_word: String, files_with_content: Vec<(String, String)>) -> (r: ScanResult)
        ensures
            r.wf(),
            strings_view(r.css_files@) == css_matches(files_view(files_with_content@), target_word@, self.css_extensions()),
            strings_view(r.other_files@) == other_matches(files_view(files_with_content@), target_word@, self.css_extensions()),
    {
        self.scan_files(target_word.as_str(), &files_with_content)
    }

    /// `scan` on borrowed files.
    pub fn scan_files(&self, target_word: &str, files_with_content: &Vec<(String, String)>) -> (r: ScanResult)
        ensures
            r.wf(),
            strings_view(r.css_files@) == css_matches(files_view(files_with_content@), target_word@, self.css_extensions()),
            strings_view(r.other_files@) == other_matches(files_view(files_with_content@), target_word@, self.css_extensions()),
    {
        let ghost files = files_view(files_with_content@);
        let ghost exts = self.css_extensions();
        let mut results: Vec<ScanFileResult> = Vec::new();
        let mut i: usize = 0;
        while i < files_with_content.len()
            invariant
                i <= files_with_content.len(),
                files == files_view(files_with_content@),
                exts == self.css_extensions(),
                forall|k: int| 0 <= k < results.len() ==> (#[trigger] results@[k]).is_css == stylesheet_path(exts, results@[k].file_path@),
                select_paths(scan_results_view(results@), true) == matching_paths(files, target_word@, exts, true, i as int),
                select_paths(scan_results_view(results@), false) == matching_paths(files, target_word@, exts, false, i as int),
            decreases files_with_content.len() - i,
        {
            let path = &files_with_content[i].0;
            let content = &files_with_content[i].1;
            assert(files[i as int] == (path@, content@));
            if self.file_matches(target_word, content.as_str()) {
                let is_css = self.is_css_file(path.as_str());
                let ghost before = scan_results_view(results@);
                results.push(ScanFileResult { file_path: path.clone(), is_css });
                assert(scan_results_view(results@) =~= before.push((path@, is_css)));
                proof {
                    lemma_select_paths_push(before, (path@, is_css), true);
                    lemma_select_paths_push(before, (path@, is_css), false);
                }
            }
            i = i + 1;
        }
        self.process_scan_results(results)
    }

    /// Whether the path names a stylesheet.
    pub fn is_css_file(&self, path: &str) -> (r: bool)
        ensures
            r == stylesheet_path(self.css_extensions(), path@),
    {
        match get_file_extension(path) {
            Some(ext) => match &self.config {
                Some(config) => contains_string(&config.scan.css_extensions, ext.as_str()),
                None => {
                    let css = "css".to_string();
                    let scss = "scss".to_string();
                    let r = ext == css || ext == scss;
                    assert(default_css_extensions_spec()[0] == "css"@);
                    assert(default_css_extensions_spec()[1] == "scss"@);
                    assert(r ==> default_css_extensions_spec().contains(ext@));
                    r
                },
            },
            None => false,
        }
    }

    /// Splits the matching files into stylesheets and the rest.
    fn process_scan_results(&self, results: Vec<ScanFileResult>) -> (r: ScanResult)
        ensures
            r.wf(),
            strings_view(r.css_files@) == select_paths(scan_results_view(results@), true),
            strings_view(r.other_files@) == select_paths(scan_results_view(results@), false),
    {
        let ghost rv = scan_results_view(results@);
        let (css_results, other_results) = separate_items_by_condition(results, |r: &ScanFileResult| -> (b: bool)
            ensures
                b == r.is_css,
            { r.is_css });
        let css_files = take_paths(css_results);
        let other_files = take_paths(other_results);
        proof {
            let flags = choose|flags: Seq<bool>|
                #![trigger select_by(results@, flags, true, results@.len() as int)]
                flags.len() == results@.len()
                && (forall|i: int| 0 <= i < results@.len() ==> #[trigger] flags[i] == results@[i].is_css)
                && css_results@ == select_by(results@, flags, true, results@.len() as int)
                && other_results@ == select_by(results@, flags, false, results@.len() as int);
            lemma_paths_of_selected(results@, flags, true, results@.len() as int);
            lemma_paths_of_selected(results@, flags, false, results@.len() as int);
        }
        let is_css_only = css_files.len() > 0 && other_files.len() == 0;
        ScanResult { css_files, other_files, is_css_only }
    }

    /// Whether the word holds a character other than alphanumerics, `_` and `-`.
    fn contains_special_chars(&self, word: &str) -> (r: bool)
        ensures
            r == has_special_chars(word@),
    {
        let w = chars_of(word);
        let mut k: usize = 0;
        while k < w.len()
            invariant
                k <= w.len(),
                w@ == word@,
                forall|j: int| 0 <= j < k ==> word_char(#[trigger] w@[j]),
            decreases w.len() - k,
        {
            if !is_word_char(w[k]) {
                assert(!word_char(word@[k as int]));
                return true;
            }
            k = k + 1;
        }
        false
    }
}

} // verus!
