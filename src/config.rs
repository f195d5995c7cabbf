//! The rules that decide which files take part in a scan.
use vstd::prelude::*;
use crate::text::{clone_strings, chars_of, contains_string, matches_at, strings_view};
use crate::utils::{extension_of, get_file_extension};

verus! {

#[derive(Debug, Clone)]
pub struct Config {
    pub scan: ScanConfig,
}

/// Directory names never entered, extensions of source files searched for
/// usages, and extensions of stylesheets.
#[derive(Debug, Clone)]
pub struct ScanConfig {
    pub exclude_dirs: Vec<String>,
    pub include_extensions: Vec<String>,
    pub css_extensions: Vec<String>,
}

pub open spec fn default_exclude_dirs_spec() -> Seq<Seq<char>> {
    seq!["node_modules"@, "dist"@, "build"@, ".git"@, ".vscode"@, ".idea"@, "target"@]
}

pub open spec fn default_include_extensions_spec() -> Seq<Seq<char>> {
    seq!["html"@, "js"@, "jsx"@, "ts"@, "tsx"@, "php"@]
}

pub open spec fn default_css_extensions_spec() -> Seq<Seq<char>> {
    seq!["css"@, "scss"@]
}

/// Dependency, build-output and editor directories.
pub fn default_exclude_dirs() -> (r: Vec<String>)
    ensures
        strings_view(r@) == default_exclude_dirs_spec(),
{
    let r = vec![
        "node_modules".to_string(),
        "dist".to_string(),
        "build".to_string(),
        ".git".to_string(),
        ".vscode".to_string(),
        ".idea".to_string(),
        "target".to_string(),
    ];
    assert(strings_view(r@) =~= default_exclude_dirs_spec());
    r
}

/// Markup and script sources.
pub fn default_include_extensions() -> (r: Vec<String>)
    ensures
        strings_view(r@) == default_include_extensions_spec(),
{
    let r = vec![
        "html".to_string(),
        "js".to_string(),
        "jsx".to_string(),
        "ts".to_string(),
        "tsx".to_string(),
        "php".to_string(),
    ];
    assert(strings_view(r@) =~= default_include_extensions_spec());
    r
}

/// Stylesheets.
pub fn default_css_extensions() -> (r: Vec<String>)
    ensures
        strings_view(r@) == default_css_extensions_spec(),
{
    let r = vec!["css".to_string(), "scss".to_string()];
    assert(strings_view(r@) =~= default_css_extensions_spec());
    r
}

/// `dir` is an excluded name, or lies under one.
pub open spec fn excluded_dir(excluded: Seq<Seq<char>>, dir: Seq<char>) -> bool {
    exists|i: int|
        0 <= i < excluded.len() && (dir == #[trigger] excluded[i] || (excluded[i].len() < dir.len()
            && dir.subrange(0, excluded[i].len() as int) == excluded[i] && dir[excluded[i].len() as int] == '/'))
}

/// The path has an extension, and it is one of `exts`.
pub open spec fn extension_in(exts: Seq<Seq<char>>, path: Seq<char>) -> bool {
    extension_of(path) is Some && exts.contains(extension_of(path)->Some_0)
}

impl Config {
    pub open spec fn exclude_dirs_view(&self) -> Seq<Seq<char>> {
        strings_view(self.scan.exclude_dirs@)
    }

    pub open spec fn include_extensions_view(&self) -> Seq<Seq<char>> {
        strings_view(self.scan.include_extensions@)
    }

    pub open spec fn css_extensions_view(&self) -> Seq<Seq<char>> {
        strings_view(self.scan.css_extensions@)
    }

    /// A copy of the rules.
    pub fn clone_rules(&self) -> (r: Config)
        ensures
            r.exclude_dirs_view() == self.exclude_dirs_view(),
            r.include_extensions_view() == self.include_extensions_view(),
            r.css_extensions_view() == self.css_extensions_view(),
    {
        Config {
            scan: ScanConfig {
                exclude_dirs: clone_strings(&self.scan.exclude_dirs),
                include_extensions: clone_strings(&self.scan.include_extensions),
                css_extensions: clone_strings(&self.scan.css_extensions),
            },
        }
    }

    /// Whether `dir_name` is an excluded directory or a path below one.
    pub fn should_exclude_dir(&self, dir_name: &str) -> (r: bool)
        ensures
            r == excluded_dir(self.exclude_dirs_view(), dir_name@),
    {
        let d = chars_of(dir_name);
        let ghost ex = self.exclude_dirs_view();
        let mut i: usize = 0;
        while i < self.scan.exclude_dirs.len()
            invariant
                i <= self.scan.exclude_dirs.len(),
                ex == self.exclude_dirs_view(),
                d@ == dir_name@,
                forall|k: int| 0 <= k < i ==> !(dir_name@ == #[trigger] ex[k] || (ex[k].len() < dir_name@.len()
                    && dir_name@.subrange(0, ex[k].len() as int) == ex[k] && dir_name@[ex[k].len() as int] == '/')),
            decreases self.scan.exclude_dirs.len() - i,
        {
            let e = chars_of(self.scan.exclude_dirs[i].as_str());
            assert(e@ == ex[i as int]);
            let hit = if e.len() == d.len() {
                matches_at(&d, &e, 0)
            } else if e.len() < d.len() {
                d[e.len()] == '/' && matches_at(&d, &e, 0)
            } else {
                false
            };
            assert(d@.subrange(0, d@.len() as int) =~= d@);
            if hit {
                return true;
            }
            i = i + 1;
        }
        false
    }

    /// Whether the file's extension is one of the source extensions.
    pub fn should_include_file(&self, file_path: &str) -> (r: bool)
        ensures
            r == extension_in(self.include_extensions_view(), file_path@),
    {
        match get_file_extension(file_path) {
            Some(e) => contains_string(&self.scan.include_extensions, e.as_str()),
            None => false,
        }
    }

    /// Whether the file's extension is one of the stylesheet extensions.
    pub fn is_css_file(&self, file_path: &str) -> (r: bool)
        ensures
            r == extension_in(self.css_extensions_view(), file_path@),
    {
        match get_file_extension(file_path) {
            Some(e) => contains_string(&self.scan.css_extensions, e.as_str()),
            None => false,
        }
    }
}

impl Default for Config {
    /// The default rules.
    fn default() -> (r: Self)
        ensures
            r.exclude_dirs_view() == default_exclude_dirs_spec(),
            r.include_extensions_view() == default_include_extensions_spec(),
            r.css_extensions_view() == default_css_extensions_spec(),
    {
        Config {
            scan: ScanConfig {
                exclude_dirs: default_exclude_dirs(),
                include_extensions: default_include_extensions(),
                css_extensions: default_css_extensions(),
            },
        }
    }
}

} // verus!
