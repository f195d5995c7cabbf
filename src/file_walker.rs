//! Which files of a directory tree take part in a scan.
use vstd::prelude::*;
use crate::config::{extension_in, Config};
use crate::text::{chars_of, contains_string, matches_at, strings_view};
use crate::utils::{get_file_extension, strs_view};

verus! {

/// The rule a walker applies to each file path.
#[derive(Debug, Clone)]
pub enum FileFilter {
    /// Every file.
    AllFiles,
    /// Files with one of these extensions.
    Extensions(Vec<String>),
    /// Files under no excluded directory, with one of the allowed extensions.
    Rules { exclude_dirs: Vec<String>, allowed_extensions: Vec<String> },
}

/// Enumerates the files under a directory that its filter accepts.
pub struct FileWalker {
    directory: String,
    file_filter: FileFilter,
    thread_count: Option<usize>,
    config: Option<Config>,
}

/// `name` is a whole component of the `/`-separated path `p`, starting at `i`.
pub open spec fn component_at(p: Seq<char>, name: Seq<char>, i: int) -> bool {
    &&& name.len() > 0
    &&& forall|k: int| 0 <= k < name.len() ==> #[trigger] name[k] != '/'
    &&& 0 <= i && i + name.len() <= p.len()
    &&& p.subrange(i, i + name.len()) == name
    &&& (i == 0 || p[i - 1] == '/')
    &&& (i + name.len() == p.len() || p[i + name.len()] == '/')
}

/// Some component of the path is one of the names.
pub open spec fn has_component_in(p: Seq<char>, names: Seq<Seq<char>>) -> bool {
    exists|j: int, i: int| 0 <= j < names.len() && #[trigger] component_at(p, names[j], i)
}

/// Whether the filter accepts the path.
pub open spec fn filter_accepts(f: FileFilter, p: Seq<char>) -> bool {
    match f {
        FileFilter::AllFiles => true,
        FileFilter::Extensions(e) => extension_in(strings_view(e@), p),
        FileFilter::Rules { exclude_dirs, allowed_extensions } => !has_component_in(p, strings_view(exclude_dirs@))
            && extension_in(strings_view(allowed_extensions@), p),
    }
}

/// The paths among the first `n` that the filter accepts, in order.
pub open spec fn accepted_paths(f: FileFilter, paths: Seq<Seq<char>>, n: int) -> Seq<Seq<char>>
    decreases n,
{
    if n <= 0 {
        Seq::empty()
    } else if filter_accepts(f, paths[n - 1]) {
        accepted_paths(f, paths, n - 1).push(paths[n - 1])
    } else {
        accepted_paths(f, paths, n - 1)
    }
}

/// Under rules that exclude a directory name, no path with a component of that
/// name is accepted, whatever its extension.
pub proof fn excluded_dir_never_accepted(f: FileFilter, dir: Seq<char>, path: Seq<char>, i: int)
    requires
        f matches FileFilter::Rules { exclude_dirs, allowed_extensions } && strings_view(exclude_dirs@).contains(dir),
        component_at(path, dir, i),
    ensures
        !filter_accepts(f, path),
{
    match f {
        FileFilter::Rules { exclude_dirs, allowed_extensions } => {
            let names = strings_view(exclude_dirs@);
            let j = choose|j: int| 0 <= j < names.len() && names[j] == dir;
            assert(component_at(path, names[j], i));
        },
        _ => {},
    }
}

/// Whether `name` is a whole component of `p`.
fn contains_component(p: &Vec<char>, name: &Vec<char>) -> (r: bool)
    ensures
        r == exists|i: int| component_at(p@, name@, i),
{
    if name.len() == 0 || name.len() > p.len() {
        return false;
    }
    let mut k: usize = 0;
    while k < name.len()
        invariant
            k <= name.len(),
            forall|j: int| 0 <= j < k ==> #[trigger] name@[j] != '/',
        decreases name.len() - k,
    {
        if name[k] == '/' {
            assert(forall|i: int| !component_at(p@, name@, i));
            return false;
        }
        k = k + 1;
    }
    let last: usize = p.len() - name.len();
    let mut i: usize = 0;
    while i <= last
        invariant
            last == p.len() - name.len(),
            name.len() <= p.len(),
            name.len() > 0,
            i <= last,
            forall|j: int| 0 <= j < name.len() ==> #[trigger] name@[j] != '/',
            forall|j: int| 0 <= j < i ==> !component_at(p@, name@, j),
        ensures
            forall|j: int| 0 <= j <= last ==> !component_at(p@, name@, j),
        decreases last - i,
    {
        let left_ok = i == 0 || p[i - 1] == '/';
        if left_ok {
            let end: usize = i + name.len();
            let right_ok = end == p.len() || p[end] == '/';
            if right_ok && matches_at(p, name, i) {
                assert(component_at(p@, name@, i as int));
                return true;
            }
        }
        if i == last {
            break;
        }
        i = i + 1;
    }
    assert forall|j: int| !component_at(p@, name@, j) by {
        if j > last {
            assert(j + name.len() > p.len());
        }
    }
    false
}

impl View for FileWalker {
    type V = FileFilter;

    /// The filter the walker applies.
    closed spec fn view(&self) -> FileFilter {
        self.file_filter
    }
}

impl FileWalker {
    pub fn new(directory: String) -> (r: Self)
        ensures
            r@ == FileFilter::AllFiles,
            r.directory_view() == directory@,
            r.thread_count() is None,
    {
        FileWalker { directory, file_filter: FileFilter::AllFiles, thread_count: None, config: None }
    }

    pub closed spec fn directory_view(&self) -> Seq<char> {
        self.directory@
    }

    pub closed spec fn thread_count(&self) -> Option<usize> {
        self.thread_count
    }

    /// The root directory of the walk.
    pub fn directory(&self) -> (r: &str)
        ensures
            r@ == self.directory_view(),
    {
        self.directory.as_str()
    }

    /// The worker count asked for, if any.
    pub fn get_thread_count(&self) -> (r: Option<usize>)
        ensures
            r == self.thread_count(),
    {
        self.thread_count
    }

    pub fn with_thread_count(self, count: usize) -> (r: Self)
        ensures
            r@ == self@,
            r.directory_view() == self.directory_view(),
            r.thread_count() == Some(count),
    {
        FileWalker { thread_count: Some(count), ..self }
    }

    /// Applies the rules: no excluded directory on the path, and a source or
    /// stylesheet extension.
    pub fn with_config(self, config: Config) -> (r: Self)
        ensures
            r.directory_view() == self.directory_view(),
            r.thread_count() == self.thread_count(),
            r@ matches FileFilter::Rules { exclude_dirs, allowed_extensions }
                && strings_view(exclude_dirs@) == config.exclude_dirs_view()
                && strings_view(allowed_extensions@) == config.include_extensions_view() + config.css_extensions_view(),
    {
        let exclude_dirs = crate::text::clone_strings(&config.scan.exclude_dirs);
        let mut allowed_extensions = crate::text::clone_strings(&config.scan.include_extensions);
        let mut css = crate::text::clone_strings(&config.scan.css_extensions);
        let ghost a = strings_view(allowed_extensions@);
        let ghost c = strings_view(css@);
        allowed_extensions.append(&mut css);
        assert(strings_view(allowed_extensions@) =~= a + c);
        FileWalker {
            directory: self.directory,
            file_filter: FileFilter::Rules { exclude_dirs, allowed_extensions },
            thread_count: self.thread_count,
            config: Some(config),
        }
    }

    /// Accepts only files with one of these extensions.
    pub fn with_extensions(self, extensions: Vec<&str>) -> (r: Self)
        ensures
            r.directory_view() == self.directory_view(),
            r.thread_count() == self.thread_count(),
            r@ matches FileFilter::Extensions(e) && strings_view(e@) == strs_view(extensions@),
    {
        let mut e: Vec<String> = Vec::new();
        let mut i: usize = 0;
        while i < extensions.len()
            invariant
                i <= extensions.len(),
                strings_view(e@) == strs_view(extensions@).take(i as int),
            decreases extensions.len() - i,
        {
            let x = extensions[i].to_string();
            assert(x@ == extensions@[i as int]@);
            let ghost before = strings_view(e@);
            e.push(x);
            assert(strings_view(e@) =~= before.push(x@));
            assert(strs_view(extensions@)[i as int] == extensions@[i as int]@);
            assert(strings_view(e@) =~= strs_view(extensions@).take(i + 1));
            i = i + 1;
        }
        assert(strs_view(extensions@).take(extensions.len() as int) =~= strs_view(extensions@));
        FileWalker { file_filter: FileFilter::Extensions(e), ..self }
    }

    /// Replaces the filter.
    pub fn with_filter(self, filter: FileFilter) -> (r: Self)
        ensures
            r@ == filter,
            r.directory_view() == self.directory_view(),
            r.thread_count() == self.thread_count(),
    {
        FileWalker { file_filter: filter, ..self }
    }

    /// Whether the walker takes the file at this `/`-separated path.
    pub fn accepts(&self, path: &str) -> (r: bool)
        ensures
            r == filter_accepts(self@, path@),
    {
        match &self.file_filter {
            FileFilter::AllFiles => true,
            FileFilter::Extensions(e) => match get_file_extension(path) {
                Some(x) => contains_string(e, x.as_str()),
                None => false,
            },
            FileFilter::Rules { exclude_dirs, allowed_extensions } => {
                let p = chars_of(path);
                let ghost names = strings_view(exclude_dirs@);
                let mut j: usize = 0;
                while j < exclude_dirs.len()
                    invariant
                        j <= exclude_dirs.len(),
                        names == strings_view(exclude_dirs@),
                        self@ == (FileFilter::Rules { exclude_dirs: *exclude_dirs, allowed_extensions: *allowed_extensions }),
                        p@ == path@,
                        forall|m: int, i: int| 0 <= m < j ==> !#[trigger] component_at(p@, names[m], i),
                    decreases exclude_dirs.len() - j,
                {
                    let name = chars_of(exclude_dirs[j].as_str());
                    assert(name@ == names[j as int]);
                    if contains_component(&p, &name) {
                        proof {
                            let i = choose|i: int| component_at(p@, name@, i);
                            assert(component_at(path@, names[j as int], i));
                        }
                        return false;
                    }
                    j = j + 1;
                }
                match get_file_extension(path) {
                    Some(x) => contains_string(allowed_extensions, x.as_str()),
                    None => false,
                }
            },
        }
    }

    /// The paths that the walker takes, in order.
    pub fn select_files(&self, paths: Vec<String>) -> (r: Vec<String>)
        ensures
            strings_view(r@) == accepted_paths(self@, strings_view(paths@), paths@.len() as int),
    {
        let ghost pv = strings_view(paths@);
        let mut out: Vec<String> = Vec::new();
        let mut i: usize = 0;
        while i < paths.len()
            invariant
                i <= paths.len(),
                pv == strings_view(paths@),
                strings_view(out@) == accepted_paths(self@, pv, i as int),
            decreases paths.len() - i,
        {
            assert(pv[i as int] == paths@[i as int]@);
            if self.accepts(paths[i].as_str()) {
                let ghost before = strings_view(out@);
                out.push(paths[i].clone());
                assert(strings_view(out@) =~= before.push(pv[i as int]));
            }
            i = i + 1;
        }
        out
    }
}

} // verus!
