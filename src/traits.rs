//! Configuration shared by the components that can run on several workers.
use vstd::prelude::*;
use crate::config::Config;
use crate::css_parser::CssParser;
use crate::file_walker::FileWalker;
use crate::scanner::FileScanner;
use crate::unused_detector::UnusedDetector;

verus! {

/// A component whose worker count can be set.
pub trait ThreadCountConfigurable: Sized {
    fn with_thread_count(self, count: usize) -> Self;
}

/// A component that takes filter rules.
pub trait ConfigConfigurable: Sized {
    fn with_config(self, config: Config) -> Self;
}

/// A component whose progress reporting can be switched.
pub trait ProgressConfigurable: Sized {
    fn with_progress(self, show_progress: bool) -> Self;
}

/// Sets the worker count when one is given, else leaves the component as it is.
pub fn configure_threads<T: ThreadCountConfigurable>(component: T, thread_count: Option<usize>) -> T {
    match thread_count {
        Some(count) => component.with_thread_count(count),
        None => component,
    }
}

impl ThreadCountConfigurable for CssParser {
    fn with_thread_count(self, count: usize) -> Self {
        CssParser::with_thread_count(self, count)
    }
}

impl ThreadCountConfigurable for FileWalker {
    fn with_thread_count(self, count: usize) -> Self {
        FileWalker::with_thread_count(self, count)
    }
}

impl ThreadCountConfigurable for FileScanner {
    fn with_thread_count(self, count: usize) -> Self {
        FileScanner::with_thread_count(self, count)
    }
}

impl ThreadCountConfigurable for UnusedDetector {
    fn with_thread_count(self, count: usize) -> Self {
        UnusedDetector::with_thread_count(self, count)
    }
}

impl ConfigConfigurable for FileScanner {
    fn with_config(self, config: Config) -> Self {
        FileScanner::with_config(self, config)
    }
}

impl ConfigConfigurable for UnusedDetector {
    fn with_config(self, config: Config) -> Self {
        UnusedDetector::with_config(self, config)
    }
}

} // verus!
