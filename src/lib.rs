//! Finds CSS classes that a code base declares but never uses, and the files
//! that contain a given word.
use vstd::prelude::*;

pub mod text;
pub mod matcher;
pub mod error;
pub mod text_processor;
pub mod utils;
pub mod config;
pub mod css_parser;
pub mod scanner;
pub mod file_walker;
pub mod unused_detector;
pub mod progress_reporter;
pub mod traits;

pub use config::{Config, ScanConfig};
pub use css_parser::{CssClass, CssParser};
pub use error::TagError;
pub use file_walker::{FileFilter, FileWalker};
pub use progress_reporter::ProgressReporter;
pub use scanner::{FileScanner, ScanResult};
pub use text_processor::{DynamicPattern, TextMatch, TextProcessor};
pub use traits::{configure_threads, ConfigConfigurable, ProgressConfigurable, ThreadCountConfigurable};
pub use unused_detector::{UnusedClass, UnusedDetector, UnusedReport};
pub use utils::{
    calculate_progress_step_size, extract_first_element, extract_second_element, filter_and_extract,
    get_file_extension, has_extension, separate_items_by_condition,
};

verus! {

} // verus!
