//! The options of the tooling's commands.

use std::path::PathBuf;
use vstd::prelude::*;

verus! {

/// A filesystem path; the library only carries it through.
#[verifier::external_type_specification]
#[verifier::external_body]
pub struct ExPathBuf(PathBuf);

/// Options of the default report command.
pub struct ReportOptions {
    pub source: PathBuf,
    pub config: Option<PathBuf>,
    pub environment: Option<String>,
    pub markdown: Option<PathBuf>,
    pub show_overrides: bool,
}

/// Options of `export-manifest`.
pub struct ExportOptions {
    pub source: PathBuf,
    pub output: Option<PathBuf>,
    pub pretty: bool,
}

/// Options of `release-check`.
pub struct ReleaseOptions {
    pub manifest: PathBuf,
    pub config: Option<PathBuf>,
    pub config_url: Option<String>,
    pub environment_name: Option<String>,
    pub markdown: Option<PathBuf>,
    pub warn_only: bool,
}

/// Options of `lint`.
pub struct LintOptions {
    pub path: PathBuf,
    pub verbose: bool,
}

} // verus!
