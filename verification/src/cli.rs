//! The logic behind the `ftrio` command-line tooling: reading configuration files into toggle
//! tables, classifying toggle states, rendering reports, checking release manifests, linting
//! attribute usage, and formatting timestamps. Reading files, walking directories, parsing Rust
//! sources and printing stay with the program that drives these functions.

pub mod appconfig;
pub mod conformance;
pub mod export;
pub mod json;
pub mod lint;
pub mod options;
pub mod release;
pub mod report;
pub mod scan;
pub mod table;
pub mod util;
