//! An interactive regular-expression tester's core: compile a pattern once,
//! then for each input line enumerate all non-overlapping matches and render
//! a human-readable report, optionally listing the capture groups.
//!
//! Pattern compilation and match enumeration are delegated to the `regex`
//! crate behind a small trusted boundary in `matcher`; everything that
//! decides or renders — match counting, summary wording, emphasis of the
//! matched text within the echoed input, capture-group listing — is
//! verified.

pub mod matcher;
pub mod report;
pub mod text;
