//! Batch de-identification of DICOM metadata with selectable severity
//! policies, plus tag listing and image-view helpers.
//!
//! The core is the policy-driven tag-transformation engine: cascading
//! severity policies, the per-tag action semantics (replace / zero /
//! remove), the dry-run preview workflow, and the scheduling and
//! output-resolution logic for processing many files.

pub mod actions;
pub mod batch;
pub mod cli;
pub mod deid;
pub mod entries;
pub mod errors;
pub mod field;
pub mod output;
pub mod policy;
pub mod preview;
pub mod record;
pub mod text;
pub mod view;
