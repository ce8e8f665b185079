//! Merges a directory of same-kind media files into one output file.
//!
//! The library holds the decisions of the merge pipeline: which files of a
//! directory are merged and in which order, whether and how their frame
//! rates are normalized, the concatenation manifest, the arguments handed to
//! the media engine, and the paths of the output and the scratch workspace.
//! Filesystem access and the engine's processes stay with the caller.

pub mod error;
pub mod media;
pub mod order;
pub mod paths;
pub mod fps;
pub mod manifest;
pub mod engine;
pub mod workspace;
pub mod pipeline;
pub mod probe;
pub mod scan;

pub use media::{file_name_start, kind_of_format, kind_of_path, MediaKind};
pub use order::{path_bufs_to_sorted_strings, str_le};
pub use error::MergeError;
pub use scan::{select_inputs, InputSet};
pub use paths::{file_name, join};
pub use fps::{max_of, normalization_plan, plan_sources, Source};
pub use manifest::manifest_text;
pub use engine::{
    decimal, merge_args, normalize_args, output_name, output_path, probe_args, rate_text,
};
pub use workspace::{create_dir_for_fps_changer, create_tmp_dir, manifest_path, ID_LEN};
pub use pipeline::{
    advance, error_message, generated_notice, needs_inspection, preflight, removal_notice, start,
    MergeConfig, Phase, RunState, StepReport,
};
pub use probe::parse_fps;
