//! Release assembly and integrity pipeline for a multi-component product.
//!
//! The library decides what the pipeline does: where each file of a release
//! goes, which sub-products are rebuilt or reused, which files a merge copies,
//! what the checksum manifest holds, and in which order the publish steps run.
//! The program around it performs the file system, process and network work.
mod text;
pub mod assets;
pub mod build_manifest;
pub mod checksum;
pub mod command;
pub mod error;
pub mod layout;
pub mod merge;
pub mod orchestrator;
pub mod order;
pub mod platform;
pub mod publish;
pub mod tasks;

pub use build_manifest::{BuildManifest, Product, YamlEntry};
pub use checksum::{
    ChecksumEntry, TreeFile, calculate_sha256, manifest_entries, render_manifest, to_hex,
    write_checksums,
};
pub use command::Command;
pub use error::ReleaseError;
pub use layout::{ReleaseDescriptor, config_dir, parse_version};
pub use merge::{MergeOp, TreeEntry, copy_files, join};
pub use orchestrator::{BuildAction, BuildPhase, BuildState};
pub use platform::Platform;
pub use publish::{PublishAction, PublishPhase, parse_trackers, sign, torrent_command};
pub use tasks::{Preflight, analysis_url, checkout, git_clear, help, preflight};
pub use text::{is_blank, str_equal, trim, trim_seq};
