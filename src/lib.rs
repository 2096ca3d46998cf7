//! Tee standard input to standard output and to a size-bounded, rotated log file.
//!
//! The library holds the decisions of the tool: the archive naming grammar,
//! the rotation planner, the retention policy, the rotation executor's steps
//! and the bookkeeping of the relays. Reading, writing and deleting files is
//! left to the caller, which hands the library plain values.

pub mod archive;
pub mod config;
pub mod directory;
pub mod error;
pub mod naming;
pub mod paths;
pub mod planner;
pub mod relay;
pub mod rotation;

pub use archive::archive_contents;
pub use config::{app, Args};
pub use directory::{lemma_numbering_monotonic, lemma_retention_bound, lemma_zero_retention};
pub use error::{ErrorKind, RotatorError};
pub use naming::{archive_file_name, match_archive_name, NameMatch};
pub use paths::{base_name_of, rotation_directory_of};
pub use planner::{next_file, plan_archives, RotatedFile, RotationResult};
pub use relay::{
    lemma_live_file_bounded, lemma_no_rotation_fidelity, lemma_rotation_trigger, lemma_tee_fidelity,
    IngestAction,
    LiveFile, ReadCycle,
};
pub use rotation::{
    cleanup_rotations, needs_rotation, rotation_actions, rotation_step, RotationAction, RotationStep,
};
