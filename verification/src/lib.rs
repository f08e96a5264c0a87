//! Planning and bookkeeping around an external image transcoder.
//!
//! The crate turns a declarative options record into the argument list of a
//! transcoder invocation, picks an output path that does not collide with an
//! existing file, and drives single and batch compressions as state machines
//! whose host performs the file-system and process work.

pub mod text;
pub mod paths;
pub mod error;
pub mod formats;
pub mod options;
pub mod invocation;
pub mod resolver;
pub mod job;
pub mod batch;

pub use crate::batch::{batch_compress, BatchFailure, BatchJob, BatchOutcome};
pub use crate::error::CompressError;
pub use crate::formats::{
    build_compression_args, container_args, get_extension, is_supported_format,
};
pub use crate::job::{compress_image, Action, CompressJob, CompressResult, Event};
pub use crate::options::CompressOptions;
pub use crate::resolver::get_unique_filename;
