use vstd::prelude::*;

use crate::options::StorageOptions;
use crate::path::ObjectPath;
use crate::writer::{ChunkedWriter, DEFAULT_UPLOAD_PART_SIZE};

verus! {

/// How many I/O requests may be in flight against the backend at once.
pub const DEFAULT_CLOUD_IO_PARALLELISM: u64 = 64;

/// The caller-owned configuration for opening a store.
pub struct ObjectStoreParams {
    pub block_size: Option<usize>,
    pub storage_options: Option<StorageOptions>,
    pub use_constant_size_upload_parts: bool,
}

impl ObjectStoreParams {
    /// The storage options, if present, keep their keys unique.
    pub open spec fn wf(&self) -> bool {
        match self.storage_options {
            Some(o) => o.wf(),
            None => true,
        }
    }
}

impl Default for ObjectStoreParams {
    /// No block size, no options, variable-size upload parts.
    fn default() -> (r: Self)
        ensures
            r.block_size is None,
            r.storage_options is None,
            !r.use_constant_size_upload_parts,
            r.wf(),
    {
        ObjectStoreParams { block_size: None, storage_options: None, use_constant_size_upload_parts: false }
    }
}

/// A configured store: a live backend handle bound to a canonical base
/// path, with the tuning knobs the provider derived. Independent
/// stores may share nothing; all coordination is the backend's.
#[derive(Debug)]
pub struct ObjectStore {
    pub operator: opendal::Operator,
    pub base_path: ObjectPath,
    pub block_size: Option<usize>,
    pub use_constant_size_upload_parts: bool,
    pub io_parallelism: u64,
    pub download_retry_count: u64,
    pub storage_options: StorageOptions,
}

impl ObjectStore {
    /// The base path is canonical and the kept options are well formed.
    pub open spec fn wf(&self) -> bool {
        &&& self.base_path.wf()
        &&& self.storage_options.wf()
    }

    /// The size of an upload part for writers opened against this
    /// store: the configured block size where one is set and positive,
    /// and the documented default otherwise.
    pub open spec fn part_size_spec(&self) -> int {
        match self.block_size {
            Some(b) => if b > 0 {
                b as int
            } else {
                DEFAULT_UPLOAD_PART_SIZE as int
            },
            None => DEFAULT_UPLOAD_PART_SIZE as int,
        }
    }

    /// Whether a failed read should be tried again: only reads retry,
    /// and only until the configured count of retries is spent. Other
    /// operations surface their first failure.
    pub fn should_retry_read(&self, attempts_made: u64) -> (r: bool)
        ensures
            r == (attempts_made < self.download_retry_count),
    {
        attempts_made < self.download_retry_count
    }

    /// Opens a fresh upload session. The writer starts open and empty;
    /// the backend upload itself is the caller's loop, fed by the parts
    /// the writer emits.
    pub fn create_writer(&self) -> (r: ChunkedWriter)
        ensures
            r.wf(),
            r.is_open(),
            r.part_capacity() == self.part_size_spec(),
            r.written() == Seq::<u8>::empty(),
            r.emitted() == Seq::<u8>::empty(),
    {
        let part_size = match self.block_size {
            Some(b) => if b > 0 {
                b
            } else {
                DEFAULT_UPLOAD_PART_SIZE
            },
            None => DEFAULT_UPLOAD_PART_SIZE,
        };
        ChunkedWriter::new(part_size)
    }
}

} // verus!
