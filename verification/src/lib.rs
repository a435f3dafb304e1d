pub mod cache_directory;
pub mod errors;
pub mod ram_directory;
pub mod reader;
pub mod segment;
pub mod segment_manager;
pub mod segment_register;
pub mod writer;

pub use cache_directory::CacheDirectory;
pub use errors::{DirectoryError, IndexError};
pub use ram_directory::{FilePath, RamDirectory};
pub use reader::{IndexReader, MetaFileIndexReader, NRTReader, Searcher};
pub use segment::{SegmentEntry, SegmentId, SegmentMeta};
pub use segment_manager::{SegmentManager, SegmentRegisters, SegmentsStatus};
pub use segment_register::SegmentRegister;
pub use writer::NrtWriter;
