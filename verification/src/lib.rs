//! Pairing of JPEG and RAW photo files, display-ready EXIF metadata, and
//! the bookkeeping of batch trash and export runs.
//!
//! The library decides; it does not touch the file system. A scan hands in
//! what it found of each path and gets the photo groups; a batch is a run
//! that asks for one step at a time and is told how the step went.

pub mod binary64;
pub mod container;
pub mod export;
pub mod file_name;
pub mod greeting;
pub mod group;
pub mod metadata;
pub mod order;
pub mod scan;
pub mod text;
pub mod trash;

pub use container::{read_exif, FileReading, MetadataError};
pub use export::{export_files, ExportRun};
pub use greeting::greet;
pub use group::{PhotoFileInfo, PhotoGroupInfo};
pub use metadata::ExifData;
pub use scan::{scan_files, scan_folder, ScanError};
pub use trash::{move_to_trash, TrashRun};
