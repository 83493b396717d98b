//! Decisions of a segmented HTTP downloader: what to fetch, in which pieces,
//! how to react to each reply, and when a finished file is acceptable.
pub mod batch;
pub mod chunk;
pub mod downloader;
pub mod fetch;
pub mod headers;
pub mod integrity;
pub mod pool;
pub mod probe;
pub mod rate;
pub mod request;
pub mod run;
pub mod text;
pub mod transfer;

pub use downloader::Downloader;
