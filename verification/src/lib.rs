//! Finds a marker file or directory below the root of a Windows PE volume.

pub mod cli;
pub mod device;
pub mod note;
pub mod number;
pub mod outcome;
pub mod path;
pub mod plan;
pub mod request;
pub mod scan;
pub mod search;
pub mod text;
pub mod utf16;
pub mod ventoy;
pub mod ventoy_search;
pub mod volume;
