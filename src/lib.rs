//! Sorts photographs into a dated folder tree by the capture date that their
//! embedded Exif metadata records.

pub mod text;
pub mod quarter;
pub mod router;
pub mod metadata;
pub mod entry;
pub mod stats;
pub mod pipeline;
