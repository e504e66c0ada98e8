//! Live CMAF/HLS packaging: the per-rendition segment publisher with its
//! sliding playlist window, the master playlist coordinator, and the codec
//! parameter string of AV1 renditions.

pub mod av1;
pub mod content_type;
pub mod decimal;
pub mod encoders;
pub mod master;
pub mod stream;
