//! Capture of rendered multi-camera frames into named CPU snapshots.
//!
//! Several camera viewports are packed into one power-of-two atlas, the atlas
//! is copied row by row out of a padded staging buffer, and the tightly packed
//! pixels are published under a channel name together with a frame id.

pub mod layout;
pub mod pixels;
pub mod snapshot;
pub mod registry;
pub mod export;
pub mod readback;
pub mod node;
pub mod scene;
pub mod settings;
pub mod target;
pub mod sequence;
pub mod vision;
