//! Verified core of the OOOSplat reconstruction pipeline.
pub mod brush;
pub mod checkpoint;
pub mod driver;
pub mod edit_mask;
pub mod estimate;
pub mod frames;
pub mod ply;
pub mod presets;
pub mod progress;
pub mod reshoot;
pub mod text;
