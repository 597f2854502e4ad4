//! Wire formats: flags, greeting, frames and commands.
pub mod null;
pub mod zmtp;

pub use zmtp::{Flags, FrameSize, FrameType, Greeting, Mechanism, RawFrame, Version};
