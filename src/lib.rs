use vstd::prelude::*;

pub mod key;
pub mod mesh;
pub mod builder;
pub mod joints;
pub mod assembly;
pub mod contact;
pub mod physics;
pub mod system;
pub mod audio;
pub mod input;
pub mod render;
