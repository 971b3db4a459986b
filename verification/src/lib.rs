//! The busbar-admin library: everything the `busbar-admin` command decides or computes.

#![allow(unused_imports)]

pub mod argmap;
pub mod cli;
pub mod client;
pub mod json;
pub mod labels;
pub mod laws;
pub mod place;
pub mod record;
pub mod render;
pub mod text;
pub mod wire;
