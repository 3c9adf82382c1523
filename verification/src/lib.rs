//! Verified core of the ike engine plugins: bloom mip planning, light
//! packing, render graph wiring, node stage registries, physics bookkeeping
//! and the planning logic behind the engine's derive macros.
#![allow(unused_imports)]

pub mod post_processing;
pub mod light;
pub mod pbr;
pub mod render;
pub mod render_graph;
pub mod macros;
pub mod physics;
pub mod node;
pub mod entries;
