//! Collision-resistant hash primitives built around a windowed Pedersen
//! construction: deterministic, domain-separated generator derivation,
//! precomputed doubling tables, and a bit-to-group-element folding algorithm.

pub mod boolean;
pub mod crh;
pub mod digest;
pub mod group;
pub mod identifier;
pub mod map_value;
pub mod pedersen;
pub mod program_id;
pub mod sampler;

pub use group::{Affine, Projective, GROUP_ORDER};
