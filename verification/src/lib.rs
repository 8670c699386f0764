pub mod adjacency;
pub mod arith;
pub mod cloth;
pub mod constraints;
pub mod lattice;
pub mod mesh;
pub mod particles;
pub mod scalar;
pub mod softbody;
pub mod vec3;
