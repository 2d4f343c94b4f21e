//! Identifier generation behind a repository interface, and the integer
//! bookkeeping of the mesh and texture loaders.

pub mod component;
pub mod driver;
pub mod mesh;
pub mod texture;
pub mod blend_file;
