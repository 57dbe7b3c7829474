//! Voxel blocks, their colour palettes, and the triangle meshes drawn from them.
//!
//! A [`voxelblock::VoxelBlock`] is a cube of cells, each holding a handle into a
//! [`palette::Palette`]. [`voxelblock::VoxelBlock::to_mesh`] turns the occupied cells
//! into a [`mesh::Mesh`] of outward-facing quads, leaving out every face that another
//! occupied cell hides. [`loaders::zoxel::load`] reads a block and its palette from
//! the text of a stored model; [`loaders::json`] holds what it asks of the JSON
//! parser of `rustc_serialize`, and which texts it hands to that parser.
//!
//! All quantities are integers. A colour channel `c` stands for the intensity
//! `c / 255`. A vertex coordinate `p` stands for the position `p / (2 * BLOCK_SIZE)`:
//! it counts half cells, the block is one unit wide, and the origin is the centre
//! of the cell in the middle of the block, whose coordinates are `BLOCK_SIZE / 2`.

pub mod error;
pub mod palette;
pub mod vertex;
pub mod mesh;
pub mod voxelblock;
pub mod loaders;
