//! Verified render-resource bookkeeping: GPU buffers, textures, bind groups,
//! shader metadata, render graphs and draw state, recorded as device commands.

pub mod asset;
pub mod binding;
pub mod buffer;
pub mod bytes;
pub mod device;
pub mod draw;
pub mod extract;
pub mod flags;
pub mod graph;
pub mod graph_resources;
pub mod handle;
pub mod index;
pub mod material;
pub mod material_pipeline;
pub mod mesh;
pub mod mesh_asset;
pub mod packed;
pub mod pass;
pub mod pipeline;
pub mod pipeline_extract;
pub mod render_asset;
pub mod render_texture;
pub mod shader;
pub mod shader_import;
pub mod shader_reflect;
pub mod storage;
pub mod surface;
pub mod target;
pub mod texture;
pub mod uniform;
pub mod vertex;
