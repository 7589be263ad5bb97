//! The logic of a game-engine runtime, verified: the snapshot format of engine
//! state, the decisions of the renderer, text and color work, the types of the
//! engine API, and the Rust source written for platform libraries.

pub mod snapshot;
pub mod snapshot_scalars;
pub mod snapshot_seq;
pub mod snapshot_collections;
pub mod snapshot_avec;
pub mod snapshot_tuples;
pub mod snapshot_tuple_laws;
pub mod snapshot_map;

pub mod ecs;
pub mod input;
pub mod callable;
pub mod system;
pub mod graphics;
pub mod material;
pub mod pipeline;
pub mod text;
pub mod particles;

pub mod texture_atlas;
pub mod render_targets;
pub mod draw_list;
pub mod camera;
pub mod scene_textures;
pub mod render_plan;

pub mod chars;
pub mod pattern;
pub mod colors;
pub mod text_markup;
pub mod text_render;
pub mod asset_files;
pub mod codegen;
pub mod generate_flat_buffers;
