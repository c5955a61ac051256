use vstd::prelude::*;

pub mod util;
pub mod named;
pub mod keyed;
pub mod number;
pub mod property_node;
pub mod resource;
pub mod scene;
pub mod property;
pub mod operation;
pub mod context;
pub mod control;
pub mod factory;
pub mod mesh;
pub mod material;
pub mod mesh_render;
pub mod component;
pub mod widget;
pub mod shader;
pub mod view;
pub mod render_pass;
pub mod property_box;
pub mod tree;
pub mod render;
pub mod armature;
pub mod texture;
pub mod camera;
pub mod container;

verus! {

} // verus!
