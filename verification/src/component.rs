pub mod mesh_render;
