//! Core of a small frame-driven game engine: an arena tree for scene nodes and
//! a registry of game objects whose additions and removals are deferred to
//! frame boundaries.

pub mod ecs;
pub mod frame;
pub mod frame_laws;
pub mod game;
pub mod game_tree;
pub mod objects_index;
pub mod seq_facts;
pub mod texture;
