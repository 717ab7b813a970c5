use vstd::prelude::*;

pub mod accessor;
pub mod action_registry;
pub mod analysis;
pub mod batch;
pub mod chunk;
pub mod fx;
pub mod fx_events;
pub mod fx_ops;
pub mod fx_state;
pub mod fx_tree;
pub mod input;
pub mod main_thread;
pub mod media;
pub mod menu;
pub mod menu_layout;
pub mod plugins;
pub mod project;
pub mod routing;
pub mod services;
pub mod strmap;
pub mod text;

verus! {

} // verus!
