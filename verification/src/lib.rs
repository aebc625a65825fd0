//! Window-management core of a tiling window manager: a tree of containers,
//! the rules by which a native window enters it, and the transitions between
//! the placement states of a managed window.

pub mod ancestry;
pub mod clock;
pub mod commands;
pub mod config;
pub mod container;
pub mod error;
pub mod focus;
pub mod laws;
pub mod manage_window;
pub mod rect;
pub mod select;
pub mod seq_util;
pub mod tree;
pub mod update_window_state;
pub mod window;
pub mod wm_state;
