//! The window-arrangement core of a tiling window manager.
//!
//! A [`workspace::Workspace`] decides, for one virtual desktop, which windows
//! are grouped into which tiled containers, which container and window hold
//! the focus, and which windows are exempt from tiling because they float,
//! occupy the monocle slot or are maximized. Every operation is verified
//! against a mathematical model of the workspace, [`model::WorkspaceView`].
//!
//! The library never talks to the windowing platform. Operations that want a
//! window hidden, shown or maximized return the commands to carry out, and
//! operations that depend on what the platform reports take the report as an
//! argument.
use vstd::prelude::*;

pub mod config;
pub mod container;
pub mod counting;
pub mod error;
pub mod laws;
pub mod layout;
pub mod machine;
pub mod model;
pub mod poker;
pub mod rect;
pub mod ring;
pub mod window;
pub mod workspace;
