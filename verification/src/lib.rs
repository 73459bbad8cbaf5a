//! The command dispatcher of the sommerfluss window manager.
//!
//! A client sends a command as argument bytes with NULs between them.
//! [`request`] splits it, [`dispatch`] finds the command and performs it on
//! the [`state`], and [`reply`] says what comes back. A command that needs
//! an answer of the window manager before it can reply goes on in [`step`].
//!
//! Each command is specified as a function from the model of the state and
//! the arguments to the model after it and the reply. What each command does
//! is stated by its name in [`effects`] and [`indices`], and what holds of
//! all commands together in [`laws`].

pub mod args;
pub mod binding;
pub mod cmd_bind;
pub mod cmd_monitor;
pub mod cmd_rule;
pub mod cmd_set;
pub mod cmd_tag;
pub mod cmd_tree;
pub mod cmd_window;
pub mod color;
pub mod dispatch;
pub mod effects;
pub mod frame;
pub mod geometry;
pub mod indices;
pub mod laws;
pub mod listing;
pub mod names;
pub mod number;
pub mod reply;
pub mod request;
pub mod split;
pub mod state;
pub mod step;
pub mod text;
