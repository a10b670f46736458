//! Remote session transport layer: a connection cache that keeps at most one
//! live SSH transport per endpoint, a one-shot command executor with a single
//! retry after invalidation, and a control-channel registry that supervises
//! one line-oriented worker per remote tmux session.

pub mod digits;
pub mod errors;
pub mod escape;
pub mod events;
pub mod executor;
pub mod keys;
pub mod linebuf;
pub mod listing;
pub mod model;
pub mod registry;
pub mod remotecmd;
pub mod tmuxcmd;
pub mod textutil;
pub mod validate;
pub mod worker;
