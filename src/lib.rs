//! Playbook execution engine: the module registry, the task and handler
//! parser, the per-play context with its facts and handler queue, the
//! command layer for local and SSH targets, and the built-in modules.
//!
//! Everything here is pure decision logic over plain values; running
//! processes and reading files is left to the caller.

use vstd::prelude::*;

pub mod args;
pub mod assoc;
pub mod command;
pub mod context;
pub mod description;
pub mod modules;
pub mod play;
pub mod registry;
pub mod task_id;
pub mod template;
pub mod yaml;

verus! {

} // verus!
