//! Activity lifecycle of a shell module: which activities exist per window,
//! how the live set is brought in line with the configuration, and how the
//! background tasks that feed them are started and stopped.

use vstd::prelude::*;

pub mod config;
pub mod convergence;
pub mod filters;
pub mod identifier;
pub mod module;
pub mod pass;
pub mod reconciler;
pub mod registry;
pub mod runtime;
pub mod text;
pub mod update_loop;
pub mod widget;

verus! {

/// Name under which the module registers with the shell.
pub const NAME: &'static str = "TemplateModule";

} // verus!
