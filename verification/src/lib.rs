//! A runtime service registry that resolves type-identified dependencies
//! under three lifetime policies: process-wide singleton, scope-bound, and
//! per-request transient. A thin host layer maps method/path pairs to
//! handlers and seeds the registry through a startup trait.

pub mod keymap;
pub mod provider;
pub mod host;
