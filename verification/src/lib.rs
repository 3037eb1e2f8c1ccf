//! Host-side core of an SSH session launcher with in-process plugins.
//!
//! Plugins inspect and mutate the host configuration through a small
//! mutation API and may override the launch arguments chosen for a
//! selected host.  Everything that crosses the plugin boundary is
//! exchanged either as a record of length-paired byte strings or as an
//! opaque handle into a host-owned table; this crate defines those
//! layouts, the marshalling between them and the native representation,
//! the mutation API, the loader's bookkeeping and the selection policy.

pub mod abi;
pub mod config;
pub mod marshal;
pub mod model;
pub mod mutation;
pub mod plugins;
pub mod runtime;
pub mod ssh_config_parser;
