//! Core of a sandboxed script runtime: the permission model that gates native
//! capabilities, the resolution of import specifiers into loadable modules,
//! and the bookkeeping that bridges worker-thread tasks back to pending
//! results on the engine thread.
pub mod security;
pub mod text;
pub mod paths;
pub mod resource;
pub mod store;
pub mod avmod;
pub mod task;
pub mod loader;
pub mod api;
