//! Dependency closure, update state and download protocol for a collection
//! of installable addons.

pub mod addon;
pub mod closure;
pub mod fetch;
pub mod folder;
pub mod order;
pub mod request;
pub mod text;
