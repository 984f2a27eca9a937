//! A type-safe dependency-injection container. Resources are built on
//! first request, cached as `Arc<T>`, and resolved recursively from their
//! declared dependencies; a resource that depends on itself is reported
//! as a cycle, with the path through it.
//!
//! Beside the container stand the rules of the project's release process
//! ([`release`]) and the expansion of `#[derive(Singleton)]` ([`derive`]).

pub mod derive;
pub mod error;
pub mod factory;
pub mod keymap;
pub mod release;
mod shared;
pub mod text;
pub mod version;

pub use error::{BuildError, CycleError, ErrorCause};
pub use factory::{DependencyFactory, DependencyFactoryHandle, Query, Singleton};
