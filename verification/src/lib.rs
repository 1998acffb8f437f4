//! Configuration engine for an ephemeral Neo4j test container.
//!
//! The library accumulates deferred configuration values (explicit,
//! environment-sourced, or default) in a builder, validates them, and
//! derives the container's environment-variable set and version tag
//! deterministically. Building yields an immutable runtime handle that
//! answers endpoint queries once the container engine has reported the
//! host-mapped ports. The container engine itself is an external
//! collaborator: reading the process environment, the license acceptance
//! file, and starting containers happen outside this crate, which only
//! consumes their results as plain values.

pub mod config;
pub mod deferred;
pub mod ext;
pub mod image;
pub mod plugins;
pub mod prelude;
pub mod text;
pub mod version;

pub use text::usize_to_string;
pub use version::validate_version;
