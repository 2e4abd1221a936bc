//! Catalogue of a package's public surface and the comparison of two such catalogues.
//!
//! A catalogue (`Api`) is built from the documentation tree of a package
//! (`rustdoc`), told by the package's manifest which versions it requires of
//! the crates it exposes (`manifest`), and compared with another (`diff`).

pub mod api;
pub mod args;
pub mod diff;
pub mod error;
pub mod graph;
pub mod interval;
pub mod manifest;
pub mod order;
pub mod raw;
pub mod report;
pub mod rustdoc;
pub mod text;
pub mod toml;
pub mod tree;
pub mod version;

pub use api::AnyFeature;
pub use api::Api;
pub use api::Crate;
pub use api::CrateId;
pub use api::Crates;
pub use api::Feature;
pub use api::Features;
pub use api::Item;
pub use api::ItemId;
pub use api::Items;
pub use api::OptionalDependency;
pub use api::Path;
pub use api::PathId;
pub use api::PathKind;
pub use api::Paths;
pub use api::Span;
pub use error::Error;
pub use error::ErrorKind;
pub use rustdoc::RustDocBuilder;
