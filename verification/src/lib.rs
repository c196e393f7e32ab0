//! A declarative Linux package-bundling library.
//!
//! The crate parses a line-oriented build description into a [`metadata::Metadata`]
//! record, verifies fetched artifacts against declared checksums, resolves
//! textual install directives into staging-tree operations, classifies source
//! archives for extraction, and assembles distributable containers; the Debian
//! container is built by hand (control file, `md5sums`, `data.tar.gz`,
//! `control.tar.gz`, `ar` member order).

pub mod alpm;
pub mod appimage;
pub mod archive;
pub mod checksum;
pub mod containers;
pub mod deb;
pub mod errors;
pub mod fetch;
pub mod hashes;
pub mod install;
pub mod metadata;
pub mod numbers;
pub mod roundtrip;
pub mod rpm;
pub mod text;
