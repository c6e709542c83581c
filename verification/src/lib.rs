//! Resolution of the last published state of the packages of a source tree.
//!
//! Each package that exists locally was last published to a registry or,
//! where it is published to none, marked by a release tag in git. The
//! library finds out, for each of them, what was published last, and keeps
//! the answers in a [`PackagesCollection`] by package name, so that a later
//! stage can tell whether a new release is due.
//!
//! The library decides; it does not act. Downloads, git commands and file
//! system calls are left to a driver: [`get_latest_packages`] takes one
//! [`protocol::Event`], which tells how the last action went, and answers
//! with the next [`protocol::Action`], until that is
//! [`protocol::Action::Finished`] or [`protocol::Action::Failed`].
//!
//! - [`version_text`] finds version text in a tag, and [`release_tags`]
//!   tells the release tags of a package from the other tags.
//! - [`registry`] resolves the packages of the registries, and [`repair`]
//!   puts the git metadata of a downloaded package right.
//! - [`git_tags`] resolves the packages that only git tags tell of.
//! - [`latest`] runs the two resolutions one after the other.
pub mod collection;
pub mod git_tags;
pub mod latest;
pub mod package;
pub mod protocol;
pub mod registry;
pub mod release_tags;
pub mod repair;
pub mod version_text;

pub use crate::collection::PackagesCollection;
pub use crate::latest::get_latest_packages;
pub use crate::package::{Package, PublishedPackage};
