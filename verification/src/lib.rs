pub mod asset;
pub mod auth;
pub mod dependency;
pub mod instance;
pub mod launch;
pub mod natives;
pub mod semver_order;
pub mod store;
pub mod strings;
pub mod sync;
pub mod version;

use vstd::prelude::*;

verus! {

/// Operating system the provisioning engine targets; selection of native
/// artifacts and classpath separators depend on it.
#[derive(Clone, Copy, PartialEq, Eq, Structural, Debug)]
pub enum OsKind {
    Windows,
    Linux,
    Macos,
}

} // verus!
