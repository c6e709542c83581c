//! A package's manifest data, and that data as it stood when the package was
//! published.
use vstd::prelude::*;

verus! {

/// What a package's manifest says of it.
#[derive(Debug, PartialEq, Eq)]
pub struct Package {
    /// The package's name.
    pub name: String,
    /// The package's version.
    pub version: String,
    /// Where the package's manifest lies.
    pub manifest_path: String,
    /// The registries that the package may be published to: `None` where the
    /// manifest does not restrict them, an empty list where it forbids publishing.
    pub publish: Option<Vec<String>>,
}

/// A published package: its manifest data at the time, and the commit that
/// it was published from, where that is known.
#[derive(Debug, PartialEq, Eq)]
pub struct PublishedPackage {
    /// The manifest data of the published package.
    pub package: Package,
    /// The hash of the commit that the package was published from.
    pub sha1: Option<String>,
}

impl PublishedPackage {
    /// The hash of the commit that the package was published from.
    pub fn published_at_sha1(&self) -> (sha1: Option<&str>)
        ensures
            match sha1 {
                Some(hash) => self.sha1 matches Some(commit) && commit@ == hash@,
                None => self.sha1 is None,
            },
    {
        match &self.sha1 {
            Some(commit) => Some(commit.as_str()),
            None => None,
        }
    }
}

/// One of `packages` is called `name`.
pub open spec fn is_name_of(packages: Seq<Package>, name: Seq<char>) -> bool {
    exists|i: int| 0 <= i < packages.len() && (#[trigger] packages[i]).name@ == name
}

} // verus!
