//! What resolution asks of its driver, and what the driver answers.
//!
//! Resolution itself touches neither the network, nor git, nor the file
//! system. Each step hands the driver an [`Action`]; the driver carries it
//! out and comes back with the [`Event`] that tells how it went.
use tempfile::TempDir;
use vstd::prelude::*;
use vstd::string::StringExecFns;
use crate::package::Package;

verus! {

/// The file in which a published package records the commit that it was
/// published from. It lies in the directory of the package's manifest.
pub const VCS_INFO_FILE: &'static str = ".cargo_vcs_info.json";

/// The directory that holds the git repository of a package. It lies in
/// the directory of the package's manifest.
pub const GIT_DIR: &'static str = ".git";

/// A git command that prepares a downloaded package for comparison.
#[derive(Clone, Copy, Debug, PartialEq, Eq, Structural)]
pub enum GitCommand {
    /// `git init`
    Init,
    /// `git add .`
    AddAll,
    /// `git commit -m init`
    CommitInit,
    /// `git config user.email test@registry`
    SetUserEmail,
    /// `git config user.name test`
    SetUserName,
}

/// Why resolution failed.
#[allow(inconsistent_fields)]
#[derive(Debug, PartialEq, Eq)]
pub enum ResolveError {
    /// The scratch directory could not be created.
    ScratchDir { cause: String },
    /// The packages of one registry could not be downloaded.
    Download { registry: Option<String>, cause: String },
    /// The record of the origin commit could not be removed from a downloaded package.
    RemoveVcsInfo { package: String, cause: String },
    /// No git repository could be set up in a downloaded package.
    RepositoryInit { package: String, cause: String },
    /// A manifest could not be read: the registry manifest, or the one of
    /// the tree checked out at `tag`.
    Manifest { tag: Option<String>, cause: String },
    /// No worktree could be created at `tag`.
    Worktree { tag: String, cause: String },
    /// The manifest at `tag` does not hold `package`.
    PackageNotFound { package: String, tag: String },
    /// The event does not answer the action that was asked for last.
    UnexpectedEvent,
}

/// What the driver is to do next. Packages and tags are meant by their
/// place among the packages handed to resolution and among the tags that
/// the driver listed; a group by its place in the plan of the downloads.
/// The resolutions tell what is meant: the group that is being downloaded,
/// the package that is under repair, and the worktree that is worked on,
/// with the scratch directory that it stands in.
#[derive(Debug, PartialEq, Eq)]
pub enum Action {
    /// Read the publishable packages from the registry manifest; answer with
    /// [`Event::Packages`].
    ReadRegistryManifest,
    /// Create the scratch directory; answer with [`Event::ScratchDir`].
    CreateScratchDir,
    /// Download into the scratch directory the latest published version of
    /// the packages of the group `group` of the plan, from the group's
    /// registry; answer with [`Event::Packages`], the packages as they
    /// were downloaded.
    Download { group: usize },
    /// Tell whether the package under repair holds a record of its origin
    /// commit; answer with [`Event::Exists`].
    ProbeVcsInfo,
    /// Read the origin commit from that record; answer with [`Event::Commit`].
    ReadVcsInfo,
    /// Remove that record; answer with [`Event::Done`].
    RemoveVcsInfo,
    /// Tell whether the package under repair holds a git repository; answer
    /// with [`Event::Exists`].
    ProbeGitDir,
    /// Run the git command in the directory of the package under repair;
    /// answer with [`Event::Done`].
    RunGit(GitCommand),
    /// List the tags of the repository, the highest version first; answer
    /// with [`Event::Tags`].
    ListTags,
    /// Add a worktree of the repository at the tag `tag`, in the directory
    /// under the scratch directory that is named like the package
    /// `package`; answer with [`Event::Done`]. A worktree is a checkout of
    /// its own: it leaves the checkout that the repository is in alone.
    AddWorktree { package: usize, tag: usize },
    /// Read the packages of the manifest at the root of that worktree;
    /// answer with [`Event::Packages`].
    ReadManifest { package: usize, tag: usize },
    /// Look up the commit that the tag `tag` points to; answer with
    /// [`Event::Commit`].
    ResolveTagCommit { tag: usize },
    /// Nothing is left to do.
    Finished,
    /// Resolution failed; nothing more is to be done.
    Failed(ResolveError),
}

/// How the action that was asked for last went.
#[derive(Debug)]
pub enum Event {
    /// Nothing was asked for yet.
    Start,
    /// The packages that were read or downloaded, or why there are none.
    Packages(Result<Vec<Package>, String>),
    /// The scratch directory and its path, or why there is none.
    ScratchDir(Result<(TempDir, String), String>),
    /// Whether what was probed for is there.
    Exists(bool),
    /// The commit that was looked up, where there is one.
    Commit(Option<String>),
    /// The action was carried out, or why it was not.
    Done(Result<(), String>),
    /// The tags of the repository, the highest version first.
    Tags(Vec<String>),
}

impl GitCommand {
    /// The arguments of the command, as git takes them.
    pub open spec fn spec_args(self) -> Seq<Seq<char>> {
        match self {
            GitCommand::Init => seq!["init"@],
            GitCommand::AddAll => seq!["add"@, "."@],
            GitCommand::CommitInit => seq!["commit"@, "-m"@, "init"@],
            GitCommand::SetUserEmail => seq!["config"@, "user.email"@, "test@registry"@],
            GitCommand::SetUserName => seq!["config"@, "user.name"@, "test"@],
        }
    }

    /// The arguments of the command, as git takes them. The identity that
    /// the two `config` commands set is made up: the repository of a
    /// downloaded package only serves to compare packages.
    pub fn args(&self) -> (args: Vec<&'static str>)
        ensures
            args.deep_view() == self.spec_args(),
    {
        let args = match self {
            GitCommand::Init => vec!["init"],
            GitCommand::AddAll => vec!["add", "."],
            GitCommand::CommitInit => vec!["commit", "-m", "init"],
            GitCommand::SetUserEmail => vec!["config", "user.email", "test@registry"],
            GitCommand::SetUserName => vec!["config", "user.name", "test"],
        };
        assert(args.deep_view() =~= self.spec_args());
        args
    }
}

/// A copy of `text`.
pub fn clone_text(text: &Option<String>) -> (copy: Option<String>)
    ensures
        copy == *text,
{
    match text {
        Some(t) => Some(t.clone()),
        None => None,
    }
}

impl ResolveError {
    /// What the error says, spelled out.
    pub open spec fn message_text(self) -> Seq<char> {
        match self {
            ResolveError::ScratchDir { cause } => "failed to get a temporary directory: "@ + cause@,
            ResolveError::Download { registry: Some(registry), cause } =>
                "failed to download packages from registry '"@ + registry@ + "': "@ + cause@,
            ResolveError::Download { registry: None, cause } => "failed to download packages: "@ + cause@,
            ResolveError::RemoveVcsInfo { package, cause } => "failed to initialize repository package '"@
                + package@ + "': "@ + cause@,
            ResolveError::RepositoryInit { package, cause } => "failed to initialize repository package '"@
                + package@ + "': "@ + cause@,
            ResolveError::Manifest { tag: Some(tag), cause } =>
                "failed to get root manifest metadata at tag '"@ + tag@ + "': "@ + cause@,
            ResolveError::Manifest { tag: None, cause } => "failed to read the registry manifest: "@
                + cause@,
            ResolveError::Worktree { tag, cause } => "failed to create git worktree at tag '"@ + tag@
                + "': "@ + cause@,
            ResolveError::PackageNotFound { package, tag } => "could not retrieve package '"@ + package@
                + "' in manifest at tag '"@ + tag@ + "'"@,
            ResolveError::UnexpectedEvent => "the event does not answer the action asked for"@,
        }
    }

    /// What the error says: what failed, on which package, registry or tag,
    /// and the reason that the driver gave.
    pub fn message(&self) -> (text: String)
        ensures
            text@ == self.message_text(),
    {
        match self {
            ResolveError::ScratchDir { cause } => {
                let mut text = "failed to get a temporary directory: ".to_owned();
                text.append(cause.as_str());
                text
            },
            ResolveError::Download { registry: Some(registry), cause } => {
                let mut text = "failed to download packages from registry '".to_owned();
                text.append(registry.as_str());
                text.append("': ");
                text.append(cause.as_str());
                text
            },
            ResolveError::Download { registry: None, cause } => {
                let mut text = "failed to download packages: ".to_owned();
                text.append(cause.as_str());
                text
            },
            ResolveError::RemoveVcsInfo { package, cause } => {
                let mut text = "failed to initialize repository package '".to_owned();
                text.append(package.as_str());
                text.append("': ");
                text.append(cause.as_str());
                text
            },
            ResolveError::RepositoryInit { package, cause } => {
                let mut text = "failed to initialize repository package '".to_owned();
                text.append(package.as_str());
                text.append("': ");
                text.append(cause.as_str());
                text
            },
            ResolveError::Manifest { tag: Some(tag), cause } => {
                let mut text = "failed to get root manifest metadata at tag '".to_owned();
                text.append(tag.as_str());
                text.append("': ");
                text.append(cause.as_str());
                text
            },
            ResolveError::Manifest { tag: None, cause } => {
                let mut text = "failed to read the registry manifest: ".to_owned();
                text.append(cause.as_str());
                text
            },
            ResolveError::Worktree { tag, cause } => {
                let mut text = "failed to create git worktree at tag '".to_owned();
                text.append(tag.as_str());
                text.append("': ");
                text.append(cause.as_str());
                text
            },
            ResolveError::PackageNotFound { package, tag } => {
                let mut text = "could not retrieve package '".to_owned();
                text.append(package.as_str());
                text.append("' in manifest at tag '");
                text.append(tag.as_str());
                text.append("'");
                text
            },
            ResolveError::UnexpectedEvent => "the event does not answer the action asked for".to_owned(),
        }
    }
}

} // verus!
