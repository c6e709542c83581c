//! Resolution of packages from the release tags of a git repository, for
//! packages that are published to no registry.
//!
//! For each package, in the order given, the latest release tag is looked
//! up; the tree at that tag is checked out into a worktree under the scratch
//! directory, the package is read from the manifest found there, and it
//! enters the collection with the commit that the tag points to. A package
//! without a release tag was never released and is passed over.
use vstd::prelude::*;
use crate::collection::{PackagesCollection, Scratch};
use crate::package::{is_name_of, Package, PublishedPackage};
use crate::protocol::{Action, Event, ResolveError};
use crate::release_tags::{
    is_latest_release,
    latest_release,
    latest_release_tag,
    template_is_deterministic,
    template_is_total,
};

verus! {

/// Where resolution from the tags stands.
#[derive(Clone, Copy, Debug, PartialEq, Eq, Structural)]
pub enum TagStep {
    /// Nothing was asked for yet.
    Start,
    /// Asked for the tags of the repository.
    ListingTags,
    /// Asked for the scratch directory.
    CreatingScratchDir,
    /// Asked for a worktree at the latest release tag of a package.
    AddingWorktree,
    /// Asked for the packages of the manifest of that worktree.
    ReadingManifest,
    /// Asked for the commit that the tag points to.
    ResolvingCommit,
    /// Every package was gone through.
    Finished,
    /// Resolution failed.
    Failed,
}

/// Resolution of packages from release tags: what is left of it to do.
#[derive(Debug)]
pub struct TagResolution {
    /// Where resolution stands.
    pub step: TagStep,
    /// The tags of the repository, the highest version first.
    pub tags: Vec<String>,
    /// The package that is being resolved; those before it are done.
    pub package: usize,
    /// The latest release tag of that package.
    pub tag: usize,
    /// That package as the manifest at the tag has it, once it was read.
    pub found: Option<Package>,
}

/// A [`TagResolution`] as plain values.
pub struct TagView {
    pub step: TagStep,
    pub tags: Seq<String>,
    pub package: usize,
    pub tag: usize,
    pub found: Option<Package>,
}

impl View for TagResolution {
    type V = TagView;

    open spec fn view(&self) -> TagView {
        TagView {
            step: self.step,
            tags: self.tags@,
            package: self.package,
            tag: self.tag,
            found: self.found,
        }
    }
}

/// What a step leads to: where resolution stands then, the collection's
/// table and scratch directory, and the action asked for.
pub type TagOutcome = (TagView, Map<Seq<char>, PublishedPackage>, Option<Scratch>, Action);

/// `packages[i]` is the first package called `name`.
pub open spec fn is_first_named(packages: Seq<Package>, name: Seq<char>, i: int) -> bool {
    &&& 0 <= i < packages.len()
    &&& packages[i].name@ == name
    &&& forall|j: int| 0 <= j < i ==> (#[trigger] packages[j]).name@ != name
}

/// Where the first package called `name` stands among `packages`, if any
/// of them is called so.
pub open spec fn first_named(packages: Seq<Package>, name: Seq<char>) -> Option<int> {
    if exists|i: int| is_first_named(packages, name, i) {
        Some(choose|i: int| is_first_named(packages, name, i))
    } else {
        None
    }
}

/// The first package from `from` on that has a release tag among `tags`;
/// the number of packages where none has.
pub open spec fn next_released<F: Fn(&str, &str) -> String>(
    project: &F,
    packages: Seq<Package>,
    tags: Seq<String>,
    from: int,
) -> int
    decreases packages.len() - from,
{
    if from >= packages.len() {
        packages.len() as int
    } else if latest_release(project, packages[from].name@, tags) is Some {
        from
    } else {
        next_released(project, packages, tags, from + 1)
    }
}

/// Resolution fails with `error`; the collection stays as it is.
pub open spec fn tags_failed(
    pre: TagView,
    table: Map<Seq<char>, PublishedPackage>,
    scratch: Option<Scratch>,
    error: ResolveError,
) -> TagOutcome {
    (TagView { step: TagStep::Failed, ..pre }, table, scratch, Action::Failed(error))
}

/// Resolution goes on with the packages from `from` on. Those without a
/// release tag are passed over. For the first one that has such a tag, a
/// worktree is asked for at the first of them, the tag of its latest
/// release; but the scratch directory comes first where the collection has
/// none yet. When no package is left, resolution is finished.
pub open spec fn resolve_from<F: Fn(&str, &str) -> String>(
    pre: TagView,
    table: Map<Seq<char>, PublishedPackage>,
    scratch: Option<Scratch>,
    project: &F,
    packages: Seq<Package>,
    from: int,
) -> TagOutcome {
    let package = next_released(project, packages, pre.tags, from);
    if package >= packages.len() {
        (TagView { step: TagStep::Finished, found: None, ..pre }, table, scratch, Action::Finished)
    } else {
        let tag = latest_release(project, packages[package].name@, pre.tags)->0;
        let at = TagView { package: package as usize, tag: tag as usize, found: None, ..pre };
        if scratch is None {
            (TagView { step: TagStep::CreatingScratchDir, ..at }, table, scratch, Action::CreateScratchDir)
        } else {
            (
                TagView { step: TagStep::AddingWorktree, ..at },
                table,
                scratch,
                Action::AddWorktree { package: package as usize, tag: tag as usize },
            )
        }
    }
}

/// What follows in the resolution `pre` of `packages` when `event` comes
/// in, with the collection's table `table` and scratch directory `scratch`.
///
/// The tags are asked for once, before the first package. A package enters
/// the collection as the manifest at its latest release tag has it, with the
/// commit that the tag points to. The first failure ends resolution: of the
/// scratch directory, of the worktree, of reading the manifest, or that the
/// manifest does not hold the package. An event that does not answer the
/// action asked for last ends it too; but a resolution that is finished
/// stays finished.
pub open spec fn tags_next<F: Fn(&str, &str) -> String>(
    pre: TagView,
    table: Map<Seq<char>, PublishedPackage>,
    scratch: Option<Scratch>,
    project: &F,
    packages: Seq<Package>,
    event: Event,
) -> TagOutcome {
    let in_place = pre.package < packages.len() && pre.tag < pre.tags.len();
    match (pre.step, event) {
        (TagStep::Start, Event::Start) => (
            TagView { step: TagStep::ListingTags, ..pre },
            table,
            scratch,
            Action::ListTags,
        ),
        (TagStep::ListingTags, Event::Tags(tags)) => resolve_from(
            TagView { tags: tags@, ..pre },
            table,
            scratch,
            project,
            packages,
            0,
        ),
        (TagStep::CreatingScratchDir, Event::ScratchDir(Ok(made))) => (
            TagView { step: TagStep::AddingWorktree, ..pre },
            table,
            if scratch is Some {
                scratch
            } else {
                Some(made)
            },
            Action::AddWorktree { package: pre.package, tag: pre.tag },
        ),
        (TagStep::CreatingScratchDir, Event::ScratchDir(Err(cause))) => tags_failed(
            pre,
            table,
            scratch,
            ResolveError::ScratchDir { cause },
        ),
        (TagStep::AddingWorktree, Event::Done(Ok(_))) => (
            TagView { step: TagStep::ReadingManifest, ..pre },
            table,
            scratch,
            Action::ReadManifest { package: pre.package, tag: pre.tag },
        ),
        (TagStep::AddingWorktree, Event::Done(Err(cause))) => if in_place {
            tags_failed(pre, table, scratch, ResolveError::Worktree { tag: pre.tags[pre.tag as int], cause })
        } else {
            tags_failed(pre, table, scratch, ResolveError::UnexpectedEvent)
        },
        (TagStep::ReadingManifest, Event::Packages(Ok(listed))) => if in_place {
            match first_named(listed@, packages[pre.package as int].name@) {
                Some(i) => (
                    TagView { step: TagStep::ResolvingCommit, found: Some(listed@[i]), ..pre },
                    table,
                    scratch,
                    Action::ResolveTagCommit { tag: pre.tag },
                ),
                None => tags_failed(
                    pre,
                    table,
                    scratch,
                    ResolveError::PackageNotFound {
                        package: packages[pre.package as int].name,
                        tag: pre.tags[pre.tag as int],
                    },
                ),
            }
        } else {
            tags_failed(pre, table, scratch, ResolveError::UnexpectedEvent)
        },
        (TagStep::ReadingManifest, Event::Packages(Err(cause))) => if in_place {
            tags_failed(
                pre,
                table,
                scratch,
                ResolveError::Manifest { tag: Some(pre.tags[pre.tag as int]), cause },
            )
        } else {
            tags_failed(pre, table, scratch, ResolveError::UnexpectedEvent)
        },
        (TagStep::ResolvingCommit, Event::Commit(sha1)) => match pre.found {
            Some(package) => if in_place {
                resolve_from(
                    pre,
                    table.insert(package.name@, PublishedPackage { package, sha1 }),
                    scratch,
                    project,
                    packages,
                    pre.package + 1,
                )
            } else {
                tags_failed(pre, table, scratch, ResolveError::UnexpectedEvent)
            },
            None => tags_failed(pre, table, scratch, ResolveError::UnexpectedEvent),
        },
        (TagStep::Finished, _) => (pre, table, scratch, Action::Failed(ResolveError::UnexpectedEvent)),
        _ => tags_failed(pre, table, scratch, ResolveError::UnexpectedEvent),
    }
}

/// Finds the first package called `name` among `packages`.
pub fn find_package(packages: &Vec<Package>, name: &String) -> (at: Option<usize>)
    ensures
        match at {
            Some(i) => first_named(packages@, name@) == Some(i as int),
            None => first_named(packages@, name@) is None,
        },
        at matches Some(i) ==> is_first_named(packages@, name@, i as int),
{
    let mut i: usize = 0;
    while i < packages.len()
        invariant
            i <= packages.len(),
            forall|j: int| 0 <= j < i ==> (#[trigger] packages@[j]).name@ != name@,
        decreases packages.len() - i,
    {
        if packages[i].name == *name {
            proof {
                assert(is_first_named(packages@, name@, i as int));
                let other = choose|k: int| is_first_named(packages@, name@, k);
                assert(other == i);
            }
            return Some(i);
        }
        i += 1;
    }
    None
}

impl TagResolution {
    /// A resolution that has not begun.
    pub fn new() -> (resolution: TagResolution)
        ensures
            resolution@ == (TagView {
                step: TagStep::Start,
                tags: Seq::empty(),
                package: 0,
                tag: 0,
                found: None,
            }),
    {
        TagResolution { step: TagStep::Start, tags: Vec::new(), package: 0, tag: 0, found: None }
    }

    fn fail(&mut self, error: ResolveError) -> (action: Action)
        ensures
            final(self)@ == (TagView { step: TagStep::Failed, ..old(self)@ }),
            action == Action::Failed(error),
    {
        self.step = TagStep::Failed;
        Action::Failed(error)
    }

    /// Whether the package and the tag that are being resolved exist.
    fn in_place(&self, packages: &Vec<Package>) -> (yes: bool)
        ensures
            yes == (self.package < packages.len() && self.tag < self.tags.len()),
    {
        self.package < packages.len() && self.tag < self.tags.len()
    }
}

impl PackagesCollection {
    /// Goes on with the packages from `from` on.
    fn resolve_from<F: Fn(&str, &str) -> String>(
        &self,
        resolution: &mut TagResolution,
        project: &F,
        packages: &Vec<Package>,
        from: usize,
    ) -> (action: Action)
        requires
            template_is_total(project),
            template_is_deterministic(project),
            from <= packages.len(),
        ensures
            (final(resolution)@, self@, self.scratch_dir(), action) == resolve_from(
                old(resolution)@,
                self@,
                self.scratch_dir(),
                project,
                packages@,
                from as int,
            ),
    {
        let mut package = from;
        resolution.found = None;
        while package < packages.len()
            invariant
                from <= package <= packages.len(),
                template_is_total(project),
                template_is_deterministic(project),
                resolution@ == (TagView { found: None, ..old(resolution)@ }),
                next_released(project, packages@, resolution.tags@, from as int) == next_released(
                    project,
                    packages@,
                    resolution.tags@,
                    package as int,
                ),
            decreases packages.len() - package,
        {
            match latest_release_tag(&resolution.tags, packages[package].name.as_str(), project) {
                Some(tag) => {
                    resolution.package = package;
                    resolution.tag = tag;
                    if self.temp_dir_path().is_none() {
                        resolution.step = TagStep::CreatingScratchDir;
                        return Action::CreateScratchDir;
                    } else {
                        resolution.step = TagStep::AddingWorktree;
                        return Action::AddWorktree { package, tag };
                    }
                },
                None => {
                    package += 1;
                },
            }
        }
        resolution.step = TagStep::Finished;
        Action::Finished
    }

    /// Takes `resolution`, the retrieval of the latest published version of
    /// `packages` from the release tags of a repository, one step on:
    /// `event` tells how the action went that was asked for last, and the
    /// result is the action to carry out next. `project` renders the tag of
    /// a package name and a version.
    ///
    /// The worktrees leave the repository in another state than it was in;
    /// to restore it is up to the driver.
    pub fn get_latest_tagged_packages<F: Fn(&str, &str) -> String>(
        &mut self,
        resolution: &mut TagResolution,
        project: &F,
        packages: &Vec<Package>,
        event: Event,
    ) -> (action: Action)
        requires
            template_is_total(project),
            template_is_deterministic(project),
        ensures
            (final(resolution)@, final(self)@, final(self).scratch_dir(), action) == tags_next(
                old(resolution)@,
                old(self)@,
                old(self).scratch_dir(),
                project,
                packages@,
                event,
            ),
    {
        match resolution.step {
            TagStep::Start => match event {
                Event::Start => {
                    resolution.step = TagStep::ListingTags;
                    Action::ListTags
                },
                _ => resolution.fail(ResolveError::UnexpectedEvent),
            },
            TagStep::ListingTags => match event {
                Event::Tags(tags) => {
                    resolution.tags = tags;
                    self.resolve_from(resolution, project, packages, 0)
                },
                _ => resolution.fail(ResolveError::UnexpectedEvent),
            },
            TagStep::CreatingScratchDir => match event {
                Event::ScratchDir(Ok(made)) => {
                    self.set_temp_dir(made.0, made.1);
                    resolution.step = TagStep::AddingWorktree;
                    Action::AddWorktree { package: resolution.package, tag: resolution.tag }
                },
                Event::ScratchDir(Err(cause)) => resolution.fail(ResolveError::ScratchDir { cause }),
                _ => resolution.fail(ResolveError::UnexpectedEvent),
            },
            TagStep::AddingWorktree => match event {
                Event::Done(Ok(_)) => {
                    resolution.step = TagStep::ReadingManifest;
                    Action::ReadManifest { package: resolution.package, tag: resolution.tag }
                },
                Event::Done(Err(cause)) => {
                    if resolution.in_place(packages) {
                        let tag = resolution.tags[resolution.tag].clone();
                        resolution.fail(ResolveError::Worktree { tag, cause })
                    } else {
                        resolution.fail(ResolveError::UnexpectedEvent)
                    }
                },
                _ => resolution.fail(ResolveError::UnexpectedEvent),
            },
            TagStep::ReadingManifest => match event {
                Event::Packages(Ok(mut listed)) => {
                    if resolution.in_place(packages) {
                        match find_package(&listed, &packages[resolution.package].name) {
                            Some(i) => {
                                resolution.found = Some(listed.swap_remove(i));
                                resolution.step = TagStep::ResolvingCommit;
                                Action::ResolveTagCommit { tag: resolution.tag }
                            },
                            None => {
                                let package = packages[resolution.package].name.clone();
                                let tag = resolution.tags[resolution.tag].clone();
                                resolution.fail(ResolveError::PackageNotFound { package, tag })
                            },
                        }
                    } else {
                        resolution.fail(ResolveError::UnexpectedEvent)
                    }
                },
                Event::Packages(Err(cause)) => {
                    if resolution.in_place(packages) {
                        let tag = resolution.tags[resolution.tag].clone();
                        resolution.fail(ResolveError::Manifest { tag: Some(tag), cause })
                    } else {
                        resolution.fail(ResolveError::UnexpectedEvent)
                    }
                },
                _ => resolution.fail(ResolveError::UnexpectedEvent),
            },
            TagStep::ResolvingCommit => match event {
                Event::Commit(sha1) => {
                    if resolution.found.is_some() && resolution.in_place(packages) {
                        let package = resolution.found.take().unwrap();
                        self.push(PublishedPackage { package, sha1 });
                        proof {
                            assert(resolution@ == (TagView { found: None, ..old(resolution)@ }));
                        }
                        self.resolve_from(resolution, project, packages, resolution.package + 1)
                    } else {
                        resolution.fail(ResolveError::UnexpectedEvent)
                    }
                },
                _ => resolution.fail(ResolveError::UnexpectedEvent),
            },
            TagStep::Finished => Action::Failed(ResolveError::UnexpectedEvent),
            TagStep::Failed => resolution.fail(ResolveError::UnexpectedEvent),
        }
    }
}

/// While a package is being resolved, the resolution `state` holds a
/// package that has a release tag, the first such tag, and, once the
/// manifest was read, a package of the same name.
pub open spec fn resolves_released<F: Fn(&str, &str) -> String>(
    state: TagView,
    project: &F,
    packages: Seq<Package>,
) -> bool {
    match state.step {
        TagStep::Start | TagStep::ListingTags | TagStep::Finished | TagStep::Failed => true,
        _ => {
            &&& state.package < packages.len()
            &&& latest_release(project, packages[state.package as int].name@, state.tags) == Some(
                state.tag as int,
            )
            &&& state.step == TagStep::ResolvingCommit ==> (state.found matches Some(found) && found.name@
                == packages[state.package as int].name@)
        },
    }
}

/// Passing over packages stops at a package that has a release tag, or
/// when no package is left; every package passed over has none.
pub proof fn lemma_next_released<F: Fn(&str, &str) -> String>(
    project: &F,
    packages: Seq<Package>,
    tags: Seq<String>,
    from: int,
)
    requires
        0 <= from <= packages.len(),
    ensures
        from <= next_released(project, packages, tags, from) <= packages.len(),
        next_released(project, packages, tags, from) < packages.len() ==> latest_release(
            project,
            packages[next_released(project, packages, tags, from)].name@,
            tags,
        ) is Some,
        forall|k: int|
            from <= k < next_released(project, packages, tags, from) ==> latest_release(
                project,
                (#[trigger] packages[k]).name@,
                tags,
            ) is None,
    decreases packages.len() - from,
{
    if from < packages.len() && latest_release(project, packages[from].name@, tags) is None {
        lemma_next_released(project, packages, tags, from + 1);
    }
}

/// A package without a release tag does not fail resolution: to go on with
/// the packages that are left never fails, whatever tags they have.
pub proof fn lemma_resolve_from_does_not_fail<F: Fn(&str, &str) -> String>(
    pre: TagView,
    table: Map<Seq<char>, PublishedPackage>,
    scratch: Option<Scratch>,
    project: &F,
    packages: Seq<Package>,
    from: int,
)
    requires
        0 <= from <= packages.len(),
        packages.len() <= usize::MAX,
        pre.tags.len() <= usize::MAX,
    ensures
        !(resolve_from(pre, table, scratch, project, packages, from).3 is Failed),
        resolve_from(pre, table, scratch, project, packages, from).1 == table,
        resolves_released(resolve_from(pre, table, scratch, project, packages, from).0, project, packages),
{
    lemma_next_released(project, packages, pre.tags, from);
    let package = next_released(project, packages, pre.tags, from);
    if package < packages.len() {
        let tag = latest_release(project, packages[package].name@, pre.tags)->0;
        assert(is_latest_release(project, packages[package].name@, pre.tags, tag));
    }
}

/// Resolution keeps hold of a package that has a release tag, step by step.
pub proof fn lemma_tags_next_resolves_released<F: Fn(&str, &str) -> String>(
    pre: TagView,
    table: Map<Seq<char>, PublishedPackage>,
    scratch: Option<Scratch>,
    project: &F,
    packages: Seq<Package>,
    event: Event,
)
    requires
        resolves_released(pre, project, packages),
        packages.len() <= usize::MAX,
        pre.tags.len() <= usize::MAX,
    ensures
        resolves_released(tags_next(pre, table, scratch, project, packages, event).0, project, packages),
{
    match (pre.step, event) {
        (TagStep::ListingTags, Event::Tags(tags)) => {
            assert(tags@.len() == tags.len());
            lemma_resolve_from_does_not_fail(
                TagView { tags: tags@, ..pre },
                table,
                scratch,
                project,
                packages,
                0,
            );
        },
        (TagStep::ReadingManifest, Event::Packages(Ok(listed))) => {
            let name = packages[pre.package as int].name@;
            if first_named(listed@, name) is Some {
                let i = first_named(listed@, name)->0;
                assert(is_first_named(listed@, name, i));
            }
        },
        (TagStep::ResolvingCommit, Event::Commit(sha1)) => {
            if pre.found is Some && pre.package < packages.len() && pre.tag < pre.tags.len() {
                let package = pre.found->0;
                lemma_resolve_from_does_not_fail(
                    pre,
                    table.insert(package.name@, PublishedPackage { package, sha1 }),
                    scratch,
                    project,
                    packages,
                    pre.package + 1,
                );
            }
        },
        _ => {},
    }
}

/// A package without a release tag stays out of the collection: no step
/// changes what the collection holds under the name of such a package.
pub proof fn lemma_unreleased_package_stays_out<F: Fn(&str, &str) -> String>(
    pre: TagView,
    table: Map<Seq<char>, PublishedPackage>,
    scratch: Option<Scratch>,
    project: &F,
    packages: Seq<Package>,
    event: Event,
    name: Seq<char>,
)
    requires
        resolves_released(pre, project, packages),
        packages.len() <= usize::MAX,
        pre.tags.len() <= usize::MAX,
        latest_release(project, name, pre.tags) is None,
    ensures
        tags_next(pre, table, scratch, project, packages, event).1.contains_key(name) == table.contains_key(
            name,
        ),
        table.contains_key(name) ==> tags_next(pre, table, scratch, project, packages, event).1[name]
            == table[name],
{
    match (pre.step, event) {
        (TagStep::ListingTags, Event::Tags(tags)) => {
            assert(tags@.len() == tags.len());
            lemma_resolve_from_does_not_fail(
                TagView { tags: tags@, ..pre },
                table,
                scratch,
                project,
                packages,
                0,
            );
        },
        (TagStep::ResolvingCommit, Event::Commit(sha1)) => {
            if pre.found is Some && pre.package < packages.len() && pre.tag < pre.tags.len() {
                let package = pre.found->0;
                lemma_resolve_from_does_not_fail(
                    pre,
                    table.insert(package.name@, PublishedPackage { package, sha1 }),
                    scratch,
                    project,
                    packages,
                    pre.package + 1,
                );
            }
        },
        _ => {},
    }
}

/// No step changes the scratch directory once the collection has one, and
/// a scratch directory is asked for only while the collection has none.
pub proof fn lemma_tags_keep_scratch_dir<F: Fn(&str, &str) -> String>(
    pre: TagView,
    table: Map<Seq<char>, PublishedPackage>,
    scratch: Option<Scratch>,
    project: &F,
    packages: Seq<Package>,
    event: Event,
)
    ensures
        scratch is Some ==> tags_next(pre, table, scratch, project, packages, event).2 == scratch,
        tags_next(pre, table, scratch, project, packages, event).3 == Action::CreateScratchDir
            ==> scratch is None,
{
}

/// The worktree that resolution works on: where it stands, and at which tag.
pub struct Worktree<'a> {
    /// The path of the scratch directory: the worktree is a directory
    /// right under it.
    pub scratch_dir: &'a String,
    /// The name of the worktree's directory: the name of the package that
    /// is being resolved. Each package has a directory of its own.
    pub directory: &'a String,
    /// The tag that the worktree is checked out at: the latest release tag
    /// of the package.
    pub tag: &'a String,
}

/// Resolution at `step` works on a worktree.
pub open spec fn on_worktree(step: TagStep) -> bool {
    step == TagStep::AddingWorktree || step == TagStep::ReadingManifest || step == TagStep::ResolvingCommit
}

impl PackagesCollection {
    /// The worktree that `resolution` works on, from the moment it asks
    /// for one until the package has entered the collection.
    pub fn worktree<'a>(&'a self, resolution: &'a TagResolution, packages: &'a Vec<Package>) -> (worktree:
        Option<Worktree<'a>>)
        ensures
            match worktree {
                Some(w) => {
                    &&& on_worktree(resolution.step)
                    &&& resolution.package < packages.len()
                    &&& resolution.tag < resolution.tags.len()
                    &&& self.scratch_dir() matches Some(scratch) && scratch.1 == *w.scratch_dir
                    &&& *w.directory == packages[resolution.package as int].name
                    &&& *w.tag == resolution.tags[resolution.tag as int]
                },
                None => !(on_worktree(resolution.step) && resolution.package < packages.len() && resolution.tag
                    < resolution.tags.len() && self.scratch_dir() is Some),
            },
    {
        let working = match resolution.step {
            TagStep::AddingWorktree => true,
            TagStep::ReadingManifest => true,
            TagStep::ResolvingCommit => true,
            _ => false,
        };
        if working && resolution.in_place(packages) {
            match self.temp_dir_path() {
                Some(scratch_dir) => Some(
                    Worktree {
                        scratch_dir,
                        directory: &packages[resolution.package].name,
                        tag: &resolution.tags[resolution.tag],
                    },
                ),
                None => None,
            }
        } else {
            None
        }
    }
}

/// One step of a run: [`tags_next`], kept folded so that a proof about a
/// whole run unfolds only the steps that it looks into.
#[verifier::opaque]
pub open spec fn tags_step<F: Fn(&str, &str) -> String>(
    pre: TagView,
    table: Map<Seq<char>, PublishedPackage>,
    scratch: Option<Scratch>,
    project: &F,
    packages: Seq<Package>,
    event: Event,
) -> TagOutcome {
    tags_next(pre, table, scratch, project, packages, event)
}

/// A step of a run is a step of resolution.
pub proof fn lemma_tags_step_is_next<F: Fn(&str, &str) -> String>(
    pre: TagView,
    table: Map<Seq<char>, PublishedPackage>,
    scratch: Option<Scratch>,
    project: &F,
    packages: Seq<Package>,
    event: Event,
)
    ensures
        tags_step(pre, table, scratch, project, packages, event) == tags_next(
            pre,
            table,
            scratch,
            project,
            packages,
            event,
        ),
{
    reveal(tags_step);
}

/// Where the resolution `start` stands after the events `events` came in,
/// one after the other, and what the collection holds then; `table` and
/// `scratch` are what it held at first.
pub open spec fn tags_after<F: Fn(&str, &str) -> String>(
    start: TagView,
    table: Map<Seq<char>, PublishedPackage>,
    scratch: Option<Scratch>,
    project: &F,
    packages: Seq<Package>,
    events: Seq<Event>,
) -> (TagView, Map<Seq<char>, PublishedPackage>, Option<Scratch>)
    decreases events.len(),
{
    if events.len() == 0 {
        (start, table, scratch)
    } else {
        let before = tags_after(start, table, scratch, project, packages, events.drop_last());
        let next = tags_step(before.0, before.1, before.2, project, packages, events.last());
        (next.0, next.1, next.2)
    }
}

/// The action that the resolution `start` asks for in answer to
/// `events[i]`, after the events before it came in.
pub open spec fn tags_asked<F: Fn(&str, &str) -> String>(
    start: TagView,
    table: Map<Seq<char>, PublishedPackage>,
    scratch: Option<Scratch>,
    project: &F,
    packages: Seq<Package>,
    events: Seq<Event>,
    i: int,
) -> Action {
    let before = tags_after(start, table, scratch, project, packages, events.take(i));
    tags_step(before.0, before.1, before.2, project, packages, events[i]).3
}

/// The package called `name` has no release tag among the tags that
/// `event` lists, if it lists any.
pub open spec fn lists_no_release<F: Fn(&str, &str) -> String>(
    project: &F,
    name: Seq<char>,
    event: Event,
) -> bool {
    event matches Event::Tags(tags) ==> latest_release(project, name, tags@) is None
}

/// Resolution holds a released package, and knows of no release tag of the
/// package called `name`.
spec fn passes_over<F: Fn(&str, &str) -> String>(
    state: TagView,
    project: &F,
    packages: Seq<Package>,
    name: Seq<char>,
) -> bool {
    &&& resolves_released(state, project, packages)
    &&& state.tags.len() <= usize::MAX
    &&& latest_release(project, name, state.tags) is None
}

proof fn lemma_passes_over_step<F: Fn(&str, &str) -> String>(
    pre: TagView,
    table: Map<Seq<char>, PublishedPackage>,
    scratch: Option<Scratch>,
    project: &F,
    packages: Seq<Package>,
    event: Event,
    name: Seq<char>,
)
    requires
        passes_over(pre, project, packages, name),
        packages.len() <= usize::MAX,
        lists_no_release(project, name, event),
    ensures
        ({
            let next = tags_step(pre, table, scratch, project, packages, event);
            &&& passes_over(next.0, project, packages, name)
            &&& next.1.contains_key(name) == table.contains_key(name)
            &&& table.contains_key(name) ==> next.1[name] == table[name]
            &&& next.3 matches Action::AddWorktree { package, .. } ==> package < packages.len()
                && packages[package as int].name@ != name
        }),
{
    reveal(tags_step);
    lemma_tags_next_resolves_released(pre, table, scratch, project, packages, event);
    lemma_unreleased_package_stays_out(pre, table, scratch, project, packages, event, name);
    if let Event::Tags(tags) = event {
        assert(tags@.len() == tags.len());
    }
}

proof fn lemma_passes_over_run<F: Fn(&str, &str) -> String>(
    start: TagView,
    table: Map<Seq<char>, PublishedPackage>,
    scratch: Option<Scratch>,
    project: &F,
    packages: Seq<Package>,
    events: Seq<Event>,
    name: Seq<char>,
)
    requires
        passes_over(start, project, packages, name),
        packages.len() <= usize::MAX,
        forall|k: int| 0 <= k < events.len() ==> lists_no_release(project, name, #[trigger] events[k]),
    ensures
        ({
            let end = tags_after(start, table, scratch, project, packages, events);
            &&& passes_over(end.0, project, packages, name)
            &&& end.1.contains_key(name) == table.contains_key(name)
            &&& table.contains_key(name) ==> end.1[name] == table[name]
        }),
    decreases events.len(),
{
    if events.len() > 0 {
        let earlier = events.drop_last();
        assert forall|k: int| 0 <= k < earlier.len() implies lists_no_release(
            project,
            name,
            #[trigger] earlier[k],
        ) by {
            assert(earlier[k] == events[k]);
        }
        lemma_passes_over_run(start, table, scratch, project, packages, earlier, name);
        let before = tags_after(start, table, scratch, project, packages, earlier);
        assert(lists_no_release(project, name, events[events.len() - 1]));
        lemma_passes_over_step(before.0, before.1, before.2, project, packages, events.last(), name);
    }
}

/// Over a whole resolution, whatever events come in: a package that has
/// no release tag among the tags of the repository stays out of the
/// collection, and no worktree is asked for on its behalf. What the
/// collection held under its name before, if anything, it holds still;
/// the packages that have release tags are resolved all the same.
pub proof fn lemma_run_leaves_unreleased_package_out<F: Fn(&str, &str) -> String>(
    start: TagView,
    table: Map<Seq<char>, PublishedPackage>,
    scratch: Option<Scratch>,
    project: &F,
    packages: Seq<Package>,
    events: Seq<Event>,
    name: Seq<char>,
)
    requires
        resolves_released(start, project, packages),
        packages.len() <= usize::MAX,
        start.tags.len() <= usize::MAX,
        latest_release(project, name, start.tags) is None,
        forall|k: int| 0 <= k < events.len() ==> lists_no_release(project, name, #[trigger] events[k]),
    ensures
        tags_after(start, table, scratch, project, packages, events).1.contains_key(name)
            == table.contains_key(name),
        table.contains_key(name) ==> tags_after(start, table, scratch, project, packages, events).1[name]
            == table[name],
        forall|k: int|
            0 <= k < events.len() ==> (#[trigger] tags_asked(
                start,
                table,
                scratch,
                project,
                packages,
                events,
                k,
            ) matches Action::AddWorktree { package, .. } ==> package < packages.len()
                && packages[package as int].name@ != name),
{
    lemma_passes_over_run(start, table, scratch, project, packages, events, name);
    assert forall|k: int| 0 <= k < events.len() implies (#[trigger] tags_asked(
        start,
        table,
        scratch,
        project,
        packages,
        events,
        k,
    ) matches Action::AddWorktree { package, .. } ==> package < packages.len() && packages[package as int].name@
        != name) by {
        let earlier = events.take(k);
        assert forall|i: int| 0 <= i < earlier.len() implies lists_no_release(
            project,
            name,
            #[trigger] earlier[i],
        ) by {
            assert(earlier[i] == events[i]);
        }
        lemma_passes_over_run(start, table, scratch, project, packages, earlier, name);
        let before = tags_after(start, table, scratch, project, packages, earlier);
        lemma_passes_over_step(before.0, before.1, before.2, project, packages, events[k], name);
    }
}

/// A step changes what the collection holds under the name of one of
/// `packages` at most: under every other name it holds what it held.
pub proof fn lemma_tags_step_names<F: Fn(&str, &str) -> String>(
    pre: TagView,
    table: Map<Seq<char>, PublishedPackage>,
    scratch: Option<Scratch>,
    project: &F,
    packages: Seq<Package>,
    event: Event,
    name: Seq<char>,
)
    requires
        resolves_released(pre, project, packages),
        !is_name_of(packages, name),
    ensures
        tags_next(pre, table, scratch, project, packages, event).1.contains_key(name) == table.contains_key(
            name,
        ),
        table.contains_key(name) ==> tags_next(pre, table, scratch, project, packages, event).1[name]
            == table[name],
{
    if pre.step == TagStep::ResolvingCommit {
        assert(packages[pre.package as int].name@ != name);
    }
}

} // verus!
