//! Resolution of packages from the registries that they are published to.
//!
//! Where a manifest of packages that were downloaded before is at hand, the
//! published packages are read from it. Otherwise the local packages are
//! parted into runs of one registry each, every run is downloaded into the
//! scratch directory, and each downloaded package is repaired before it
//! enters the collection.
use itertools::Itertools;
use vstd::prelude::*;
use crate::collection::{lemma_names_after_extend, named, with_all, PackagesCollection, Scratch};
use crate::package::{is_name_of, Package, PublishedPackage};
use crate::protocol::{clone_text, Action, Event, ResolveError};
use crate::repair::{initialize_registry_package, repair_next, Repair, RepairStep};

verus! {

/// The text of `name`, where there is one.
pub open spec fn text(name: Option<String>) -> Option<Seq<char>> {
    match name {
        Some(n) => Some(n@),
        None => None,
    }
}

/// The text of `name`, where there is one.
pub open spec fn str_text(name: Option<&str>) -> Option<Seq<char>> {
    match name {
        Some(n) => Some(n@),
        None => None,
    }
}

/// The registry that `package` is downloaded from: `registry` where one is
/// given, else the first registry that the package may be published to, else
/// none, which stands for the default registry.
pub open spec fn target_registry(package: Package, registry: Option<Seq<char>>) -> Option<Seq<char>> {
    match registry {
        Some(name) => Some(name),
        None => match package.publish {
            Some(registries) => if registries.len() > 0 {
                Some(registries[0]@)
            } else {
                None
            },
            None => None,
        },
    }
}

/// The registry that `package` is downloaded from.
pub fn registry_of(package: &Package, registry: Option<&str>) -> (target: Option<String>)
    ensures
        text(target) == target_registry(*package, str_text(registry)),
{
    match registry {
        Some(name) => Some(name.to_owned()),
        None => match &package.publish {
            Some(registries) => if registries.len() > 0 {
                Some(registries[0].clone())
            } else {
                None
            },
            None => None,
        },
    }
}

/// Packages that are downloaded together, from one registry.
#[derive(Debug, PartialEq, Eq)]
pub struct DownloadGroup {
    /// The registry to download from; `None` is the default registry.
    pub registry: Option<String>,
    /// The names of the packages to download.
    pub names: Vec<String>,
}

/// How many packages stand in the groups of `plan` before the group `g`.
pub open spec fn group_start(plan: Seq<DownloadGroup>, g: int) -> int
    decreases g,
{
    if g <= 0 {
        0
    } else {
        group_start(plan, g - 1) + plan[g - 1].names.len()
    }
}

/// `plan` parts `packages` into the runs of neighbours that are downloaded
/// from one registry: every package stands in one group, in its place; the
/// packages of a group share the group's registry; and a group's registry
/// is not that of the group before it. Packages of one registry that are no
/// neighbours end up in different groups.
pub open spec fn is_registry_grouping(
    packages: Seq<Package>,
    registry: Option<Seq<char>>,
    plan: Seq<DownloadGroup>,
) -> bool {
    &&& group_start(plan, plan.len() as int) == packages.len()
    &&& forall|g: int| 0 <= g < plan.len() ==> (#[trigger] plan[g]).names.len() > 0
    &&& forall|g: int, j: int|
        0 <= g < plan.len() && 0 <= j < plan[g].names.len() ==> {
            &&& (#[trigger] plan[g].names[j])@ == packages[group_start(plan, g) + j].name@
            &&& text(plan[g].registry) == target_registry(packages[group_start(plan, g) + j], registry)
        }
    &&& forall|g: int| 0 < g < plan.len() ==> text((#[trigger] plan[g]).registry) != text(plan[g - 1].registry)
}

/// [`itertools::Itertools::chunk_by`] over `packages`, keyed by
/// [`registry_of`], each package handed out as its name. `chunk_by` puts
/// neighbours of one key into one group and starts a new group where the key
/// changes; the contract says that of the groups that come out.
#[verifier::external_body]
fn chunk_by_registry(packages: &Vec<Package>, registry: Option<&str>) -> (plan: Vec<DownloadGroup>)
    ensures
        is_registry_grouping(packages@, str_text(registry), plan@),
{
    let runs = packages.iter().chunk_by(|package| registry_of(package, registry));
    let mut plan = Vec::new();
    for (registry, run) in &runs {
        plan.push(DownloadGroup { registry, names: run.map(|package| package.name.clone()).collect() });
    }
    plan
}

/// Where resolution from the registries stands.
#[derive(Clone, Copy, Debug, PartialEq, Eq, Structural)]
pub enum RegistryStep {
    /// Nothing was asked for yet.
    Start,
    /// Asked for the publishable packages of the registry manifest.
    ReadingManifest,
    /// Asked for the scratch directory.
    CreatingScratchDir,
    /// Asked for the packages of one group of the plan.
    Downloading,
    /// Asked for a step of the repair of a downloaded package.
    Repairing,
    /// The published packages are in the collection.
    Finished,
    /// Resolution failed.
    Failed,
}

/// Resolution of packages from their registries: what is left of it to do.
#[derive(Debug)]
pub struct RegistryResolution {
    /// Where resolution stands.
    pub step: RegistryStep,
    /// The groups to download, in their order.
    pub plan: Vec<DownloadGroup>,
    /// The group that is being downloaded; those before it are done.
    pub group: usize,
    /// The downloaded packages that are not repaired yet; the first of them
    /// is under repair.
    pub pending: Vec<Package>,
    /// Where the repair of the first pending package stands.
    pub repair: Repair,
    /// The repaired packages, with their origin commits.
    pub ready: Vec<PublishedPackage>,
}

/// A [`RegistryResolution`] as plain values.
pub struct RegistryView {
    pub step: RegistryStep,
    pub plan: Seq<DownloadGroup>,
    pub group: usize,
    pub pending: Seq<Package>,
    pub repair: Repair,
    pub ready: Seq<PublishedPackage>,
}

impl View for RegistryResolution {
    type V = RegistryView;

    open spec fn view(&self) -> RegistryView {
        RegistryView {
            step: self.step,
            plan: self.plan@,
            group: self.group,
            pending: self.pending@,
            repair: self.repair,
            ready: self.ready@,
        }
    }
}

/// What a step leads to: where resolution stands then, the collection's
/// table and scratch directory, and the action asked for.
pub type Outcome = (RegistryView, Map<Seq<char>, PublishedPackage>, Option<Scratch>, Action);

/// Each of `packages` as a published package of unknown origin commit.
pub open spec fn without_commit(packages: Seq<Package>) -> Seq<PublishedPackage> {
    packages.map_values(|package: Package| PublishedPackage { package, sha1: None })
}

/// Resolution fails with `error`; the collection stays as it is.
pub open spec fn registry_failed(
    pre: RegistryView,
    table: Map<Seq<char>, PublishedPackage>,
    scratch: Option<Scratch>,
    error: ResolveError,
) -> Outcome {
    (RegistryView { step: RegistryStep::Failed, ..pre }, table, scratch, Action::Failed(error))
}

/// The step in which the plan is made: the first one that finds the scratch
/// directory in place and no registry manifest at hand.
pub open spec fn makes_plan(pre: RegistryView, scratch: Option<Scratch>, manifest: bool, event: Event) -> bool {
    match (pre.step, event) {
        (RegistryStep::Start, Event::Start) => !manifest && scratch is Some,
        (RegistryStep::CreatingScratchDir, Event::ScratchDir(Ok(_))) => true,
        _ => false,
    }
}

/// With the plan `plan` made, its first group is downloaded; where it has
/// no group there is nothing to resolve.
pub open spec fn after_plan(
    pre: RegistryView,
    table: Map<Seq<char>, PublishedPackage>,
    scratch: Option<Scratch>,
    plan: Seq<DownloadGroup>,
) -> Outcome {
    let planned = RegistryView { plan, group: 0, pending: Seq::empty(), ready: Seq::empty(), ..pre };
    if plan.len() > 0 {
        (RegistryView { step: RegistryStep::Downloading, ..planned }, table, scratch, Action::Download { group: 0 })
    } else {
        (RegistryView { step: RegistryStep::Finished, ..planned }, table, scratch, Action::Finished)
    }
}

/// Repair begins of the first pending package; when none is pending, the
/// repaired packages enter the collection and resolution is finished.
pub open spec fn begin_repair(
    state: RegistryView,
    table: Map<Seq<char>, PublishedPackage>,
    scratch: Option<Scratch>,
) -> Outcome {
    if state.pending.len() == 0 {
        (
            RegistryView { step: RegistryStep::Finished, ready: Seq::empty(), ..state },
            with_all(table, state.ready),
            scratch,
            Action::Finished,
        )
    } else {
        let (repair, action) = repair_next(
            Repair { step: RepairStep::Start, sha1: None },
            state.pending[0],
            Event::Start,
        );
        (RegistryView { step: RegistryStep::Repairing, repair, ..state }, table, scratch, action)
    }
}

/// What follows in the resolution `pre` when `event` comes in, with the
/// collection's table `table` and scratch directory `scratch`; `manifest`
/// tells whether a registry manifest is at hand, and `plan` is the plan that
/// is adopted in the step that makes one.
///
/// With a registry manifest its packages enter the collection without an
/// origin commit, and nothing is downloaded. Without one the scratch
/// directory is asked for unless the collection has one, the groups of the
/// plan are downloaded in their order, then the downloaded packages are
/// repaired in theirs, and only when the last one is repaired do they enter
/// the collection, each with the origin commit that its repair found. The
/// first download or repair that fails ends resolution, and so does an event
/// that does not answer the action asked for last; but a resolution that is
/// finished stays finished.
pub open spec fn registry_next(
    pre: RegistryView,
    table: Map<Seq<char>, PublishedPackage>,
    scratch: Option<Scratch>,
    manifest: bool,
    plan: Seq<DownloadGroup>,
    event: Event,
) -> Outcome {
    match (pre.step, event) {
        (RegistryStep::Start, Event::Start) => if manifest {
            (
                RegistryView { step: RegistryStep::ReadingManifest, ..pre },
                table,
                scratch,
                Action::ReadRegistryManifest,
            )
        } else if scratch is None {
            (
                RegistryView { step: RegistryStep::CreatingScratchDir, ..pre },
                table,
                scratch,
                Action::CreateScratchDir,
            )
        } else {
            after_plan(pre, table, scratch, plan)
        },
        (RegistryStep::ReadingManifest, Event::Packages(Ok(packages))) => (
            RegistryView { step: RegistryStep::Finished, ..pre },
            with_all(table, without_commit(packages@)),
            scratch,
            Action::Finished,
        ),
        (RegistryStep::ReadingManifest, Event::Packages(Err(cause))) => registry_failed(
            pre,
            table,
            scratch,
            ResolveError::Manifest { tag: None, cause },
        ),
        (RegistryStep::CreatingScratchDir, Event::ScratchDir(Ok(made))) => after_plan(
            pre,
            table,
            if scratch is Some {
                scratch
            } else {
                Some(made)
            },
            plan,
        ),
        (RegistryStep::CreatingScratchDir, Event::ScratchDir(Err(cause))) => registry_failed(
            pre,
            table,
            scratch,
            ResolveError::ScratchDir { cause },
        ),
        (RegistryStep::Downloading, Event::Packages(Ok(packages))) => if pre.group < pre.plan.len() {
            let downloaded = RegistryView { pending: pre.pending + packages@, ..pre };
            if pre.group + 1 < pre.plan.len() {
                (
                    RegistryView { group: (pre.group + 1) as usize, ..downloaded },
                    table,
                    scratch,
                    Action::Download { group: (pre.group + 1) as usize },
                )
            } else {
                begin_repair(downloaded, table, scratch)
            }
        } else {
            registry_failed(pre, table, scratch, ResolveError::UnexpectedEvent)
        },
        (RegistryStep::Downloading, Event::Packages(Err(cause))) => if pre.group < pre.plan.len() {
            registry_failed(
                pre,
                table,
                scratch,
                ResolveError::Download { registry: pre.plan[pre.group as int].registry, cause },
            )
        } else {
            registry_failed(pre, table, scratch, ResolveError::UnexpectedEvent)
        },
        (RegistryStep::Repairing, event) => if pre.pending.len() > 0 {
            let (repair, action) = repair_next(pre.repair, pre.pending[0], event);
            match action {
                Action::Finished => begin_repair(
                    RegistryView {
                        pending: pre.pending.drop_first(),
                        ready: pre.ready.push(PublishedPackage { package: pre.pending[0], sha1: repair.sha1 }),
                        repair,
                        ..pre
                    },
                    table,
                    scratch,
                ),
                Action::Failed(_) => (
                    RegistryView { step: RegistryStep::Failed, repair, ..pre },
                    table,
                    scratch,
                    action,
                ),
                _ => (RegistryView { repair, ..pre }, table, scratch, action),
            }
        } else {
            registry_failed(pre, table, scratch, ResolveError::UnexpectedEvent)
        },
        (RegistryStep::Finished, _) => (pre, table, scratch, Action::Failed(ResolveError::UnexpectedEvent)),
        _ => registry_failed(pre, table, scratch, ResolveError::UnexpectedEvent),
    }
}

impl RegistryResolution {
    /// A resolution that has not begun.
    pub fn new() -> (resolution: RegistryResolution)
        ensures
            resolution@ == (RegistryView {
                step: RegistryStep::Start,
                plan: Seq::empty(),
                group: 0,
                pending: Seq::empty(),
                repair: Repair { step: RepairStep::Start, sha1: None },
                ready: Seq::empty(),
            }),
    {
        RegistryResolution {
            step: RegistryStep::Start,
            plan: Vec::new(),
            group: 0,
            pending: Vec::new(),
            repair: Repair::new(),
            ready: Vec::new(),
        }
    }

    fn fail(&mut self, error: ResolveError) -> (action: Action)
        ensures
            final(self)@ == (RegistryView { step: RegistryStep::Failed, ..old(self)@ }),
            action == Action::Failed(error),
    {
        self.step = RegistryStep::Failed;
        Action::Failed(error)
    }

    fn plan_downloads(&mut self, packages: &Vec<Package>, registry: Option<&str>) -> (action: Action)
        ensures
            is_registry_grouping(packages@, str_text(registry), final(self)@.plan),
            forall|table: Map<Seq<char>, PublishedPackage>, scratch: Option<Scratch>|
                #![trigger after_plan(old(self)@, table, scratch, final(self)@.plan)]
                (final(self)@, table, scratch, action) == after_plan(
                    old(self)@,
                    table,
                    scratch,
                    final(self)@.plan,
                ),
    {
        self.plan = chunk_by_registry(packages, registry);
        self.group = 0;
        self.pending = Vec::new();
        self.ready = Vec::new();
        if self.plan.len() > 0 {
            self.step = RegistryStep::Downloading;
            Action::Download { group: 0 }
        } else {
            self.step = RegistryStep::Finished;
            Action::Finished
        }
    }
}

/// Each of `packages` as a published package of unknown origin commit.
fn publish_without_commit(packages: Vec<Package>) -> (published: Vec<PublishedPackage>)
    ensures
        published@ == without_commit(packages@),
{
    let mut published: Vec<PublishedPackage> = Vec::new();
    let ghost all = packages@;
    for package in it: packages
        invariant
            it.seq() == all,
            published@ == without_commit(all.take(it.index())),
    {
        published.push(PublishedPackage { package, sha1: None });
        proof {
            assert(published@ =~= without_commit(all.take(it.index() + 1)));
        }
    }
    proof {
        assert(all.take(all.len() as int) == all);
    }
    published
}

impl PackagesCollection {
    /// Begins the repair of the first pending package of `resolution`, or
    /// finishes `resolution` when none is pending.
    fn begin_repair(&mut self, resolution: &mut RegistryResolution) -> (action: Action)
        ensures
            (final(resolution)@, final(self)@, final(self).scratch_dir(), action) == begin_repair(
                old(resolution)@,
                old(self)@,
                old(self).scratch_dir(),
            ),
    {
        if resolution.pending.len() == 0 {
            let mut ready: Vec<PublishedPackage> = Vec::new();
            std::mem::swap(&mut resolution.ready, &mut ready);
            self.extend(ready);
            resolution.step = RegistryStep::Finished;
            Action::Finished
        } else {
            resolution.repair = Repair::new();
            resolution.step = RegistryStep::Repairing;
            initialize_registry_package(&mut resolution.repair, &resolution.pending[0], Event::Start)
        }
    }

    /// Takes `resolution`, the retrieval of the latest published version of
    /// `local_packages` from their registries, one step on: `event` tells
    /// how the action went that was asked for last, and the result is the
    /// action to carry out next.
    ///
    /// - With a `registry_manifest` the packages are read from the local
    ///   file system: they were downloaded before.
    /// - Otherwise they are downloaded: from `registry` where one is given,
    ///   else each from the first registry of its manifest's `publish`
    ///   field, else from the default registry.
    pub fn get_registry_packages(
        &mut self,
        resolution: &mut RegistryResolution,
        registry_manifest: Option<&str>,
        local_packages: &Vec<Package>,
        registry: Option<&str>,
        event: Event,
    ) -> (action: Action)
        ensures
            makes_plan(old(resolution)@, old(self).scratch_dir(), registry_manifest is Some, event)
                ==> is_registry_grouping(local_packages@, str_text(registry), final(resolution)@.plan),
            (final(resolution)@, final(self)@, final(self).scratch_dir(), action) == registry_next(
                old(resolution)@,
                old(self)@,
                old(self).scratch_dir(),
                registry_manifest is Some,
                final(resolution)@.plan,
                event,
            ),
    {
        match resolution.step {
            RegistryStep::Start => match event {
                Event::Start => {
                    if registry_manifest.is_some() {
                        resolution.step = RegistryStep::ReadingManifest;
                        Action::ReadRegistryManifest
                    } else if self.temp_dir_path().is_none() {
                        resolution.step = RegistryStep::CreatingScratchDir;
                        Action::CreateScratchDir
                    } else {
                        resolution.plan_downloads(local_packages, registry)
                    }
                },
                _ => resolution.fail(ResolveError::UnexpectedEvent),
            },
            RegistryStep::ReadingManifest => match event {
                Event::Packages(Ok(packages)) => {
                    self.extend(publish_without_commit(packages));
                    resolution.step = RegistryStep::Finished;
                    Action::Finished
                },
                Event::Packages(Err(cause)) => resolution.fail(ResolveError::Manifest { tag: None, cause }),
                _ => resolution.fail(ResolveError::UnexpectedEvent),
            },
            RegistryStep::CreatingScratchDir => match event {
                Event::ScratchDir(Ok(made)) => {
                    self.set_temp_dir(made.0, made.1);
                    resolution.plan_downloads(local_packages, registry)
                },
                Event::ScratchDir(Err(cause)) => resolution.fail(ResolveError::ScratchDir { cause }),
                _ => resolution.fail(ResolveError::UnexpectedEvent),
            },
            RegistryStep::Downloading => match event {
                Event::Packages(Ok(mut packages)) => {
                    if resolution.group < resolution.plan.len() {
                        resolution.pending.append(&mut packages);
                        if resolution.group + 1 < resolution.plan.len() {
                            resolution.group = resolution.group + 1;
                            Action::Download { group: resolution.group }
                        } else {
                            self.begin_repair(resolution)
                        }
                    } else {
                        resolution.fail(ResolveError::UnexpectedEvent)
                    }
                },
                Event::Packages(Err(cause)) => {
                    if resolution.group < resolution.plan.len() {
                        let registry = clone_text(&resolution.plan[resolution.group].registry);
                        resolution.fail(ResolveError::Download { registry, cause })
                    } else {
                        resolution.fail(ResolveError::UnexpectedEvent)
                    }
                },
                _ => resolution.fail(ResolveError::UnexpectedEvent),
            },
            RegistryStep::Repairing => {
                if resolution.pending.len() > 0 {
                    let action = initialize_registry_package(
                        &mut resolution.repair,
                        &resolution.pending[0],
                        event,
                    );
                    match action {
                        Action::Finished => {
                            let package = resolution.pending.remove(0);
                            let sha1 = clone_text(&resolution.repair.sha1);
                            resolution.ready.push(PublishedPackage { package, sha1 });
                            proof {
                                assert(resolution.pending@ =~= old(resolution).pending@.drop_first());
                            }
                            self.begin_repair(resolution)
                        },
                        Action::Failed(error) => {
                            resolution.step = RegistryStep::Failed;
                            Action::Failed(error)
                        },
                        _ => action,
                    }
                } else {
                    resolution.fail(ResolveError::UnexpectedEvent)
                }
            },
            RegistryStep::Finished => Action::Failed(ResolveError::UnexpectedEvent),
            RegistryStep::Failed => resolution.fail(ResolveError::UnexpectedEvent),
        }
    }
}

/// No step changes the scratch directory once the collection has one, and
/// a scratch directory is asked for only while the collection has none.
pub proof fn lemma_registry_keeps_scratch_dir(
    pre: RegistryView,
    table: Map<Seq<char>, PublishedPackage>,
    scratch: Option<Scratch>,
    manifest: bool,
    plan: Seq<DownloadGroup>,
    event: Event,
)
    ensures
        scratch is Some ==> registry_next(pre, table, scratch, manifest, plan, event).2 == scratch,
        registry_next(pre, table, scratch, manifest, plan, event).3 == Action::CreateScratchDir
            ==> scratch is None,
{
}

/// With a registry manifest at hand, its packages enter the collection
/// without an origin commit, and nothing is downloaded or repaired on the way.
pub proof fn lemma_manifest_packages_have_no_commit(
    pre: RegistryView,
    table: Map<Seq<char>, PublishedPackage>,
    scratch: Option<Scratch>,
    plan: Seq<DownloadGroup>,
    packages: Vec<Package>,
    i: int,
)
    requires
        pre.step == RegistryStep::Start,
        0 <= i < packages.len(),
    ensures
        ({
            let (asked, table1, scratch1, action1) = registry_next(pre, table, scratch, true, plan, Event::Start);
            let (done, table2, scratch2, action2) = registry_next(
                asked,
                table1,
                scratch1,
                true,
                plan,
                Event::Packages(Ok(packages)),
            );
            &&& action1 == Action::ReadRegistryManifest
            &&& action2 == Action::Finished
            &&& table2 == with_all(table, without_commit(packages@))
            &&& without_commit(packages@)[i] == (PublishedPackage { package: packages[i], sha1: None })
        }),
{
}

impl RegistryResolution {
    /// The group that is being downloaded: its packages are to be
    /// downloaded from its registry, into the scratch directory of the
    /// collection.
    pub fn downloading(&self) -> (group: Option<&DownloadGroup>)
        ensures
            match group {
                Some(g) => self.step == RegistryStep::Downloading && self.group < self.plan.len() && *g
                    == self.plan[self.group as int],
                None => !(self.step == RegistryStep::Downloading && self.group < self.plan.len()),
            },
    {
        if self.step == RegistryStep::Downloading && self.group < self.plan.len() {
            Some(&self.plan[self.group])
        } else {
            None
        }
    }

    /// The downloaded package that is under repair. What a repair probes,
    /// removes and runs git in is the directory of this package's manifest.
    pub fn under_repair(&self) -> (package: Option<&Package>)
        ensures
            match package {
                Some(p) => self.step == RegistryStep::Repairing && self.pending.len() > 0 && *p
                    == self.pending[0],
                None => !(self.step == RegistryStep::Repairing && self.pending.len() > 0),
            },
    {
        if self.step == RegistryStep::Repairing && self.pending.len() > 0 {
            Some(&self.pending[0])
        } else {
            None
        }
    }
}

/// The packages that `event` brings in, if it brings any, are all called
/// like one of `registry_packages`.
pub open spec fn brings_only(registry_packages: Seq<Package>, event: Event) -> bool {
    event matches Event::Packages(Ok(brought)) ==> forall|i: int|
        0 <= i < brought.len() ==> is_name_of(registry_packages, (#[trigger] brought[i]).name@)
}

/// The packages that `state` holds, downloaded or repaired, are all called
/// like one of `registry_packages`.
pub open spec fn holds_only(state: RegistryView, registry_packages: Seq<Package>) -> bool {
    &&& forall|i: int|
        0 <= i < state.pending.len() ==> is_name_of(registry_packages, (#[trigger] state.pending[i]).name@)
    &&& forall|i: int|
        0 <= i < state.ready.len() ==> is_name_of(registry_packages, (#[trigger] state.ready[i]).package.name@)
}

/// Where only packages called like one of `registry_packages` come in, a
/// step puts only such packages into the collection, and leaves alone what
/// it held.
pub proof fn lemma_registry_step_names(
    pre: RegistryView,
    table: Map<Seq<char>, PublishedPackage>,
    scratch: Option<Scratch>,
    manifest: bool,
    plan: Seq<DownloadGroup>,
    event: Event,
    registry_packages: Seq<Package>,
)
    requires
        holds_only(pre, registry_packages),
        brings_only(registry_packages, event),
    ensures
        holds_only(registry_next(pre, table, scratch, manifest, plan, event).0, registry_packages),
        forall|name: Seq<char>| #[trigger]
            registry_next(pre, table, scratch, manifest, plan, event).1.contains_key(name)
                ==> table.contains_key(name) || is_name_of(registry_packages, name),
{
    let next = registry_next(pre, table, scratch, manifest, plan, event);
    assert forall|name: Seq<char>| #[trigger] next.1.contains_key(name) implies table.contains_key(name)
        || is_name_of(registry_packages, name) by {
        if next.1 != table {
            match (pre.step, event) {
                (RegistryStep::ReadingManifest, Event::Packages(Ok(brought))) => {
                    let entering = without_commit(brought@);
                    lemma_names_after_extend(table, entering, name);
                    if !table.contains_key(name) {
                        let i = choose|i: int| named(entering, i, name);
                        assert(brought@[i].name@ == name);
                    }
                },
                (RegistryStep::Downloading, Event::Packages(Ok(brought))) => {
                    lemma_names_after_extend(table, pre.ready, name);
                    if !table.contains_key(name) {
                        let i = choose|i: int| named(pre.ready, i, name);
                        assert(pre.ready[i].package.name@ == name);
                    }
                },
                (RegistryStep::Repairing, _) => {
                    let repair = repair_next(pre.repair, pre.pending[0], event).0;
                    let entering = pre.ready.push(PublishedPackage { package: pre.pending[0], sha1: repair.sha1 });
                    lemma_names_after_extend(table, entering, name);
                    if !table.contains_key(name) {
                        let i = choose|i: int| named(entering, i, name);
                        if i < pre.ready.len() {
                            assert(pre.ready[i].package.name@ == name);
                        } else {
                            assert(pre.pending[0].name@ == name);
                        }
                    }
                },
                _ => {},
            }
        }
    }
    assert(holds_only(next.0, registry_packages)) by {
        match (pre.step, event) {
            (RegistryStep::Downloading, Event::Packages(Ok(brought))) => {
                let pending = pre.pending + brought@;
                assert forall|i: int| 0 <= i < pending.len() implies is_name_of(
                    registry_packages,
                    (#[trigger] pending[i]).name@,
                ) by {
                    if i < pre.pending.len() {
                        assert(pending[i] == pre.pending[i]);
                    } else {
                        assert(pending[i] == brought@[i - pre.pending.len()]);
                    }
                }
            },
            (RegistryStep::Repairing, _) => {
                if pre.pending.len() > 0 {
                    let repair = repair_next(pre.repair, pre.pending[0], event).0;
                    let pending = pre.pending.drop_first();
                    let ready = pre.ready.push(PublishedPackage { package: pre.pending[0], sha1: repair.sha1 });
                    assert forall|i: int| 0 <= i < pending.len() implies is_name_of(
                        registry_packages,
                        (#[trigger] pending[i]).name@,
                    ) by {
                        assert(pending[i] == pre.pending[i + 1]);
                    }
                    assert forall|i: int| 0 <= i < ready.len() implies is_name_of(
                        registry_packages,
                        (#[trigger] ready[i]).package.name@,
                    ) by {
                        if i < pre.ready.len() {
                            assert(ready[i] == pre.ready[i]);
                        } else {
                            assert(ready[i].package == pre.pending[0]);
                        }
                    }
                }
            },
            _ => {},
        }
    }
}

} // verus!
