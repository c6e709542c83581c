//! Resolution of the latest published version of every package: first of
//! those that are published to a registry, then of those that only git tags
//! tell of.
use vstd::prelude::*;
use crate::collection::{PackagesCollection, Scratch};
use crate::git_tags::{
    on_worktree,
    lemma_tags_keep_scratch_dir,
    lemma_tags_next_resolves_released,
    lemma_tags_step_names,
    resolves_released,
    tags_next,
    TagResolution,
    TagStep,
    TagView,
};
use crate::package::{is_name_of, Package, PublishedPackage};
use crate::protocol::{Action, Event, ResolveError};
use crate::registry::{
    brings_only,
    holds_only,
    is_registry_grouping,
    lemma_registry_step_names,
    lemma_registry_keeps_scratch_dir,
    makes_plan,
    registry_next,
    str_text,
    DownloadGroup,
    RegistryResolution,
    RegistryStep,
    RegistryView,
};
use crate::release_tags::{template_is_deterministic, template_is_total};
use crate::repair::{Repair, RepairStep};

verus! {

/// Which part of resolution is under way.
#[derive(Clone, Copy, Debug, PartialEq, Eq, Structural)]
pub enum Phase {
    /// The packages of the registries.
    Registry,
    /// The packages that only git tags tell of.
    Tags,
    /// Both parts are done.
    Finished,
    /// Resolution failed.
    Failed,
}

/// Resolution of the latest published version of every package: the
/// collection that it fills, and what is left to do.
#[derive(Debug)]
pub struct Resolution {
    /// The published packages found so far.
    pub collection: PackagesCollection,
    /// Which part of resolution is under way.
    pub phase: Phase,
    /// Resolution of the packages of the registries.
    pub registry: RegistryResolution,
    /// Resolution of the packages that only git tags tell of.
    pub tags: TagResolution,
}

/// A [`Resolution`] as plain values.
pub struct ResolutionView {
    pub phase: Phase,
    pub registry: RegistryView,
    pub tags: TagView,
    /// The published package under each name.
    pub table: Map<Seq<char>, PublishedPackage>,
    /// The scratch directory that the collection owns, once it has one.
    pub scratch: Option<Scratch>,
}

impl View for Resolution {
    type V = ResolutionView;

    open spec fn view(&self) -> ResolutionView {
        ResolutionView {
            phase: self.phase,
            registry: self.registry@,
            tags: self.tags@,
            table: self.collection@,
            scratch: self.collection.scratch_dir(),
        }
    }
}

/// The phase that follows `phase` once `action` is asked for.
pub open spec fn phase_after(phase: Phase, action: Action) -> Phase {
    match action {
        Action::Finished => Phase::Finished,
        Action::Failed(_) => Phase::Failed,
        _ => phase,
    }
}

/// What follows in the resolution `pre` when `event` comes in: where it
/// stands then, and the action asked for. `manifest` tells whether a
/// registry manifest is at hand, and `plan` is the plan that is adopted in
/// the step that makes one.
///
/// The packages of the registries are resolved first. When they are in the
/// collection, the same step begins the resolution of the packages that only
/// git tags tell of, into the same collection and scratch directory. A
/// failure of either part ends resolution. Once resolution is finished or
/// has failed, no event changes it any more.
pub open spec fn latest_next<F: Fn(&str, &str) -> String>(
    pre: ResolutionView,
    project: &F,
    git_only_packages: Seq<Package>,
    manifest: bool,
    plan: Seq<DownloadGroup>,
    event: Event,
) -> (ResolutionView, Action) {
    match pre.phase {
        Phase::Registry => {
            let (registry, table, scratch, action) = registry_next(
                pre.registry,
                pre.table,
                pre.scratch,
                manifest,
                plan,
                event,
            );
            match action {
                Action::Finished => {
                    let (tags, table, scratch, action) = tags_next(
                        pre.tags,
                        table,
                        scratch,
                        project,
                        git_only_packages,
                        Event::Start,
                    );
                    (
                        ResolutionView { phase: phase_after(Phase::Tags, action), registry, tags, table, scratch },
                        action,
                    )
                },
                Action::Failed(_) => (
                    ResolutionView { phase: Phase::Failed, registry, table, scratch, ..pre },
                    action,
                ),
                _ => (ResolutionView { registry, table, scratch, ..pre }, action),
            }
        },
        Phase::Tags => {
            let (tags, table, scratch, action) = tags_next(
                pre.tags,
                pre.table,
                pre.scratch,
                project,
                git_only_packages,
                event,
            );
            (ResolutionView { phase: phase_after(Phase::Tags, action), tags, table, scratch, ..pre }, action)
        },
        _ => (pre, Action::Failed(ResolveError::UnexpectedEvent)),
    }
}

/// A resolution that has not begun: nothing was asked for, and the
/// collection is empty and has no scratch directory.
pub open spec fn fresh_resolution() -> ResolutionView {
    ResolutionView {
        phase: Phase::Registry,
        registry: RegistryView {
            step: RegistryStep::Start,
            plan: Seq::empty(),
            group: 0,
            pending: Seq::empty(),
            repair: Repair { step: RepairStep::Start, sha1: None },
            ready: Seq::empty(),
        },
        tags: TagView { step: TagStep::Start, tags: Seq::empty(), package: 0, tag: 0, found: None },
        table: Map::empty(),
        scratch: None,
    }
}

impl Resolution {
    /// A resolution that has not begun, with an empty collection.
    pub fn new() -> (resolution: Resolution)
        ensures
            resolution@ == fresh_resolution(),
    {
        Resolution {
            collection: PackagesCollection::new(),
            phase: Phase::Registry,
            registry: RegistryResolution::new(),
            tags: TagResolution::new(),
        }
    }

    /// The collection, once both parts of resolution are done.
    pub fn finish(self) -> (collection: Option<PackagesCollection>)
        ensures
            match collection {
                Some(c) => self.phase == Phase::Finished && c == self.collection,
                None => self.phase != Phase::Finished,
            },
    {
        match self.phase {
            Phase::Finished => Some(self.collection),
            _ => None,
        }
    }
}

/// Takes `resolution`, the retrieval of the latest published version of
/// each of the given packages, one step on: `event` tells how the action
/// went that was asked for last, and the result is the action to carry out
/// next. The `registry_packages` are looked up in their registries, the
/// `git_only_packages` by the release tags of the repository.
pub fn get_latest_packages<F: Fn(&str, &str) -> String>(
    resolution: &mut Resolution,
    project: &F,
    registry_packages: &Vec<Package>,
    git_only_packages: &Vec<Package>,
    registry_manifest: Option<&str>,
    registry: Option<&str>,
    event: Event,
) -> (action: Action)
    requires
        template_is_total(project),
        template_is_deterministic(project),
    ensures
        old(resolution).phase == Phase::Registry && makes_plan(
            old(resolution)@.registry,
            old(resolution)@.scratch,
            registry_manifest is Some,
            event,
        ) ==> is_registry_grouping(registry_packages@, str_text(registry), final(resolution)@.registry.plan),
        (final(resolution)@, action) == latest_next(
            old(resolution)@,
            project,
            git_only_packages@,
            registry_manifest is Some,
            final(resolution)@.registry.plan,
            event,
        ),
{
    match resolution.phase {
        Phase::Registry => {
            let action = resolution.collection.get_registry_packages(
                &mut resolution.registry,
                registry_manifest,
                registry_packages,
                registry,
                event,
            );
            match action {
                Action::Finished => {
                    let action = resolution.collection.get_latest_tagged_packages(
                        &mut resolution.tags,
                        project,
                        git_only_packages,
                        Event::Start,
                    );
                    resolution.phase = match action {
                        Action::Finished => Phase::Finished,
                        Action::Failed(_) => Phase::Failed,
                        _ => Phase::Tags,
                    };
                    action
                },
                Action::Failed(error) => {
                    resolution.phase = Phase::Failed;
                    Action::Failed(error)
                },
                _ => action,
            }
        },
        Phase::Tags => {
            let action = resolution.collection.get_latest_tagged_packages(
                &mut resolution.tags,
                project,
                git_only_packages,
                event,
            );
            match action {
                Action::Finished => {
                    resolution.phase = Phase::Finished;
                },
                Action::Failed(_) => {
                    resolution.phase = Phase::Failed;
                },
                _ => {},
            }
            action
        },
        _ => Action::Failed(ResolveError::UnexpectedEvent),
    }
}

/// From the first step to the last, whichever part of resolution is under
/// way: no step changes the scratch directory once the collection has one,
/// and a scratch directory is asked for only while the collection has none.
/// So one collection gets at most one scratch directory.
pub proof fn lemma_one_scratch_dir<F: Fn(&str, &str) -> String>(
    pre: ResolutionView,
    project: &F,
    git_only_packages: Seq<Package>,
    manifest: bool,
    plan: Seq<DownloadGroup>,
    event: Event,
)
    ensures
        pre.scratch is Some ==> latest_next(pre, project, git_only_packages, manifest, plan, event).0.scratch
            == pre.scratch,
        latest_next(pre, project, git_only_packages, manifest, plan, event).1 == Action::CreateScratchDir
            ==> pre.scratch is None,
{
    if pre.phase == Phase::Registry {
        lemma_registry_keeps_scratch_dir(pre.registry, pre.table, pre.scratch, manifest, plan, event);
        let (registry, table, scratch, action) = registry_next(
            pre.registry,
            pre.table,
            pre.scratch,
            manifest,
            plan,
            event,
        );
        lemma_tags_keep_scratch_dir(pre.tags, table, scratch, project, git_only_packages, Event::Start);
    } else {
        lemma_tags_keep_scratch_dir(pre.tags, pre.table, pre.scratch, project, git_only_packages, event);
    }
}

/// One step of a run: [`latest_next`], kept folded so that a proof about a
/// whole run unfolds only the steps that it looks into.
#[verifier::opaque]
pub open spec fn latest_step<F: Fn(&str, &str) -> String>(
    pre: ResolutionView,
    project: &F,
    git_only_packages: Seq<Package>,
    manifest: bool,
    plan: Seq<DownloadGroup>,
    event: Event,
) -> (ResolutionView, Action) {
    latest_next(pre, project, git_only_packages, manifest, plan, event)
}

/// Where the resolution `start` stands after the events `events` came in,
/// one after the other.
pub open spec fn latest_after<F: Fn(&str, &str) -> String>(
    start: ResolutionView,
    project: &F,
    git_only_packages: Seq<Package>,
    manifest: bool,
    plan: Seq<DownloadGroup>,
    events: Seq<Event>,
) -> ResolutionView
    decreases events.len(),
{
    if events.len() == 0 {
        start
    } else {
        latest_step(
            latest_after(start, project, git_only_packages, manifest, plan, events.drop_last()),
            project,
            git_only_packages,
            manifest,
            plan,
            events.last(),
        ).0
    }
}

/// The action that the resolution `start` asks for in answer to
/// `events[i]`, after the events before it came in.
pub open spec fn latest_asked<F: Fn(&str, &str) -> String>(
    start: ResolutionView,
    project: &F,
    git_only_packages: Seq<Package>,
    manifest: bool,
    plan: Seq<DownloadGroup>,
    events: Seq<Event>,
    i: int,
) -> Action {
    latest_step(
        latest_after(start, project, git_only_packages, manifest, plan, events.take(i)),
        project,
        git_only_packages,
        manifest,
        plan,
        events[i],
    ).1
}

/// Resolution waits for the scratch directory that it asked for.
spec fn awaits_scratch_dir(state: ResolutionView) -> bool {
    &&& state.scratch is None
    &&& {
        ||| state.phase == Phase::Registry && state.registry.step == RegistryStep::CreatingScratchDir
        ||| state.phase == Phase::Tags && state.tags.step == TagStep::CreatingScratchDir
    }
}

/// Resolution has its scratch directory, or has ended.
spec fn needs_no_scratch_dir(state: ResolutionView) -> bool {
    state.scratch is Some || state.phase == Phase::Failed || state.phase == Phase::Finished
}

proof fn lemma_scratch_dir_step<F: Fn(&str, &str) -> String>(
    pre: ResolutionView,
    project: &F,
    git_only_packages: Seq<Package>,
    manifest: bool,
    plan: Seq<DownloadGroup>,
    event: Event,
)
    ensures
        ({
            let (post, action) = latest_step(pre, project, git_only_packages, manifest, plan, event);
            &&& action == Action::CreateScratchDir ==> awaits_scratch_dir(post) && pre.scratch is None
            &&& action != Action::CreateScratchDir && (awaits_scratch_dir(pre) || needs_no_scratch_dir(pre))
                ==> needs_no_scratch_dir(post)
            &&& awaits_scratch_dir(pre) || needs_no_scratch_dir(pre) ==> action != Action::CreateScratchDir
            &&& pre.scratch is Some ==> post.scratch == pre.scratch
        }),
{
    reveal(latest_step);
    lemma_one_scratch_dir(pre, project, git_only_packages, manifest, plan, event);
    if pre.phase == Phase::Registry {
        let (registry, table, scratch, action) = registry_next(
            pre.registry,
            pre.table,
            pre.scratch,
            manifest,
            plan,
            event,
        );
        lemma_registry_keeps_scratch_dir(pre.registry, pre.table, pre.scratch, manifest, plan, event);
        lemma_tags_keep_scratch_dir(pre.tags, table, scratch, project, git_only_packages, Event::Start);
    } else if pre.phase == Phase::Tags {
        lemma_tags_keep_scratch_dir(pre.tags, pre.table, pre.scratch, project, git_only_packages, event);
    }
}

proof fn lemma_after_take<F: Fn(&str, &str) -> String>(
    start: ResolutionView,
    project: &F,
    git_only_packages: Seq<Package>,
    manifest: bool,
    plan: Seq<DownloadGroup>,
    events: Seq<Event>,
    i: int,
)
    requires
        0 <= i < events.len(),
    ensures
        latest_after(start, project, git_only_packages, manifest, plan, events.take(i + 1)) == latest_step(
            latest_after(start, project, git_only_packages, manifest, plan, events.take(i)),
            project,
            git_only_packages,
            manifest,
            plan,
            events[i],
        ).0,
{
    assert(events.take(i + 1).drop_last() == events.take(i));
    assert(events.take(i + 1).last() == events[i]);
}

proof fn lemma_scratch_dir_settled<F: Fn(&str, &str) -> String>(
    start: ResolutionView,
    project: &F,
    git_only_packages: Seq<Package>,
    manifest: bool,
    plan: Seq<DownloadGroup>,
    events: Seq<Event>,
    i: int,
    j: int,
)
    requires
        0 <= i <= j <= events.len(),
    ensures
        ({
            let at_i = latest_after(start, project, git_only_packages, manifest, plan, events.take(i));
            let at_j = latest_after(start, project, git_only_packages, manifest, plan, events.take(j));
            &&& at_i.scratch is Some ==> at_j.scratch == at_i.scratch
            &&& needs_no_scratch_dir(at_i) ==> needs_no_scratch_dir(at_j)
            &&& needs_no_scratch_dir(at_i) && j < events.len() ==> latest_asked(
                start,
                project,
                git_only_packages,
                manifest,
                plan,
                events,
                j,
            ) != Action::CreateScratchDir
        }),
    decreases j - i,
{
    let at_j = latest_after(start, project, git_only_packages, manifest, plan, events.take(j));
    if i < j {
        lemma_scratch_dir_settled(start, project, git_only_packages, manifest, plan, events, i, j - 1);
        lemma_after_take(start, project, git_only_packages, manifest, plan, events, j - 1);
        let before = latest_after(start, project, git_only_packages, manifest, plan, events.take(j - 1));
        lemma_scratch_dir_step(before, project, git_only_packages, manifest, plan, events[j - 1]);
    }
    if j < events.len() {
        lemma_scratch_dir_step(at_j, project, git_only_packages, manifest, plan, events[j]);
    }
}

/// Once the scratch directory was asked for, it is not asked for again.
proof fn lemma_scratch_dir_asked_once<F: Fn(&str, &str) -> String>(
    start: ResolutionView,
    project: &F,
    git_only_packages: Seq<Package>,
    manifest: bool,
    plan: Seq<DownloadGroup>,
    events: Seq<Event>,
    i: int,
    j: int,
)
    requires
        0 <= i < j < events.len(),
        latest_asked(start, project, git_only_packages, manifest, plan, events, i) == Action::CreateScratchDir,
    ensures
        latest_asked(start, project, git_only_packages, manifest, plan, events, j) != Action::CreateScratchDir,
{
    let at_i = latest_after(start, project, git_only_packages, manifest, plan, events.take(i));
    let next = latest_after(start, project, git_only_packages, manifest, plan, events.take(i + 1));
    lemma_after_take(start, project, git_only_packages, manifest, plan, events, i);
    assert(awaits_scratch_dir(next)) by {
        lemma_scratch_dir_step(at_i, project, git_only_packages, manifest, plan, events[i]);
    }
    if i + 1 < j {
        let after = latest_after(start, project, git_only_packages, manifest, plan, events.take(i + 2));
        lemma_after_take(start, project, git_only_packages, manifest, plan, events, i + 1);
        assert(needs_no_scratch_dir(after)) by {
            lemma_scratch_dir_step(next, project, git_only_packages, manifest, plan, events[i + 1]);
        }
        lemma_scratch_dir_settled(start, project, git_only_packages, manifest, plan, events, i + 2, j);
    } else {
        lemma_scratch_dir_step(next, project, git_only_packages, manifest, plan, events[j]);
    }
}

/// Over a whole resolution, whatever events come in and wherever it
/// starts: the scratch directory is asked for at most once, and only while
/// the collection has none; and once the collection has one, it keeps that
/// one, directory and path, to the end.
pub proof fn lemma_run_has_one_scratch_dir<F: Fn(&str, &str) -> String>(
    start: ResolutionView,
    project: &F,
    git_only_packages: Seq<Package>,
    manifest: bool,
    plan: Seq<DownloadGroup>,
    events: Seq<Event>,
    i: int,
    j: int,
)
    requires
        0 <= i <= j <= events.len(),
    ensures
        ({
            let at_i = latest_after(start, project, git_only_packages, manifest, plan, events.take(i));
            let at_j = latest_after(start, project, git_only_packages, manifest, plan, events.take(j));
            &&& at_i.scratch is Some ==> at_j.scratch == at_i.scratch
            &&& j < events.len() && latest_asked(start, project, git_only_packages, manifest, plan, events, j)
                == Action::CreateScratchDir ==> at_i.scratch is None && (i < j ==> latest_asked(
                start,
                project,
                git_only_packages,
                manifest,
                plan,
                events,
                i,
            ) != Action::CreateScratchDir)
        }),
{
    lemma_scratch_dir_settled(start, project, git_only_packages, manifest, plan, events, i, j);
    if i < j && j < events.len() && latest_asked(start, project, git_only_packages, manifest, plan, events, i)
        == Action::CreateScratchDir {
        lemma_scratch_dir_asked_once(start, project, git_only_packages, manifest, plan, events, i, j);
    }
}

/// A step of a run is a step of resolution.
pub proof fn lemma_latest_step_is_next<F: Fn(&str, &str) -> String>(
    pre: ResolutionView,
    project: &F,
    git_only_packages: Seq<Package>,
    manifest: bool,
    plan: Seq<DownloadGroup>,
    event: Event,
)
    ensures
        latest_step(pre, project, git_only_packages, manifest, plan, event) == latest_next(
            pre,
            project,
            git_only_packages,
            manifest,
            plan,
            event,
        ),
{
    reveal(latest_step);
}

/// The packages that resolution holds or has put into the collection are
/// all called like one of `registry_packages` or of `git_only_packages`,
/// and the package that it resolves from the tags is one that has a release tag.
pub open spec fn well_sourced<F: Fn(&str, &str) -> String>(
    state: ResolutionView,
    project: &F,
    registry_packages: Seq<Package>,
    git_only_packages: Seq<Package>,
) -> bool {
    &&& holds_only(state.registry, registry_packages)
    &&& resolves_released(state.tags, project, git_only_packages)
    &&& state.tags.tags.len() <= usize::MAX
    &&& forall|name: Seq<char>| #[trigger]
        state.table.contains_key(name) ==> is_name_of(registry_packages, name) || is_name_of(
            git_only_packages,
            name,
        )
}

/// While the packages of the registries are resolved, `event` brings in
/// only packages that are called like one of `registry_packages`.
pub open spec fn registry_brings_only(
    state: ResolutionView,
    registry_packages: Seq<Package>,
    event: Event,
) -> bool {
    state.phase == Phase::Registry ==> brings_only(registry_packages, event)
}

/// A resolution that has not begun is well sourced.
pub proof fn lemma_fresh_resolution_is_well_sourced<F: Fn(&str, &str) -> String>(
    project: &F,
    registry_packages: Seq<Package>,
    git_only_packages: Seq<Package>,
)
    ensures
        well_sourced(fresh_resolution(), project, registry_packages, git_only_packages),
{
}

proof fn lemma_well_sourced_step<F: Fn(&str, &str) -> String>(
    pre: ResolutionView,
    project: &F,
    registry_packages: Seq<Package>,
    git_only_packages: Seq<Package>,
    manifest: bool,
    plan: Seq<DownloadGroup>,
    event: Event,
)
    requires
        well_sourced(pre, project, registry_packages, git_only_packages),
        git_only_packages.len() <= usize::MAX,
        registry_brings_only(pre, registry_packages, event),
    ensures
        ({
            let next = latest_step(pre, project, git_only_packages, manifest, plan, event).0;
            &&& well_sourced(next, project, registry_packages, git_only_packages)
            &&& pre.phase != Phase::Registry ==> next.phase != Phase::Registry
            &&& pre.phase != Phase::Registry ==> forall|name: Seq<char>|
                !is_name_of(git_only_packages, name) ==> (#[trigger] next.table.contains_key(name))
                    == pre.table.contains_key(name) && (pre.table.contains_key(name) ==> next.table[name]
                    == pre.table[name])
        }),
{
    reveal(latest_step);
    let next = latest_next(pre, project, git_only_packages, manifest, plan, event).0;
    if pre.phase == Phase::Registry {
        let (registry, table, scratch, action) = registry_next(
            pre.registry,
            pre.table,
            pre.scratch,
            manifest,
            plan,
            event,
        );
        lemma_registry_step_names(pre.registry, pre.table, pre.scratch, manifest, plan, event, registry_packages);
        assert forall|name: Seq<char>| #[trigger] table.contains_key(name) implies is_name_of(
            registry_packages,
            name,
        ) || is_name_of(git_only_packages, name) by {
            if !pre.table.contains_key(name) {
            }
        }
        if action == Action::Finished {
            lemma_tags_next_resolves_released(pre.tags, table, scratch, project, git_only_packages, Event::Start);
            assert(tags_next(pre.tags, table, scratch, project, git_only_packages, Event::Start).1 == table);
        }
    } else if pre.phase == Phase::Tags {
        lemma_tags_next_resolves_released(pre.tags, pre.table, pre.scratch, project, git_only_packages, event);
        if let Event::Tags(tags) = event {
            assert(tags@.len() == tags.len());
        }
        assert forall|name: Seq<char>|
            !is_name_of(git_only_packages, name) implies (#[trigger] next.table.contains_key(name))
            == pre.table.contains_key(name) && (pre.table.contains_key(name) ==> next.table[name]
            == pre.table[name]) by {
            lemma_tags_step_names(pre.tags, pre.table, pre.scratch, project, git_only_packages, event, name);
        }
        assert forall|name: Seq<char>| #[trigger] next.table.contains_key(name) implies is_name_of(
            registry_packages,
            name,
        ) || is_name_of(git_only_packages, name) by {
            if !is_name_of(git_only_packages, name) {
                lemma_tags_step_names(pre.tags, pre.table, pre.scratch, project, git_only_packages, event, name);
            }
        }
    }
}

proof fn lemma_well_sourced_run<F: Fn(&str, &str) -> String>(
    start: ResolutionView,
    project: &F,
    registry_packages: Seq<Package>,
    git_only_packages: Seq<Package>,
    manifest: bool,
    plan: Seq<DownloadGroup>,
    events: Seq<Event>,
    i: int,
    j: int,
)
    requires
        well_sourced(start, project, registry_packages, git_only_packages),
        git_only_packages.len() <= usize::MAX,
        0 <= i <= j <= events.len(),
        forall|k: int|
            0 <= k < events.len() ==> registry_brings_only(
                latest_after(start, project, git_only_packages, manifest, plan, events.take(k)),
                registry_packages,
                #[trigger] events[k],
            ),
    ensures
        ({
            let at_i = latest_after(start, project, git_only_packages, manifest, plan, events.take(i));
            let at_j = latest_after(start, project, git_only_packages, manifest, plan, events.take(j));
            &&& well_sourced(at_j, project, registry_packages, git_only_packages)
            &&& at_i.phase != Phase::Registry ==> at_j.phase != Phase::Registry
            &&& at_i.phase != Phase::Registry ==> forall|name: Seq<char>|
                !is_name_of(git_only_packages, name) ==> (#[trigger] at_j.table.contains_key(name))
                    == at_i.table.contains_key(name) && (at_i.table.contains_key(name) ==> at_j.table[name]
                    == at_i.table[name])
        }),
    decreases j,
{
    if j == 0 {
        assert(events.take(0) =~= Seq::<Event>::empty());
    } else if i == j {
        lemma_well_sourced_run(
            start,
            project,
            registry_packages,
            git_only_packages,
            manifest,
            plan,
            events,
            0,
            j - 1,
        );
        lemma_after_take(start, project, git_only_packages, manifest, plan, events, j - 1);
        let before = latest_after(start, project, git_only_packages, manifest, plan, events.take(j - 1));
        assert(registry_brings_only(before, registry_packages, events[j - 1]));
        lemma_well_sourced_step(
            before,
            project,
            registry_packages,
            git_only_packages,
            manifest,
            plan,
            events[j - 1],
        );
    } else {
        lemma_well_sourced_run(
            start,
            project,
            registry_packages,
            git_only_packages,
            manifest,
            plan,
            events,
            i,
            j - 1,
        );
        lemma_after_take(start, project, git_only_packages, manifest, plan, events, j - 1);
        let before = latest_after(start, project, git_only_packages, manifest, plan, events.take(j - 1));
        assert(registry_brings_only(before, registry_packages, events[j - 1]));
        lemma_well_sourced_step(
            before,
            project,
            registry_packages,
            git_only_packages,
            manifest,
            plan,
            events[j - 1],
        );
    }
}

/// Over a whole resolution, whatever events come in, as long as the
/// registries bring in only packages that are called like one of
/// `registry_packages`: every package in the collection is called like one
/// of `registry_packages` or of `git_only_packages`.
pub proof fn lemma_run_enters_only_the_packages_given<F: Fn(&str, &str) -> String>(
    start: ResolutionView,
    project: &F,
    registry_packages: Seq<Package>,
    git_only_packages: Seq<Package>,
    manifest: bool,
    plan: Seq<DownloadGroup>,
    events: Seq<Event>,
    name: Seq<char>,
)
    requires
        well_sourced(start, project, registry_packages, git_only_packages),
        git_only_packages.len() <= usize::MAX,
        forall|k: int|
            0 <= k < events.len() ==> registry_brings_only(
                latest_after(start, project, git_only_packages, manifest, plan, events.take(k)),
                registry_packages,
                #[trigger] events[k],
            ),
        latest_after(start, project, git_only_packages, manifest, plan, events).table.contains_key(name),
    ensures
        is_name_of(registry_packages, name) || is_name_of(git_only_packages, name),
{
    lemma_well_sourced_run(
        start,
        project,
        registry_packages,
        git_only_packages,
        manifest,
        plan,
        events,
        0,
        events.len() as int,
    );
    assert(events.take(events.len() as int) == events);
}

/// Over a whole resolution, whatever events come in: once the packages of
/// the registries are in the collection, they stay as they are. Resolution
/// from the tags changes what the collection holds only under the names of
/// `git_only_packages`; so where no package is both a registry package and
/// a git-only package, it adds to the collection and overwrites nothing.
pub proof fn lemma_run_keeps_registry_packages<F: Fn(&str, &str) -> String>(
    start: ResolutionView,
    project: &F,
    registry_packages: Seq<Package>,
    git_only_packages: Seq<Package>,
    manifest: bool,
    plan: Seq<DownloadGroup>,
    events: Seq<Event>,
    i: int,
    j: int,
    name: Seq<char>,
)
    requires
        well_sourced(start, project, registry_packages, git_only_packages),
        git_only_packages.len() <= usize::MAX,
        forall|k: int|
            0 <= k < events.len() ==> registry_brings_only(
                latest_after(start, project, git_only_packages, manifest, plan, events.take(k)),
                registry_packages,
                #[trigger] events[k],
            ),
        0 <= i <= j <= events.len(),
        latest_after(start, project, git_only_packages, manifest, plan, events.take(i)).phase != Phase::Registry,
        !is_name_of(git_only_packages, name),
    ensures
        ({
            let at_i = latest_after(start, project, git_only_packages, manifest, plan, events.take(i));
            let at_j = latest_after(start, project, git_only_packages, manifest, plan, events.take(j));
            &&& at_j.table.contains_key(name) == at_i.table.contains_key(name)
            &&& at_i.table.contains_key(name) ==> at_j.table[name] == at_i.table[name]
        }),
{
    lemma_well_sourced_run(start, project, registry_packages, git_only_packages, manifest, plan, events, i, j);
    let at_i = latest_after(start, project, git_only_packages, manifest, plan, events.take(i));
    let at_j = latest_after(start, project, git_only_packages, manifest, plan, events.take(j));
    assert(at_j.table.contains_key(name) == at_i.table.contains_key(name));
}

/// The action is carried out in the scratch directory: a download into
/// it, or work on a worktree under it.
pub open spec fn works_in_scratch_dir(action: Action) -> bool {
    action is Download || action is AddWorktree || action is ReadManifest
}

/// Where resolution downloads or works on a worktree, the collection has
/// its scratch directory.
pub open spec fn has_its_scratch_dir(state: ResolutionView) -> bool {
    &&& state.phase == Phase::Registry && state.registry.step == RegistryStep::Downloading
        ==> state.scratch is Some
    &&& state.phase == Phase::Tags && on_worktree(state.tags.step) ==> state.scratch is Some
}

proof fn lemma_has_its_scratch_dir_step<F: Fn(&str, &str) -> String>(
    pre: ResolutionView,
    project: &F,
    git_only_packages: Seq<Package>,
    manifest: bool,
    plan: Seq<DownloadGroup>,
    event: Event,
)
    requires
        has_its_scratch_dir(pre),
    ensures
        ({
            let (post, action) = latest_step(pre, project, git_only_packages, manifest, plan, event);
            &&& has_its_scratch_dir(post)
            &&& works_in_scratch_dir(action) ==> post.scratch is Some
        }),
{
    reveal(latest_step);
    if pre.phase == Phase::Registry {
        let (registry, table, scratch, action) = registry_next(
            pre.registry,
            pre.table,
            pre.scratch,
            manifest,
            plan,
            event,
        );
        lemma_registry_keeps_scratch_dir(pre.registry, pre.table, pre.scratch, manifest, plan, event);
        lemma_tags_keep_scratch_dir(pre.tags, table, scratch, project, git_only_packages, Event::Start);
    } else if pre.phase == Phase::Tags {
        lemma_tags_keep_scratch_dir(pre.tags, pre.table, pre.scratch, project, git_only_packages, event);
    }
}

proof fn lemma_has_its_scratch_dir_run<F: Fn(&str, &str) -> String>(
    start: ResolutionView,
    project: &F,
    git_only_packages: Seq<Package>,
    manifest: bool,
    plan: Seq<DownloadGroup>,
    events: Seq<Event>,
    i: int,
)
    requires
        has_its_scratch_dir(start),
        0 <= i <= events.len(),
    ensures
        has_its_scratch_dir(latest_after(start, project, git_only_packages, manifest, plan, events.take(i))),
    decreases i,
{
    if i == 0 {
        assert(events.take(0) =~= Seq::<Event>::empty());
    } else {
        lemma_has_its_scratch_dir_run(start, project, git_only_packages, manifest, plan, events, i - 1);
        lemma_after_take(start, project, git_only_packages, manifest, plan, events, i - 1);
        let before = latest_after(start, project, git_only_packages, manifest, plan, events.take(i - 1));
        lemma_has_its_scratch_dir_step(before, project, git_only_packages, manifest, plan, events[i - 1]);
    }
}

/// Over a whole resolution, whatever events come in: every download and
/// every worktree is placed in one and the same scratch directory. When the
/// driver is asked to download or to work on a worktree, the collection has
/// a scratch directory, and it is the one that any earlier download or
/// worktree was placed in.
pub proof fn lemma_run_works_in_one_scratch_dir<F: Fn(&str, &str) -> String>(
    start: ResolutionView,
    project: &F,
    git_only_packages: Seq<Package>,
    manifest: bool,
    plan: Seq<DownloadGroup>,
    events: Seq<Event>,
    i: int,
    j: int,
)
    requires
        has_its_scratch_dir(start),
        0 <= i <= j < events.len(),
        works_in_scratch_dir(latest_asked(start, project, git_only_packages, manifest, plan, events, i)),
        works_in_scratch_dir(latest_asked(start, project, git_only_packages, manifest, plan, events, j)),
    ensures
        ({
            let at_i = latest_after(start, project, git_only_packages, manifest, plan, events.take(i + 1));
            let at_j = latest_after(start, project, git_only_packages, manifest, plan, events.take(j + 1));
            &&& at_i.scratch is Some
            &&& at_j.scratch == at_i.scratch
        }),
{
    lemma_has_its_scratch_dir_run(start, project, git_only_packages, manifest, plan, events, i);
    lemma_after_take(start, project, git_only_packages, manifest, plan, events, i);
    let before = latest_after(start, project, git_only_packages, manifest, plan, events.take(i));
    lemma_has_its_scratch_dir_step(before, project, git_only_packages, manifest, plan, events[i]);
    lemma_run_has_one_scratch_dir(start, project, git_only_packages, manifest, plan, events, i + 1, j + 1);
}

/// A resolution that has not begun downloads nothing and works on no
/// worktree yet.
pub proof fn lemma_fresh_resolution_has_its_scratch_dir()
    ensures
        has_its_scratch_dir(fresh_resolution()),
{
}

} // verus!
