use published_packages::git_tags::{find_package, TagResolution, TagStep};
use published_packages::package::{Package, PublishedPackage};
use published_packages::protocol::{Action, Event, ResolveError};
use published_packages::PackagesCollection;

fn git_only(name: &str) -> Package {
    Package {
        name: name.to_string(),
        version: "0.3.0".to_string(),
        manifest_path: format!("/work/{name}/Cargo.toml"),
        publish: Some(vec![]),
    }
}

fn at_tag(name: &str, version: &str) -> Package {
    Package {
        name: name.to_string(),
        version: version.to_string(),
        manifest_path: format!("/scratch/{name}/{name}/Cargo.toml"),
        publish: Some(vec![]),
    }
}

fn made_scratch() -> Event {
    let dir = tempfile::tempdir().unwrap();
    let path = dir.path().to_str().unwrap().to_string();
    Event::ScratchDir(Ok((dir, path)))
}

fn with_scratch() -> PackagesCollection {
    let mut collection = PackagesCollection::new();
    let dir = tempfile::tempdir().unwrap();
    let path = dir.path().to_str().unwrap().to_string();
    collection.set_temp_dir(dir, path);
    collection
}

fn tags(items: &[&str]) -> Event {
    Event::Tags(items.iter().map(|t| t.to_string()).collect())
}

fn template(name: &str, version: &str) -> String {
    format!("{name}-v{version}")
}

fn plain_template(_name: &str, version: &str) -> String {
    format!("v{version}")
}

fn run_tags(
    collection: &mut PackagesCollection,
    resolution: &mut TagResolution,
    packages: &Vec<Package>,
    events: Vec<Event>,
) -> Vec<Action> {
    events
        .into_iter()
        .map(|event| collection.get_latest_tagged_packages(resolution, &template, packages, event))
        .collect()
}

#[test]
fn first_matching_tag_is_the_one_that_is_resolved() {
    let mut collection = PackagesCollection::new();
    let mut resolution = TagResolution::new();
    let packages = vec![git_only("lib")];
    let events = vec![
        Event::Start,
        tags(&["v2.0.0", "v1.0.0"]),
        made_scratch(),
        Event::Done(Ok(())),
        Event::Packages(Ok(vec![at_tag("lib", "2.0.0")])),
        Event::Commit(Some("c2".to_string())),
    ];
    let actions: Vec<Action> = events
        .into_iter()
        .map(|event| collection.get_latest_tagged_packages(&mut resolution, &plain_template, &packages, event))
        .collect();
    assert_eq!(
        actions,
        vec![
            Action::ListTags,
            Action::CreateScratchDir,
            Action::AddWorktree { package: 0, tag: 0 },
            Action::ReadManifest { package: 0, tag: 0 },
            Action::ResolveTagCommit { tag: 0 },
            Action::Finished,
        ]
    );
    assert_eq!(resolution.tags[0], "v2.0.0");
    assert_eq!(
        collection.get_published_package("lib"),
        Some(&PublishedPackage { package: at_tag("lib", "2.0.0"), sha1: Some("c2".to_string()) })
    );
}

#[test]
fn package_without_matching_tag_is_passed_over() {
    let mut collection = PackagesCollection::new();
    let mut resolution = TagResolution::new();
    let packages = vec![git_only("never"), git_only("app"), git_only("later")];
    let actions = run_tags(
        &mut collection,
        &mut resolution,
        &packages,
        vec![
            Event::Start,
            tags(&["v1.2.0", "v1.1.0", "app-v2.0.0"]),
            made_scratch(),
            Event::Done(Ok(())),
            Event::Packages(Ok(vec![at_tag("other", "1.0.0"), at_tag("app", "2.0.0")])),
            Event::Commit(Some("c2".to_string())),
        ],
    );
    assert_eq!(
        actions,
        vec![
            Action::ListTags,
            Action::CreateScratchDir,
            Action::AddWorktree { package: 1, tag: 2 },
            Action::ReadManifest { package: 1, tag: 2 },
            Action::ResolveTagCommit { tag: 2 },
            Action::Finished,
        ]
    );
    assert_eq!(resolution.step, TagStep::Finished);
    assert_eq!(collection.get_package("never"), None);
    assert_eq!(collection.get_package("later"), None);
    assert_eq!(collection.get_package("other"), None);
    assert_eq!(
        collection.get_published_package("app"),
        Some(&PublishedPackage { package: at_tag("app", "2.0.0"), sha1: Some("c2".to_string()) })
    );
}

#[test]
fn without_any_matching_tag_nothing_is_asked_for_but_the_tags() {
    let mut collection = PackagesCollection::new();
    let mut resolution = TagResolution::new();
    let packages = vec![git_only("a"), git_only("b")];
    let actions = run_tags(&mut collection, &mut resolution, &packages, vec![Event::Start, tags(&["v1.0.0", "x"])]);
    assert_eq!(actions, vec![Action::ListTags, Action::Finished]);
    assert!(collection.temp_dir().is_none());
    assert_eq!(collection.get_package("a"), None);
}

#[test]
fn tags_are_listed_even_without_packages() {
    let mut collection = PackagesCollection::new();
    let mut resolution = TagResolution::new();
    let actions = run_tags(&mut collection, &mut resolution, &vec![], vec![Event::Start, tags(&["a-v1.0.0"])]);
    assert_eq!(actions, vec![Action::ListTags, Action::Finished]);
}

#[test]
fn several_packages_share_one_scratch_directory() {
    let mut collection = PackagesCollection::new();
    let mut resolution = TagResolution::new();
    let packages = vec![git_only("a"), git_only("b")];
    let actions = run_tags(
        &mut collection,
        &mut resolution,
        &packages,
        vec![
            Event::Start,
            tags(&["b-v3.0.0", "a-v2.0.0", "a-v1.0.0", "b-v0.1.0"]),
            made_scratch(),
            Event::Done(Ok(())),
            Event::Packages(Ok(vec![at_tag("a", "2.0.0"), at_tag("b", "2.5.0")])),
            Event::Commit(Some("ca".to_string())),
            Event::Done(Ok(())),
            Event::Packages(Ok(vec![at_tag("a", "2.1.0"), at_tag("b", "3.0.0")])),
            Event::Commit(None),
        ],
    );
    assert_eq!(
        actions,
        vec![
            Action::ListTags,
            Action::CreateScratchDir,
            Action::AddWorktree { package: 0, tag: 1 },
            Action::ReadManifest { package: 0, tag: 1 },
            Action::ResolveTagCommit { tag: 1 },
            Action::AddWorktree { package: 1, tag: 0 },
            Action::ReadManifest { package: 1, tag: 0 },
            Action::ResolveTagCommit { tag: 0 },
            Action::Finished,
        ]
    );
    assert!(collection.temp_dir().is_some());
    assert_eq!(
        collection.get_published_package("a"),
        Some(&PublishedPackage { package: at_tag("a", "2.0.0"), sha1: Some("ca".to_string()) })
    );
    assert_eq!(collection.get_published_package("b"), Some(&PublishedPackage { package: at_tag("b", "3.0.0"), sha1: None }));
}

#[test]
fn failed_worktree_names_its_tag() {
    let mut collection = with_scratch();
    let mut resolution = TagResolution::new();
    let packages = vec![git_only("a")];
    let actions = run_tags(
        &mut collection,
        &mut resolution,
        &packages,
        vec![Event::Start, tags(&["a-v1.0.0"]), Event::Done(Err("already exists".to_string()))],
    );
    assert_eq!(actions[1], Action::AddWorktree { package: 0, tag: 0 });
    assert_eq!(
        actions[2],
        Action::Failed(ResolveError::Worktree { tag: "a-v1.0.0".to_string(), cause: "already exists".to_string() })
    );
    assert_eq!(resolution.step, TagStep::Failed);
}

#[test]
fn unreadable_manifest_names_its_tag() {
    let mut collection = with_scratch();
    let mut resolution = TagResolution::new();
    let packages = vec![git_only("a")];
    let actions = run_tags(
        &mut collection,
        &mut resolution,
        &packages,
        vec![Event::Start, tags(&["a-v1.0.0"]), Event::Done(Ok(())), Event::Packages(Err("bad toml".to_string()))],
    );
    assert_eq!(
        actions[3],
        Action::Failed(ResolveError::Manifest { tag: Some("a-v1.0.0".to_string()), cause: "bad toml".to_string() })
    );
}

#[test]
fn manifest_without_the_package_names_package_and_tag() {
    let mut collection = with_scratch();
    let mut resolution = TagResolution::new();
    let packages = vec![git_only("a")];
    let actions = run_tags(
        &mut collection,
        &mut resolution,
        &packages,
        vec![
            Event::Start,
            tags(&["a-v1.0.0"]),
            Event::Done(Ok(())),
            Event::Packages(Ok(vec![at_tag("b", "1.0.0"), at_tag("aa", "1.0.0")])),
        ],
    );
    assert_eq!(
        actions[3],
        Action::Failed(ResolveError::PackageNotFound { package: "a".to_string(), tag: "a-v1.0.0".to_string() })
    );
    assert_eq!(resolution.step, TagStep::Failed);
    assert_eq!(collection.get_package("a"), None);
}

#[test]
fn failure_keeps_the_packages_resolved_before_it() {
    let mut collection = PackagesCollection::new();
    let mut resolution = TagResolution::new();
    let packages = vec![git_only("a"), git_only("b")];
    let actions = run_tags(
        &mut collection,
        &mut resolution,
        &packages,
        vec![
            Event::Start,
            tags(&["a-v1.0.0", "b-v1.0.0"]),
            made_scratch(),
            Event::Done(Ok(())),
            Event::Packages(Ok(vec![at_tag("a", "1.0.0")])),
            Event::Commit(Some("ca".to_string())),
            Event::Done(Err("no space".to_string())),
        ],
    );
    assert_eq!(
        actions[6],
        Action::Failed(ResolveError::Worktree { tag: "b-v1.0.0".to_string(), cause: "no space".to_string() })
    );
    assert!(collection.get_package("a").is_some());
}

#[test]
fn scratch_directory_failure_ends_tag_resolution() {
    let mut collection = PackagesCollection::new();
    let mut resolution = TagResolution::new();
    let packages = vec![git_only("a")];
    let actions = run_tags(
        &mut collection,
        &mut resolution,
        &packages,
        vec![Event::Start, tags(&["a-v1.0.0"]), Event::ScratchDir(Err("disk full".to_string()))],
    );
    assert_eq!(actions[2], Action::Failed(ResolveError::ScratchDir { cause: "disk full".to_string() }));
}

#[test]
fn event_that_answers_nothing_fails_tag_resolution() {
    let mut collection = PackagesCollection::new();
    let mut resolution = TagResolution::new();
    let packages = vec![git_only("a")];
    let actions = run_tags(&mut collection, &mut resolution, &packages, vec![Event::Start, Event::Start]);
    assert_eq!(actions[1], Action::Failed(ResolveError::UnexpectedEvent));
    let mut resolution = TagResolution::new();
    resolution.step = TagStep::ReadingManifest;
    resolution.package = 7;
    let actions = run_tags(&mut collection, &mut resolution, &packages, vec![Event::Packages(Ok(vec![]))]);
    assert_eq!(actions, vec![Action::Failed(ResolveError::UnexpectedEvent)]);
}

#[test]
fn first_package_of_a_name_is_found() {
    let listed = vec![at_tag("a", "1.0.0"), at_tag("b", "1.0.0"), at_tag("b", "2.0.0")];
    assert_eq!(find_package(&listed, &"b".to_string()), Some(1));
    assert_eq!(find_package(&listed, &"a".to_string()), Some(0));
    assert_eq!(find_package(&listed, &"c".to_string()), None);
    assert_eq!(find_package(&vec![], &"a".to_string()), None);
}

#[test]
fn worktree_stands_under_the_scratch_directory_in_the_directory_of_the_package() {
    let mut collection = PackagesCollection::new();
    let mut resolution = TagResolution::new();
    let packages = vec![git_only("never"), git_only("app")];
    assert!(collection.worktree(&resolution, &packages).is_none());
    run_tags(&mut collection, &mut resolution, &packages, vec![Event::Start, tags(&["v1.2.0", "app-v2.0.0"])]);
    assert_eq!(resolution.step, TagStep::CreatingScratchDir);
    assert!(collection.worktree(&resolution, &packages).is_none());
    let actions = run_tags(&mut collection, &mut resolution, &packages, vec![made_scratch()]);
    assert_eq!(actions, vec![Action::AddWorktree { package: 1, tag: 1 }]);
    let scratch = collection.temp_dir_path().unwrap().clone();
    for event in [Event::Done(Ok(())), Event::Packages(Ok(vec![at_tag("app", "2.0.0")]))] {
        let worktree = collection.worktree(&resolution, &packages).unwrap();
        assert_eq!(worktree.scratch_dir, &scratch);
        assert_eq!(worktree.directory, "app");
        assert_eq!(worktree.tag, "app-v2.0.0");
        run_tags(&mut collection, &mut resolution, &packages, vec![event]);
    }
    assert_eq!(resolution.step, TagStep::ResolvingCommit);
    assert_eq!(collection.worktree(&resolution, &packages).unwrap().tag, "app-v2.0.0");
    run_tags(&mut collection, &mut resolution, &packages, vec![Event::Commit(None)]);
    assert_eq!(resolution.step, TagStep::Finished);
    assert!(collection.worktree(&resolution, &packages).is_none());
}
