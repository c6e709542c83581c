use published_packages::latest::{Phase, Resolution};
use published_packages::protocol::{Action, Event, ResolveError};
use published_packages::{get_latest_packages, Package, PublishedPackage};

fn member(name: &str, publish: Option<&[&str]>) -> Package {
    Package {
        name: name.to_string(),
        version: "0.9.0".to_string(),
        manifest_path: format!("/work/{name}/Cargo.toml"),
        publish: publish.map(|list| list.iter().map(|r| r.to_string()).collect()),
    }
}

fn released(name: &str, version: &str) -> Package {
    Package {
        name: name.to_string(),
        version: version.to_string(),
        manifest_path: format!("/scratch/{name}/Cargo.toml"),
        publish: None,
    }
}

fn scratch_made() -> Event {
    let dir = tempfile::tempdir().unwrap();
    let path = dir.path().to_str().unwrap().to_string();
    Event::ScratchDir(Ok((dir, path)))
}

fn tag_of(name: &str, version: &str) -> String {
    format!("{name}-v{version}")
}

fn drive(
    resolution: &mut Resolution,
    registry_packages: &Vec<Package>,
    git_only_packages: &Vec<Package>,
    manifest: Option<&str>,
    events: Vec<Event>,
) -> Vec<Action> {
    events
        .into_iter()
        .map(|event| {
            get_latest_packages(resolution, &tag_of, registry_packages, git_only_packages, manifest, None, event)
        })
        .collect()
}

#[test]
fn registry_packages_come_first_then_the_tagged_ones() {
    let mut resolution = Resolution::new();
    let registry_packages = vec![member("a", None)];
    let git_only_packages = vec![member("b", Some(&[]))];
    let actions = drive(
        &mut resolution,
        &registry_packages,
        &git_only_packages,
        None,
        vec![
            Event::Start,
            scratch_made(),
            Event::Packages(Ok(vec![released("a", "0.8.0")])),
            Event::Exists(true),
            Event::Commit(Some("abc123".to_string())),
            Event::Done(Ok(())),
            Event::Exists(true),
            Event::Tags(vec!["b-v0.7.0".to_string(), "b-v0.6.0".to_string()]),
            Event::Done(Ok(())),
            Event::Packages(Ok(vec![released("b", "0.7.0")])),
            Event::Commit(Some("def456".to_string())),
        ],
    );
    assert_eq!(
        actions,
        vec![
            Action::CreateScratchDir,
            Action::Download { group: 0 },
            Action::ProbeVcsInfo,
            Action::ReadVcsInfo,
            Action::RemoveVcsInfo,
            Action::ProbeGitDir,
            Action::ListTags,
            Action::AddWorktree { package: 0, tag: 0 },
            Action::ReadManifest { package: 0, tag: 0 },
            Action::ResolveTagCommit { tag: 0 },
            Action::Finished,
        ]
    );
    assert_eq!(resolution.phase, Phase::Finished);
    let scratch = resolution.collection.temp_dir().unwrap().path().to_path_buf();
    assert!(scratch.is_dir());
    let collection = resolution.finish().unwrap();
    assert_eq!(
        collection.get_published_package("a"),
        Some(&PublishedPackage { package: released("a", "0.8.0"), sha1: Some("abc123".to_string()) })
    );
    assert_eq!(
        collection.get_published_package("b"),
        Some(&PublishedPackage { package: released("b", "0.7.0"), sha1: Some("def456".to_string()) })
    );
    assert_eq!(collection.get_package("c"), None);
    assert!(scratch.is_dir());
    drop(collection);
    assert!(!scratch.exists());
}

#[test]
fn scratch_directory_is_asked_for_at_most_once() {
    let mut resolution = Resolution::new();
    let registry_packages = vec![member("a", None)];
    let git_only_packages = vec![member("b", Some(&[])), member("c", Some(&[]))];
    let actions = drive(
        &mut resolution,
        &registry_packages,
        &git_only_packages,
        None,
        vec![
            Event::Start,
            scratch_made(),
            Event::Packages(Ok(vec![])),
            Event::Tags(vec!["c-v1.0.0".to_string(), "b-v1.0.0".to_string()]),
            Event::Done(Ok(())),
            Event::Packages(Ok(vec![released("b", "1.0.0")])),
            Event::Commit(None),
            Event::Done(Ok(())),
            Event::Packages(Ok(vec![released("c", "1.0.0")])),
            Event::Commit(None),
        ],
    );
    assert_eq!(actions.iter().filter(|action| **action == Action::CreateScratchDir).count(), 1);
    assert_eq!(actions.last(), Some(&Action::Finished));
    assert!(resolution.collection.temp_dir().is_some());
}

#[test]
fn with_a_registry_manifest_only_tags_need_the_scratch_directory() {
    let mut resolution = Resolution::new();
    let registry_packages = vec![member("a", None)];
    let git_only_packages = vec![member("b", Some(&[]))];
    let actions = drive(
        &mut resolution,
        &registry_packages,
        &git_only_packages,
        Some("/registry/Cargo.toml"),
        vec![
            Event::Start,
            Event::Packages(Ok(vec![released("a", "0.8.0")])),
            Event::Tags(vec!["b-v0.7.0".to_string()]),
            scratch_made(),
        ],
    );
    assert_eq!(
        actions,
        vec![
            Action::ReadRegistryManifest,
            Action::ListTags,
            Action::CreateScratchDir,
            Action::AddWorktree { package: 0, tag: 0 },
        ]
    );
    assert_eq!(resolution.phase, Phase::Tags);
    assert_eq!(
        resolution.collection.get_published_package("a"),
        Some(&PublishedPackage { package: released("a", "0.8.0"), sha1: None })
    );
    assert!(resolution.finish().is_none());
}

#[test]
fn resolution_without_packages_lists_the_tags_and_finishes() {
    let mut resolution = Resolution::new();
    let actions = drive(
        &mut resolution,
        &vec![],
        &vec![],
        None,
        vec![Event::Start, scratch_made(), Event::Tags(vec![])],
    );
    assert_eq!(actions, vec![Action::CreateScratchDir, Action::ListTags, Action::Finished]);
    assert!(resolution.finish().is_some());
}

#[test]
fn failure_in_the_registry_part_ends_resolution() {
    let mut resolution = Resolution::new();
    let registry_packages = vec![member("a", Some(&["mine"]))];
    let actions = drive(
        &mut resolution,
        &registry_packages,
        &vec![member("b", Some(&[]))],
        None,
        vec![
            Event::Start,
            scratch_made(),
            Event::Packages(Err("unreachable".to_string())),
            Event::Tags(vec![]),
        ],
    );
    assert_eq!(
        actions[2],
        Action::Failed(ResolveError::Download { registry: Some("mine".to_string()), cause: "unreachable".to_string() })
    );
    assert_eq!(actions[3], Action::Failed(ResolveError::UnexpectedEvent));
    assert_eq!(resolution.phase, Phase::Failed);
    assert!(resolution.finish().is_none());
}

#[test]
fn failure_in_the_tag_part_ends_resolution() {
    let mut resolution = Resolution::new();
    let actions = drive(
        &mut resolution,
        &vec![],
        &vec![member("b", Some(&[]))],
        None,
        vec![
            Event::Start,
            scratch_made(),
            Event::Tags(vec!["b-v1.0.0".to_string()]),
            Event::Done(Ok(())),
            Event::Packages(Ok(vec![released("a", "1.0.0")])),
        ],
    );
    assert_eq!(
        actions[4],
        Action::Failed(ResolveError::PackageNotFound { package: "b".to_string(), tag: "b-v1.0.0".to_string() })
    );
    assert_eq!(resolution.phase, Phase::Failed);
}

#[test]
fn finished_resolution_takes_no_more_events_and_stays_finished() {
    let mut resolution = Resolution::new();
    let actions = drive(
        &mut resolution,
        &vec![],
        &vec![],
        Some("/registry/Cargo.toml"),
        vec![Event::Start, Event::Packages(Ok(vec![released("a", "1.0.0")])), Event::Tags(vec![]), Event::Start],
    );
    assert_eq!(
        actions,
        vec![
            Action::ReadRegistryManifest,
            Action::ListTags,
            Action::Finished,
            Action::Failed(ResolveError::UnexpectedEvent)
        ]
    );
    assert_eq!(resolution.phase, Phase::Finished);
    assert!(resolution.finish().unwrap().get_package("a").is_some());
}
