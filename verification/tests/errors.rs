use published_packages::protocol::ResolveError;

fn text(s: &str) -> String {
    s.to_string()
}

#[test]
fn error_messages_name_what_failed() {
    assert_eq!(
        ResolveError::ScratchDir { cause: text("disk full") }.message(),
        "failed to get a temporary directory: disk full"
    );
    assert_eq!(
        ResolveError::Download { registry: Some(text("mine")), cause: text("timeout") }.message(),
        "failed to download packages from registry 'mine': timeout"
    );
    assert_eq!(
        ResolveError::Download { registry: None, cause: text("timeout") }.message(),
        "failed to download packages: timeout"
    );
    assert_eq!(
        ResolveError::RemoveVcsInfo { package: text("a"), cause: text("denied") }.message(),
        "failed to initialize repository package 'a': denied"
    );
    assert_eq!(
        ResolveError::RepositoryInit { package: text("a"), cause: text("no git") }.message(),
        "failed to initialize repository package 'a': no git"
    );
    assert_eq!(
        ResolveError::Manifest { tag: Some(text("v1.0.0")), cause: text("bad toml") }.message(),
        "failed to get root manifest metadata at tag 'v1.0.0': bad toml"
    );
    assert_eq!(
        ResolveError::Manifest { tag: None, cause: text("bad toml") }.message(),
        "failed to read the registry manifest: bad toml"
    );
    assert_eq!(
        ResolveError::Worktree { tag: text("v1.0.0"), cause: text("exists") }.message(),
        "failed to create git worktree at tag 'v1.0.0': exists"
    );
    assert_eq!(
        ResolveError::PackageNotFound { package: text("a"), tag: text("v1.0.0") }.message(),
        "could not retrieve package 'a' in manifest at tag 'v1.0.0'"
    );
    assert_eq!(ResolveError::UnexpectedEvent.message(), "the event does not answer the action asked for");
}
