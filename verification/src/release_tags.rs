//! Which git tags mark a release of a package: those that the project's tag
//! template renders from the package's name and the version text in the tag.
use vstd::prelude::*;
use crate::version_text::{
    extract_version,
    first_version,
    is_first_version,
    lemma_first_version_exists,
    lemma_first_version_is,
    version_at,
};

verus! {

/// The template accepts every package name and version text.
pub open spec fn template_is_total<F: Fn(&str, &str) -> String>(project: &F) -> bool {
    forall|package: &str, version: &str| call_requires(*project, (package, version))
}

/// The template renders one tag for one package name and version text.
pub open spec fn template_is_deterministic<F: Fn(&str, &str) -> String>(project: &F) -> bool {
    forall|package: &str, version: &str, tag: String, same_package: &str, same_version: &str, other: String|
        #![trigger call_ensures(*project, (package, version), tag), call_ensures(*project, (same_package, same_version), other)]
        package@ == same_package@ && version@ == same_version@ && call_ensures(
            *project,
            (package, version),
            tag,
        ) && call_ensures(*project, (same_package, same_version), other) ==> tag@ == other@
}

/// The template renders `tag` from `package` and `version`.
pub open spec fn renders<F: Fn(&str, &str) -> String>(
    project: &F,
    package: Seq<char>,
    version: Seq<char>,
    tag: Seq<char>,
) -> bool {
    exists|p: &str, v: &str, r: String|
        p@ == package && v@ == version && r@ == tag && #[trigger] call_ensures(*project, (p, v), r)
}

/// `tag` is a release tag of `package`: it holds version text, and the
/// template renders exactly `tag` from `package` and the first such text.
pub open spec fn is_release_tag<F: Fn(&str, &str) -> String>(
    project: &F,
    package: Seq<char>,
    tag: Seq<char>,
) -> bool {
    match first_version(tag) {
        Some(version) => renders(project, package, version, tag),
        None => false,
    }
}

/// The release tags of `package` among `tags`, in the order of `tags`.
pub open spec fn release_tags<F: Fn(&str, &str) -> String>(
    project: &F,
    package: Seq<char>,
    tags: Seq<Seq<char>>,
) -> Seq<Seq<char>> {
    tags.filter(|tag: Seq<char>| is_release_tag(project, package, tag))
}

/// Decides whether `tag` is a release tag of `package`.
pub fn is_release_tag_of<F: Fn(&str, &str) -> String>(tag: &String, package: &str, project: &F) -> (yes:
    bool)
    requires
        template_is_total(project),
        template_is_deterministic(project),
    ensures
        yes == is_release_tag(project, package@, tag@),
{
    match extract_version(tag.as_str()) {
        None => false,
        Some(version) => {
            let rendered = project(package, version.as_str());
            rendered == *tag
        },
    }
}

/// Filters the release tags of `package` out of all the `tags` of a
/// repository, keeping their order.
pub fn filter_release_tags<F: Fn(&str, &str) -> String>(
    tags: &Vec<String>,
    package: &str,
    project: &F,
) -> (kept: Vec<String>)
    requires
        template_is_total(project),
        template_is_deterministic(project),
    ensures
        kept.deep_view() == release_tags(project, package@, tags.deep_view()),
{
    let mut kept: Vec<String> = Vec::new();
    let ghost all = tags.deep_view();
    let ghost pred = |tag: Seq<char>| is_release_tag(project, package@, tag);
    let mut i: usize = 0;
    proof {
        reveal(Seq::filter);
    }
    while i < tags.len()
        invariant
            i <= tags.len(),
            all == tags.deep_view(),
            pred == (|tag: Seq<char>| is_release_tag(project, package@, tag)),
            template_is_total(project),
            template_is_deterministic(project),
            kept.deep_view() == all.take(i as int).filter(pred),
        decreases tags.len() - i,
    {
        let ghost before = kept.deep_view();
        proof {
            reveal(Seq::filter);
            assert(all.take(i + 1).drop_last() == all.take(i as int));
            assert(all.take(i + 1).last() == tags[i as int]@);
        }
        if is_release_tag_of(&tags[i], package, project) {
            kept.push(tags[i].clone());
            proof {
                assert(kept.deep_view() == before.push(tags[i as int]@));
            }
        }
        i += 1;
    }
    proof {
        assert(all.take(tags.len() as int) == all);
    }
    kept
}

/// `tags[i]` is the first release tag of `package` among `tags`.
pub open spec fn is_latest_release<F: Fn(&str, &str) -> String>(
    project: &F,
    package: Seq<char>,
    tags: Seq<String>,
    i: int,
) -> bool {
    &&& 0 <= i < tags.len()
    &&& is_release_tag(project, package, tags[i]@)
    &&& forall|j: int| 0 <= j < i ==> !is_release_tag(project, package, #[trigger] tags[j]@)
}

/// Where the first release tag of `package` stands among `tags`, if any of
/// them is one. Where `tags` come with the highest version first, it is the
/// tag of the latest release.
pub open spec fn latest_release<F: Fn(&str, &str) -> String>(
    project: &F,
    package: Seq<char>,
    tags: Seq<String>,
) -> Option<int> {
    if exists|i: int| is_latest_release(project, package, tags, i) {
        Some(choose|i: int| is_latest_release(project, package, tags, i))
    } else {
        None
    }
}

/// Finds the first release tag of `package` among `tags`: the tag of the
/// latest release, where `tags` come with the highest version first.
pub fn latest_release_tag<F: Fn(&str, &str) -> String>(
    tags: &Vec<String>,
    package: &str,
    project: &F,
) -> (latest: Option<usize>)
    requires
        template_is_total(project),
        template_is_deterministic(project),
    ensures
        match latest {
            Some(i) => latest_release(project, package@, tags@) == Some(i as int),
            None => latest_release(project, package@, tags@) is None,
        },
        latest matches Some(i) ==> is_latest_release(project, package@, tags@, i as int),
        latest is None ==> forall|j: int|
            0 <= j < tags.len() ==> !is_release_tag(project, package@, #[trigger] tags[j]@),
{
    let mut i: usize = 0;
    while i < tags.len()
        invariant
            i <= tags.len(),
            template_is_total(project),
            template_is_deterministic(project),
            forall|j: int| 0 <= j < i ==> !is_release_tag(project, package@, #[trigger] tags[j]@),
        decreases tags.len() - i,
    {
        if is_release_tag_of(&tags[i], package, project) {
            proof {
                assert(is_latest_release(project, package@, tags@, i as int));
                let other = choose|k: int| is_latest_release(project, package@, tags@, k);
                assert(other == i);
            }
            return Some(i);
        }
        i += 1;
    }
    None
}

/// A tag is a release tag of a package if and only if the template renders
/// exactly the tag from the package's name and the version text that a
/// search of the tag from the left finds. So a release tag always holds
/// version text that it is rendered from.
pub proof fn lemma_release_tag_is_rendered_from_its_version<F: Fn(&str, &str) -> String>(
    project: &F,
    package: Seq<char>,
    tag: Seq<char>,
)
    ensures
        is_release_tag(project, package, tag) <==> exists|start: int, end: int|
            is_first_version(tag, start, end) && #[trigger] renders(
                project,
                package,
                tag.subrange(start, end),
                tag,
            ),
        is_release_tag(project, package, tag) ==> exists|start: int, end: int|
            version_at(tag, start, end) && #[trigger] renders(project, package, tag.subrange(start, end), tag),
{
    if is_release_tag(project, package, tag) {
        lemma_first_version_exists(tag);
        let (start, end) = choose|start: int, end: int| is_first_version(tag, start, end);
        lemma_first_version_is(tag, start, end);
        assert(renders(project, package, tag.subrange(start, end), tag));
    }
    if exists|start: int, end: int|
        is_first_version(tag, start, end) && #[trigger] renders(project, package, tag.subrange(start, end), tag) {
        let (start, end) = choose|start: int, end: int|
            is_first_version(tag, start, end) && #[trigger] renders(
                project,
                package,
                tag.subrange(start, end),
                tag,
            );
        lemma_first_version_is(tag, start, end);
    }
}

/// The release tags of a package among `tags` are those of `tags` that are
/// release tags of the package, no more and no fewer.
pub proof fn lemma_release_tags_are_the_release_tags<F: Fn(&str, &str) -> String>(
    project: &F,
    package: Seq<char>,
    tags: Seq<Seq<char>>,
    tag: Seq<char>,
)
    ensures
        release_tags(project, package, tags).contains(tag) <==> tags.contains(tag) && is_release_tag(
            project,
            package,
            tag,
        ),
{
    let pred = |tag: Seq<char>| is_release_tag(project, package, tag);
    let kept = tags.filter(pred);
    if kept.contains(tag) {
        tags.lemma_filter_contains_rev(pred, tag);
        let i = choose|i: int| 0 <= i < kept.len() && kept[i] == tag;
        tags.lemma_filter_pred(pred, i);
    }
    if tags.contains(tag) && is_release_tag(project, package, tag) {
        let i = choose|i: int| 0 <= i < tags.len() && tags[i] == tag;
        tags.lemma_filter_contains(pred, i);
    }
}

/// What is kept of `s` starts with the first item of `s` that is kept.
proof fn lemma_filter_first<A>(s: Seq<A>, pred: spec_fn(A) -> bool, i: int)
    requires
        0 <= i < s.len(),
        pred(s[i]),
        forall|j: int| 0 <= j < i ==> !pred(s[j]),
    ensures
        s.filter(pred).len() > 0,
        s.filter(pred)[0] == s[i],
    decreases s.len(),
{
    reveal(Seq::filter);
    let rest = s.drop_last();
    if i == s.len() - 1 {
        lemma_filter_none(rest, pred);
    } else {
        lemma_filter_first(rest, pred, i);
    }
}

/// Nothing is kept of `s` where no item of `s` is to be kept.
proof fn lemma_filter_none<A>(s: Seq<A>, pred: spec_fn(A) -> bool)
    requires
        forall|j: int| 0 <= j < s.len() ==> !pred(s[j]),
    ensures
        s.filter(pred).len() == 0,
    decreases s.len(),
{
    reveal(Seq::filter);
    if s.len() > 0 {
        lemma_filter_none(s.drop_last(), pred);
    }
}

/// Where one of `tags` is a release tag, one of them is the first.
proof fn lemma_first_release<F: Fn(&str, &str) -> String>(
    project: &F,
    package: Seq<char>,
    tags: Seq<String>,
    i: int,
)
    requires
        0 <= i < tags.len(),
        is_release_tag(project, package, tags[i]@),
    ensures
        latest_release(project, package, tags) is Some,
    decreases i,
{
    if exists|j: int| 0 <= j < i && is_release_tag(project, package, #[trigger] tags[j]@) {
        let j = choose|j: int| 0 <= j < i && is_release_tag(project, package, #[trigger] tags[j]@);
        lemma_first_release(project, package, tags, j);
    } else {
        assert(is_latest_release(project, package, tags, i));
    }
}

/// The latest release tag of a package is the first of its release tags:
/// the first match wins. A package has no latest release tag only where
/// none of the tags is a release tag of it.
pub proof fn lemma_latest_release_heads_release_tags<F: Fn(&str, &str) -> String>(
    project: &F,
    package: Seq<char>,
    tags: Vec<String>,
)
    ensures
        match latest_release(project, package, tags@) {
            Some(i) => {
                &&& is_latest_release(project, package, tags@, i)
                &&& release_tags(project, package, tags.deep_view()).len() > 0
                &&& release_tags(project, package, tags.deep_view())[0] == tags[i]@
            },
            None => release_tags(project, package, tags.deep_view()).len() == 0,
        },
{
    let pred = |tag: Seq<char>| is_release_tag(project, package, tag);
    let texts = tags.deep_view();
    assert forall|j: int| 0 <= j < tags.len() implies #[trigger] texts[j] == tags[j]@ by {}
    match latest_release(project, package, tags@) {
        Some(i) => {
            assert(is_latest_release(project, package, tags@, i));
            assert(pred(texts[i]));
            assert forall|j: int| 0 <= j < i implies !pred(texts[j]) by {
                assert(texts[j] == tags[j]@);
            }
            lemma_filter_first(texts, pred, i);
        },
        None => {
            assert forall|j: int| 0 <= j < texts.len() implies !pred(texts[j]) by {
                assert(texts[j] == tags[j]@);
                if is_release_tag(project, package, tags[j]@) {
                    lemma_first_release(project, package, tags@, j);
                }
            }
            lemma_filter_none(texts, pred);
        },
    }
}

} // verus!
