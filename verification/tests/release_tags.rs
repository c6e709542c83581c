use published_packages::release_tags::{filter_release_tags, is_release_tag_of, latest_release_tag};
use published_packages::version_text::{extract_version, find_version, to_chars};

fn strings(items: &[&str]) -> Vec<String> {
    items.iter().map(|s| s.to_string()).collect()
}

fn name_and_version(name: &str, version: &str) -> String {
    format!("{name}-v{version}")
}

fn version_only(_name: &str, version: &str) -> String {
    format!("v{version}")
}

#[test]
fn only_the_tag_of_the_package_matches() {
    let tags = strings(&["v1.2.0", "v1.1.0", "app-v2.0.0"]);
    let kept = filter_release_tags(&tags, "app", &name_and_version);
    assert_eq!(kept, strings(&["app-v2.0.0"]));
}

#[test]
fn matching_tags_keep_their_order() {
    let tags = strings(&["v2.0.0", "other", "v1.0.0", "lib-v3.0.0", "v0.1.0"]);
    let kept = filter_release_tags(&tags, "lib", &version_only);
    assert_eq!(kept, strings(&["v2.0.0", "v1.0.0", "v0.1.0"]));
}

#[test]
fn first_match_is_the_latest_release() {
    let tags = strings(&["v2.0.0", "v1.0.0"]);
    assert_eq!(latest_release_tag(&tags, "lib", &version_only), Some(0));
}

#[test]
fn no_match_gives_no_latest_release() {
    let tags = strings(&["v2.0.0", "v1.0.0"]);
    assert_eq!(latest_release_tag(&tags, "app", &name_and_version), None);
    assert!(filter_release_tags(&tags, "app", &name_and_version).is_empty());
}

#[test]
fn tag_must_equal_the_rendered_tag_not_contain_it() {
    assert!(!is_release_tag_of(&"release-app-v2.0.0".to_string(), "app", &name_and_version));
    assert!(!is_release_tag_of(&"app-v2.0.0-rc1".to_string(), "app", &name_and_version));
    assert!(is_release_tag_of(&"app-v2.0.0".to_string(), "app", &name_and_version));
}

#[test]
fn tag_without_version_text_is_dropped() {
    assert!(!is_release_tag_of(&"app-v2.0".to_string(), "app", &name_and_version));
    assert!(!is_release_tag_of(&"".to_string(), "app", &name_and_version));
}

#[test]
fn version_text_is_found_from_the_left() {
    assert_eq!(extract_version("v1.2.3"), Some("1.2.3".to_string()));
    assert_eq!(extract_version("1.2.3-4.5.6"), Some("1.2.3".to_string()));
    assert_eq!(extract_version("app-v10.20.30-rc1"), Some("10.20.30".to_string()));
    assert_eq!(extract_version("1.2.3.4"), Some("1.2.3".to_string()));
    assert_eq!(extract_version("1.2.x3.4.5"), Some("3.4.5".to_string()));
    assert_eq!(extract_version("1..2.3.4"), Some("2.3.4".to_string()));
    assert_eq!(extract_version("é1.2.3"), Some("1.2.3".to_string()));
}

#[test]
fn text_without_three_runs_has_no_version() {
    assert_eq!(extract_version(""), None);
    assert_eq!(extract_version("v1.2"), None);
    assert_eq!(extract_version("1.2."), None);
    assert_eq!(extract_version(".1.2"), None);
    assert_eq!(extract_version("a.b.c"), None);
    assert_eq!(extract_version("1,2,3"), None);
    assert_eq!(extract_version("١.٢.٣"), None);
}

#[test]
fn positions_count_characters() {
    assert_eq!(find_version(&to_chars("é1.2.3z")), Some((1, 6)));
    assert_eq!(find_version(&to_chars("12.34.56")), Some((0, 8)));
    assert_eq!(find_version(&to_chars("no version")), None);
}

#[test]
fn search_agrees_with_the_pattern() {
    let pattern = regex::Regex::new(r"((?-u:\d)+\.(?-u:\d)+\.(?-u:\d)+)").unwrap();
    let pieces = ["1", "22", ".", "..", "v", "-", "é", "٣", "0", " ", "3.", ".4"];
    let mut texts: Vec<String> = vec![String::new()];
    for _ in 0..3 {
        let mut longer = Vec::new();
        for text in &texts {
            for piece in pieces {
                longer.push(format!("{text}{piece}"));
            }
        }
        texts.extend(longer);
    }
    for a in ["1.2.3", "10.0.1"] {
        for text in texts.clone() {
            texts.push(format!("{text}{a}"));
            texts.push(format!("{a}{text}"));
        }
    }
    for text in &texts {
        let expected = pattern.find(text).map(|m| m.as_str().to_string());
        assert_eq!(extract_version(text), expected, "in {text:?}");
    }
}
