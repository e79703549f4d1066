use kiss_docker::image::{find_by_tag, list_images_args, pull_args};
use kiss_docker::models::ImageSummary;
use kiss_docker::records::collect_records;

fn strs(v: &[&str]) -> Vec<String> {
    v.iter().map(|s| s.to_string()).collect()
}

fn image(id: &str, repository: &str, tag: &str, digest: &str) -> ImageSummary {
    ImageSummary {
        id: id.to_string(),
        tag: tag.to_string(),
        repository: repository.to_string(),
        digest: digest.to_string(),
    }
}

fn known_images() -> Vec<ImageSummary> {
    vec![
        image("1", "nginx", "latest", "sha256:aaaa"),
        image("2", "library/alpine", "3.18", "sha256:bbbb"),
        image("3", "alpine", "latest", "sha256:cccc"),
        image("4", "my/alpine-tools", "latest", "sha256:dddd"),
        image("5", "", "", ""),
    ]
}

#[test]
fn image_test_list_images() {
    assert_eq!(list_images_args(), strs(&["images", "--digests", "--format", "{{json .}}"]));
    let images = collect_records(known_images().into_iter().map(Ok).collect()).unwrap();
    assert_eq!(images, known_images());
}

#[test]
fn pull_alpine() {
    assert_eq!(pull_args("alpine", Some("latest")), strs(&["pull", "alpine:latest"]));
    assert_eq!(pull_args("alpine", None), strs(&["pull", "alpine:latest"]));
    assert_eq!(pull_args("alpine", Some("3.18")), strs(&["pull", "alpine:3.18"]));
}

#[test]
fn test_find_alpine() {
    let r = find_by_tag(known_images(), "alpine", "latest");
    assert!(r.is_some());
}

#[test]
fn test_find_nonexistant() {
    let r = find_by_tag(known_images(), "non-existant", "local");
    assert!(r.is_none());
}

#[test]
fn test_digest() {
    let r = find_by_tag(known_images(), "alpine", "latest");
    assert!(r.is_some());
    assert!(r.unwrap().digest.starts_with("sha256:"));
}

#[test]
fn find_returns_the_first_match() {
    let r = find_by_tag(known_images(), "alpine", "latest").unwrap();
    assert_eq!(r, image("3", "alpine", "latest", "sha256:cccc"));
    let r = find_by_tag(known_images(), "tools", "latest").unwrap();
    assert_eq!(r.id, "4");
}

#[test]
fn find_needs_both_predicates() {
    assert!(find_by_tag(known_images(), "nginx", "3.18").is_none());
    assert_eq!(find_by_tag(known_images(), "alpine", "3.18").unwrap().id, "2");
}

#[test]
fn find_in_empty_list() {
    assert!(find_by_tag(Vec::new(), "alpine", "latest").is_none());
}

#[test]
fn find_untagged_with_empty_component() {
    assert_eq!(find_by_tag(known_images(), "", "").unwrap().id, "5");
}
