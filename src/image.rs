use crate::args::{str_views, strings};
use crate::models::ImageSummary;
use crate::text::{concat_str, contains, occurs_in, same_text, views};
use vstd::prelude::*;

verus! {

/// The image has the tag `tag` and a repository that contains `component`.
pub open spec fn image_matches(image: ImageSummary, component: Seq<char>, tag: Seq<char>) -> bool {
    image.tag@ == tag && occurs_in(component, image.repository@)
}

/// `i` is the first position of `images` that matches.
pub open spec fn first_match(
    images: Seq<ImageSummary>,
    component: Seq<char>,
    tag: Seq<char>,
    i: int,
) -> bool {
    &&& 0 <= i < images.len()
    &&& image_matches(images[i], component, tag)
    &&& forall|j: int| 0 <= j < i ==> !image_matches(images[j], component, tag)
}

/// The arguments that list the images, digests included, one JSON object per line.
pub fn list_images_args() -> (r: Vec<String>)
    ensures
        views(r@) == seq!["images"@, "--digests"@, "--format"@, "{{json .}}"@],
{
    let r = strings(&["images", "--digests", "--format", "{{json .}}"]);
    assert(str_views(seq!["images", "--digests", "--format", "{{json .}}"]) =~= seq![
        "images"@,
        "--digests"@,
        "--format"@,
        "{{json .}}"@,
    ]);
    r
}

/// The first image whose tag is `tag` and whose repository contains `component`;
/// none when no image matches.
pub fn find_by_tag(images: Vec<ImageSummary>, component: &str, tag: &str) -> (r: Option<
    ImageSummary,
>)
    ensures
        match r {
            Some(image) => exists|i: int|
                first_match(images@, component@, tag@, i) && image == images@[i],
            None => forall|i: int|
                0 <= i < images@.len() ==> !image_matches(images@[i], component@, tag@),
        },
{
    let ghost all = images@;
    for image in it: images.into_iter()
        invariant
            it.seq() == all,
            forall|j: int| 0 <= j < it.index() ==> !image_matches(all[j], component@, tag@),
    {
        assert(image == all[it.index() as int]);
        if same_text(image.tag.as_str(), tag) && contains(image.repository.as_str(), component) {
            assert(first_match(all, component@, tag@, it.index() as int));
            return Some(image);
        }
    }
    None
}

/// The image reference that `pull` fetches: `name:tag`, with `latest` for a missing tag.
pub open spec fn pull_ref(name: Seq<char>, tag: Option<Seq<char>>) -> Seq<char> {
    name + ":"@ + match tag {
        Some(t) => t,
        None => "latest"@,
    }
}

/// The arguments that pull the image `name` at `tag`, or at `latest` without one.
pub fn pull_args(name: &str, tag: Option<&str>) -> (r: Vec<String>)
    ensures
        views(r@) == seq!["pull"@, pull_ref(name@, crate::text::opt_view(tag))],
{
    let t = match tag {
        Some(t) => t,
        None => "latest",
    };
    let mut image = concat_str(name, ":");
    image.append(t);
    let image = image.as_str();
    let r = strings(&["pull", image]);
    assert(str_views(seq!["pull", image]) =~= seq![
        "pull"@,
        pull_ref(name@, crate::text::opt_view(tag)),
    ]);
    r
}

} // verus!
