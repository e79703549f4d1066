use vstd::prelude::*;

verus! {

/// One image that the runtime holds, as its image listing describes it.
#[derive(Debug, Clone, PartialEq, Eq)]
pub struct ImageSummary {
    /// The content-addressable id of the image.
    pub id: String,
    /// The tag, empty for an untagged image.
    pub tag: String,
    /// The repository, empty when the listing gives none.
    pub repository: String,
    /// The digest of the image manifest, empty when the listing gives none.
    pub digest: String,
}

/// One container, as the container listing describes it.
#[derive(Debug, Clone, PartialEq, Eq)]
pub struct RunningContainer {
    /// The container id.
    pub id: String,
    /// The image reference it was started from.
    pub image: String,
    /// Its display name or names.
    pub names: String,
    /// Its lifecycle state.
    pub state: String,
}

/// One network, as the network listing describes it.
#[derive(Debug, Clone, PartialEq, Eq)]
pub struct NetworkSummary {
    pub id: String,
    pub name: String,
    pub driver: String,
}

} // verus!
