//! The values exchanged with the user interface, and their mathematical views.
use vstd::prelude::*;

verus! {

/// A single inspiration result shown in the grid.
#[derive(Debug)]
pub struct InspoItem {
    /// Stable id inside its source (used together with `source` as a grid key).
    pub id: String,
    /// Source id, e.g. "pinterest".
    pub source: String,
    /// Human label for the source, e.g. "Pinterest".
    pub source_label: String,
    /// Short title / description (may be empty).
    pub title: String,
    /// Author / uploader name (may be empty).
    pub author: String,
    /// URL used to render the thumbnail in the grid.
    pub thumbnail: String,
    /// Best-quality URL used when the image is saved to disk.
    pub full: String,
    /// Web page for this item, opened in the system browser on click.
    pub link: String,
}

/// The view of an [`InspoItem`]: each field as a character sequence.
pub struct ItemView {
    pub id: Seq<char>,
    pub source: Seq<char>,
    pub source_label: Seq<char>,
    pub title: Seq<char>,
    pub author: Seq<char>,
    pub thumbnail: Seq<char>,
    pub full: Seq<char>,
    pub link: Seq<char>,
}

impl View for InspoItem {
    type V = ItemView;

    open spec fn view(&self) -> ItemView {
        ItemView {
            id: self.id@,
            source: self.source@,
            source_label: self.source_label@,
            title: self.title@,
            author: self.author@,
            thumbnail: self.thumbnail@,
            full: self.full@,
            link: self.link@,
        }
    }
}

impl DeepView for InspoItem {
    type V = ItemView;

    open spec fn deep_view(&self) -> ItemView {
        self@
    }
}

/// A request from the UI to download one image.
#[derive(Debug)]
pub struct DownloadReq {
    pub url: String,
    pub source: String,
    pub title: String,
    pub id: String,
}

/// Per-source failure surfaced to the UI so the user knows what broke.
#[derive(Debug)]
pub struct SourceError {
    pub source: String,
    pub source_label: String,
    pub message: String,
}

/// The view of a [`SourceError`].
pub struct SourceErrorView {
    pub source: Seq<char>,
    pub source_label: Seq<char>,
    pub message: Seq<char>,
}

impl View for SourceError {
    type V = SourceErrorView;

    open spec fn view(&self) -> SourceErrorView {
        SourceErrorView {
            source: self.source@,
            source_label: self.source_label@,
            message: self.message@,
        }
    }
}

impl DeepView for SourceError {
    type V = SourceErrorView;

    open spec fn deep_view(&self) -> SourceErrorView {
        self@
    }
}

/// Result of a `search` invocation.
#[derive(Debug)]
pub struct SearchResponse {
    pub items: Vec<InspoItem>,
    pub errors: Vec<SourceError>,
}

/// One saved-or-failed entry from a `save_images` invocation.
#[derive(Debug)]
pub struct SaveOutcome {
    pub id: String,
    pub ok: bool,
    /// Saved file path on success, error message on failure.
    pub detail: String,
}

/// The view of a [`SaveOutcome`].
pub struct OutcomeView {
    pub id: Seq<char>,
    pub ok: bool,
    pub detail: Seq<char>,
}

impl View for SaveOutcome {
    type V = OutcomeView;

    open spec fn view(&self) -> OutcomeView {
        OutcomeView { id: self.id@, ok: self.ok, detail: self.detail@ }
    }
}

impl DeepView for SaveOutcome {
    type V = OutcomeView;

    open spec fn deep_view(&self) -> OutcomeView {
        self@
    }
}

/// Result of a `save_images` invocation.
#[derive(Debug)]
pub struct SaveReport {
    pub saved: usize,
    pub failed: usize,
    pub folder: String,
    pub outcomes: Vec<SaveOutcome>,
}

} // verus!
