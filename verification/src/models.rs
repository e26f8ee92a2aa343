//! Catalog record types produced by the extractors, the enumerated
//! classifications they carry, and the ghost views their contracts use.
use vstd::prelude::*;

verus! {

/// Publication status of a title.
#[derive(Clone, Copy, Debug, PartialEq, Eq, Structural)]
pub enum MangaStatus {
    Unknown,
    Ongoing,
    Completed,
}

/// Maturity classification of a title.
#[derive(Clone, Copy, Debug, PartialEq, Eq, Structural)]
pub enum MangaContentRating {
    Safe,
    Suggestive,
    Nsfw,
}

/// Reading direction / layout hint for a title.
#[derive(Clone, Copy, Debug, PartialEq, Eq, Structural)]
pub enum MangaViewer {
    Default,
    Rtl,
    Scroll,
}

/// Error for input whose structure does not match the expected shape.
#[derive(Clone, Copy, Debug, PartialEq, Eq, Structural)]
pub enum ExtractError {
    /// An incoming URL had fewer path segments than the canonical shapes.
    MalformedUrl,
    /// A chapter identifier whose trailing segment is not a decimal number.
    MalformedChapterId,
}

/// A title's catalog record: partial when built from a listing card, full
/// when built from a detail page.
#[derive(Debug)]
pub struct Manga {
    pub id: String,
    pub cover: String,
    pub title: String,
    pub author: String,
    pub artist: String,
    pub description: String,
    pub url: String,
    pub categories: Vec<String>,
    pub status: MangaStatus,
    pub nsfw: MangaContentRating,
    pub viewer: MangaViewer,
}

/// Mathematical image of a `Manga` record.
#[verifier::ext_equal]
pub struct MangaView {
    pub id: Seq<char>,
    pub cover: Seq<char>,
    pub title: Seq<char>,
    pub author: Seq<char>,
    pub artist: Seq<char>,
    pub description: Seq<char>,
    pub url: Seq<char>,
    pub categories: Seq<Seq<char>>,
    pub status: MangaStatus,
    pub nsfw: MangaContentRating,
    pub viewer: MangaViewer,
}

impl View for Manga {
    type V = MangaView;

    open spec fn view(&self) -> MangaView {
        MangaView {
            id: self.id@,
            cover: self.cover@,
            title: self.title@,
            author: self.author@,
            artist: self.artist@,
            description: self.description@,
            url: self.url@,
            categories: self.categories.deep_view(),
            status: self.status,
            nsfw: self.nsfw,
            viewer: self.viewer,
        }
    }
}

impl DeepView for Manga {
    type V = MangaView;

    open spec fn deep_view(&self) -> MangaView {
        self.view()
    }
}

/// One chapter of a title. `volume` and `date_updated` keep the sentinel
/// `-1`, meaning unknown; `chapter` is the number parsed from the trailing
/// segment of the identifier.
#[derive(Debug)]
pub struct Chapter {
    pub id: String,
    pub title: String,
    pub volume: i64,
    pub chapter: u64,
    pub date_updated: i64,
    pub scanlator: String,
    pub url: String,
    pub lang: String,
}

/// Mathematical image of a `Chapter` record.
#[verifier::ext_equal]
pub struct ChapterView {
    pub id: Seq<char>,
    pub title: Seq<char>,
    pub volume: i64,
    pub chapter: u64,
    pub date_updated: i64,
    pub scanlator: Seq<char>,
    pub url: Seq<char>,
    pub lang: Seq<char>,
}

impl View for Chapter {
    type V = ChapterView;

    open spec fn view(&self) -> ChapterView {
        ChapterView {
            id: self.id@,
            title: self.title@,
            volume: self.volume,
            chapter: self.chapter,
            date_updated: self.date_updated,
            scanlator: self.scanlator@,
            url: self.url@,
            lang: self.lang@,
        }
    }
}

impl DeepView for Chapter {
    type V = ChapterView;

    open spec fn deep_view(&self) -> ChapterView {
        self.view()
    }
}

/// One image page of a chapter: its position and its image URL.
#[derive(Debug)]
pub struct Page {
    pub index: i32,
    pub url: String,
    pub base64: String,
    pub text: String,
}

/// Mathematical image of a `Page` record.
#[verifier::ext_equal]
pub struct PageView {
    pub index: i32,
    pub url: Seq<char>,
    pub base64: Seq<char>,
    pub text: Seq<char>,
}

impl View for Page {
    type V = PageView;

    open spec fn view(&self) -> PageView {
        PageView { index: self.index, url: self.url@, base64: self.base64@, text: self.text@ }
    }
}

impl DeepView for Page {
    type V = PageView;

    open spec fn deep_view(&self) -> PageView {
        self.view()
    }
}

/// The three fields a listing extractor reads off one repeated card
/// element: link target, link text, and cover-image attribute.
#[derive(Debug)]
pub struct ListingCard {
    pub id: String,
    pub title: String,
    pub cover: String,
}

/// Mathematical image of a `ListingCard`.
#[verifier::ext_equal]
pub struct ListingCardView {
    pub id: Seq<char>,
    pub title: Seq<char>,
    pub cover: Seq<char>,
}

impl View for ListingCard {
    type V = ListingCardView;

    open spec fn view(&self) -> ListingCardView {
        ListingCardView { id: self.id@, title: self.title@, cover: self.cover@ }
    }
}

impl DeepView for ListingCard {
    type V = ListingCardView;

    open spec fn deep_view(&self) -> ListingCardView {
        self.view()
    }
}

/// The fields the detail extractor reads off a title's page: image
/// alt-text and source, description block, the two metadata-grid labels,
/// the warning-banner text, and every genre-link text in document order.
#[derive(Debug)]
pub struct DetailPage {
    pub title: String,
    pub cover: String,
    pub description: String,
    pub type_text: String,
    pub status_text: String,
    pub warning_text: String,
    pub categories: Vec<String>,
}

/// Mathematical image of a `DetailPage`.
#[verifier::ext_equal]
pub struct DetailPageView {
    pub title: Seq<char>,
    pub cover: Seq<char>,
    pub description: Seq<char>,
    pub type_text: Seq<char>,
    pub status_text: Seq<char>,
    pub warning_text: Seq<char>,
    pub categories: Seq<Seq<char>>,
}

impl View for DetailPage {
    type V = DetailPageView;

    open spec fn view(&self) -> DetailPageView {
        DetailPageView {
            title: self.title@,
            cover: self.cover@,
            description: self.description@,
            type_text: self.type_text@,
            status_text: self.status_text@,
            warning_text: self.warning_text@,
            categories: self.categories.deep_view(),
        }
    }
}

impl DeepView for DetailPage {
    type V = DetailPageView;

    open spec fn deep_view(&self) -> DetailPageView {
        self.view()
    }
}

} // verus!
