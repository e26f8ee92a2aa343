use mangapill::extract::get_chaper_list;
use mangapill::extract::get_page_list;
use mangapill::extract::parse_manga;
use mangapill::extract::parse_recents;
use mangapill::extract::parse_search;
use mangapill::models::DetailPage;
use mangapill::models::ExtractError;
use mangapill::models::ListingCard;
use mangapill::models::Manga;
use mangapill::models::MangaContentRating;
use mangapill::models::MangaStatus;
use mangapill::models::MangaViewer;

fn card(id: &str, title: &str, cover: &str) -> ListingCard {
    ListingCard {
        id: String::from(id),
        title: String::from(title),
        cover: String::from(cover),
    }
}

fn detail_page(type_text: &str, status_text: &str, warning: &str, categories: &[&str]) -> DetailPage {
    DetailPage {
        title: String::from("One Piece"),
        cover: String::from("https://cdn.example/cover.png"),
        description: String::from("A pirate story."),
        type_text: String::from(type_text),
        status_text: String::from(status_text),
        warning_text: String::from(warning),
        categories: categories.iter().map(|c| String::from(*c)).collect(),
    }
}

#[test]
fn recents_keep_every_card() {
    let cards = vec![card("/manga/1/a", "A", "img-a"), card("", "", "")];
    let mut out: Vec<Manga> = Vec::new();
    parse_recents(&cards, &mut out);
    assert_eq!(out.len(), 2);
    assert_eq!(out[0].id, "/manga/1/a");
    assert_eq!(out[0].title, "A");
    assert_eq!(out[0].cover, "img-a");
    assert_eq!(out[0].status, MangaStatus::Unknown);
    assert_eq!(out[0].nsfw, MangaContentRating::Safe);
    assert_eq!(out[0].viewer, MangaViewer::Default);
    assert_eq!(out[1].id, "");
}

#[test]
fn search_drops_card_missing_cover() {
    let cards = vec![card("/manga/1/a", "A", ""), card("/manga/2/b", "B", "img-b")];
    let mut out: Vec<Manga> = Vec::new();
    parse_search(&cards, &mut out);
    assert_eq!(out.len(), 1);
    assert_eq!(out[0].id, "/manga/2/b");
    assert_eq!(out[0].title, "B");
    assert_eq!(out[0].cover, "img-b");
}

#[test]
fn search_appends_after_existing_records() {
    let cards = vec![card("/manga/2/b", "B", "img-b")];
    let mut out: Vec<Manga> = Vec::new();
    parse_recents(&vec![card("/manga/1/a", "A", "img-a")], &mut out);
    parse_search(&cards, &mut out);
    assert_eq!(out.len(), 2);
    assert_eq!(out[0].id, "/manga/1/a");
    assert_eq!(out[1].id, "/manga/2/b");
}

#[test]
fn detail_status_publishing_means_ongoing() {
    let m = parse_manga(detail_page("manga", "Publishing", "", &[]), String::from("/manga/1/a"));
    assert_eq!(m.status, MangaStatus::Ongoing);
}

#[test]
fn detail_status_finished_means_completed() {
    let m = parse_manga(detail_page("manga", "FINISHED", "", &[]), String::from("/manga/1/a"));
    assert_eq!(m.status, MangaStatus::Completed);
}

#[test]
fn detail_status_other_means_unknown() {
    let m = parse_manga(detail_page("manga", "on hiatus", "", &[]), String::from("/manga/1/a"));
    assert_eq!(m.status, MangaStatus::Unknown);
}

#[test]
fn detail_ecchi_without_warning_is_suggestive() {
    let m = parse_manga(
        detail_page("manga", "publishing", "", &["Action", "Ecchi"]),
        String::from("/manga/1/a"),
    );
    assert_eq!(m.nsfw, MangaContentRating::Suggestive);
}

#[test]
fn detail_mature_warning_wins_over_categories() {
    let m = parse_manga(
        detail_page("manga", "publishing", "Mature content warning", &["Ecchi"]),
        String::from("/manga/1/a"),
    );
    assert_eq!(m.nsfw, MangaContentRating::Nsfw);
}

#[test]
fn detail_no_signal_is_safe() {
    let m = parse_manga(detail_page("manga", "publishing", "", &["Action"]), String::from("/manga/1/a"));
    assert_eq!(m.nsfw, MangaContentRating::Safe);
}

#[test]
fn detail_viewer_classification() {
    let rtl = parse_manga(detail_page("Manga", "", "", &[]), String::from("/manga/1/a"));
    assert_eq!(rtl.viewer, MangaViewer::Rtl);
    let scroll = parse_manga(detail_page("MANHWA", "", "", &[]), String::from("/manga/1/a"));
    assert_eq!(scroll.viewer, MangaViewer::Scroll);
    let fallback = parse_manga(detail_page("manhua", "", "", &[]), String::from("/manga/1/a"));
    assert_eq!(fallback.viewer, MangaViewer::Rtl);
    let unknown = parse_manga(detail_page("", "", "", &[]), String::from("/manga/1/a"));
    assert_eq!(unknown.viewer, MangaViewer::Rtl);
}

#[test]
fn detail_builds_absolute_url_and_keeps_fields() {
    let m = parse_manga(
        detail_page("manga", "publishing", "", &["Action", "Action"]),
        String::from("/manga/6290/one-piece"),
    );
    assert_eq!(m.id, "/manga/6290/one-piece");
    assert_eq!(m.url, "https://www.mangapill.com/manga/6290/one-piece");
    assert_eq!(m.title, "One Piece");
    assert_eq!(m.cover, "https://cdn.example/cover.png");
    assert_eq!(m.description, "A pirate story.");
    assert_eq!(m.categories, vec!["Action", "Action"]);
    assert_eq!(m.author, "");
    assert_eq!(m.artist, "");
}

#[test]
fn chapters_exclude_placeholder_element() {
    let ids = vec![
        String::from("Read Chapters"),
        String::from("/chapters/6290-10006000/one-piece-chapter-6"),
    ];
    let chapters = get_chaper_list(&ids).unwrap();
    assert_eq!(chapters.len(), 1);
    assert_eq!(chapters[0].id, "/chapters/6290-10006000/one-piece-chapter-6");
}

#[test]
fn chapter_number_from_trailing_segment() {
    let ids = vec![String::from("/chapters/6290-10006000")];
    let chapters = get_chaper_list(&ids).unwrap();
    assert_eq!(chapters[0].chapter, 10006000);
    let ids = vec![String::from("/chapters/6290-10006000/one-piece-chapter-6")];
    let chapters = get_chaper_list(&ids).unwrap();
    assert_eq!(chapters[0].chapter, 6);
}

#[test]
fn chapter_fields_and_order() {
    let ids = vec![String::from("/chapters/1-2/x-chapter-2"), String::from("/chapters/1-1/x-chapter-1")];
    let chapters = get_chaper_list(&ids).unwrap();
    assert_eq!(chapters.len(), 2);
    assert_eq!(chapters[0].chapter, 2);
    assert_eq!(chapters[1].chapter, 1);
    assert_eq!(chapters[0].url, "https://www.mangapill.com/chapters/1-2/x-chapter-2");
    assert_eq!(chapters[0].lang, "en");
    assert_eq!(chapters[0].volume, -1);
    assert_eq!(chapters[0].date_updated, -1);
    assert_eq!(chapters[0].title, "");
    assert_eq!(chapters[0].scanlator, "");
}

#[test]
fn malformed_chapter_identifier_is_an_error() {
    let ids = vec![String::from("/chapters/abc")];
    assert_eq!(get_chaper_list(&ids).unwrap_err(), ExtractError::MalformedChapterId);
    let ids = vec![String::from("/chapters/1-2/x-chapter-")];
    assert_eq!(get_chaper_list(&ids).unwrap_err(), ExtractError::MalformedChapterId);
}

#[test]
fn pages_are_indexed_in_document_order() {
    let urls = vec![String::from("img-0"), String::from("img-1"), String::from("img-2")];
    let pages = get_page_list(&urls);
    assert_eq!(pages.len(), 3);
    for (i, p) in pages.iter().enumerate() {
        assert_eq!(p.index, i as i32);
        assert_eq!(p.url, format!("img-{}", i));
        assert_eq!(p.base64, "");
        assert_eq!(p.text, "");
    }
}

#[test]
fn empty_inputs_yield_empty_outputs() {
    let mut out: Vec<Manga> = Vec::new();
    parse_recents(&Vec::new(), &mut out);
    parse_search(&Vec::new(), &mut out);
    assert!(out.is_empty());
    assert!(get_chaper_list(&Vec::new()).unwrap().is_empty());
    assert!(get_page_list(&Vec::new()).is_empty());
}
