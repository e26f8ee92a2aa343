use mangapill::filters::get_filtered_url;
use mangapill::filters::FilterSelection;
use mangapill::models::ExtractError;
use mangapill::url::parse_incoming_url;

fn compile(filters: Vec<FilterSelection>, page: i32) -> String {
    let mut url = String::new();
    get_filtered_url(filters, page, &mut url);
    url
}

#[test]
fn title_filter_page_two() {
    let filters = vec![FilterSelection::Title { value: String::from("One Piece") }];
    assert_eq!(compile(filters, 2), "https://mangapill.com/search?q=one%20piece&page=2");
}

#[test]
fn type_select_manhwa_no_title() {
    let filters = vec![FilterSelection::Select { name: String::from("Type"), index: 5 }];
    assert_eq!(compile(filters, 1), "https://mangapill.com/search?q=&type=manhwa&page=1");
}

#[test]
fn type_select_zero_is_not_searching() {
    let filters = vec![FilterSelection::Select { name: String::from("Type"), index: 0 }];
    assert_eq!(compile(filters, 1), "https://mangapill.com");
}

#[test]
fn no_filters_is_not_searching() {
    assert_eq!(compile(Vec::new(), 1), "https://mangapill.com");
}

#[test]
fn genre_filter_lowercased_and_encoded() {
    let filters = vec![FilterSelection::Genre { name: String::from("Sci Fi") }];
    assert_eq!(compile(filters, 1), "https://mangapill.com/search?q=&genre=sci%20fi&page=1");
}

#[test]
fn status_select_keeps_site_spelling() {
    let filters = vec![FilterSelection::Select { name: String::from("Status"), index: 3 }];
    assert_eq!(compile(filters, 1), "https://mangapill.com/search?q=&status=on+haitus&page=1");
}

#[test]
fn status_select_zero_appends_empty_value() {
    let filters = vec![
        FilterSelection::Title { value: String::from("a") },
        FilterSelection::Select { name: String::from("Status"), index: 0 },
    ];
    assert_eq!(compile(filters, 1), "https://mangapill.com/search?q=a&status=&page=1");
}

#[test]
fn unrecognized_select_index_is_skipped() {
    let filters = vec![
        FilterSelection::Title { value: String::from("a") },
        FilterSelection::Select { name: String::from("Type"), index: 9 },
        FilterSelection::Select { name: String::from("Type"), index: -1 },
    ];
    assert_eq!(compile(filters, 1), "https://mangapill.com/search?q=a&page=1");
}

#[test]
fn unknown_select_name_is_skipped() {
    let filters = vec![FilterSelection::Select { name: String::from("Genre"), index: 2 }];
    assert_eq!(compile(filters, 1), "https://mangapill.com");
}

#[test]
fn filters_append_in_input_order() {
    let filters = vec![
        FilterSelection::Title { value: String::from("Berserk") },
        FilterSelection::Genre { name: String::from("Action") },
        FilterSelection::Select { name: String::from("Type"), index: 1 },
        FilterSelection::Select { name: String::from("Status"), index: 2 },
    ];
    assert_eq!(
        compile(filters, 3),
        "https://mangapill.com/search?q=berserk&genre=action&type=manga&status=finished&page=3"
    );
}

#[test]
fn incoming_item_url_is_canonicalized() {
    let r = parse_incoming_url(String::from("https://www.mangapill.com/manga/6290/one-piece"));
    assert_eq!(r.unwrap(), "/manga/6290/one-piece");
}

#[test]
fn incoming_chapter_url_is_canonicalized() {
    let r = parse_incoming_url(String::from(
        "https://www.mangapill.com/chapters/6290-10006000/one-piece-chapter-6",
    ));
    assert_eq!(r.unwrap(), "/manga/6290/one-piece-chapter-6");
}

#[test]
fn incoming_url_with_two_segments_still_canonicalizes() {
    let r = parse_incoming_url(String::from("6290/one-piece"));
    assert_eq!(r.unwrap(), "/manga/6290/one-piece");
}

#[test]
fn incoming_url_without_separator_is_malformed() {
    let r = parse_incoming_url(String::from("mangapill"));
    assert_eq!(r.unwrap_err(), ExtractError::MalformedUrl);
}
