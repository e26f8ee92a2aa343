//! Extractors that turn already-queried markup fields into typed catalog
//! records: the two listing variants, the detail page, the chapter list,
//! and the page list.
use crate::encode::all_digits;
use crate::encode::dec_val;
use crate::encode::parse_decimal;
use crate::models::Chapter;
use crate::models::ChapterView;
use crate::models::DetailPage;
use crate::models::DetailPageView;
use crate::models::ExtractError;
use crate::models::ListingCard;
use crate::models::ListingCardView;
use crate::models::Manga;
use crate::models::MangaContentRating;
use crate::models::MangaStatus;
use crate::models::MangaView;
use crate::models::MangaViewer;
use crate::models::Page;
use crate::models::PageView;
use crate::text::ascii_lowercase;
use crate::text::chars_vec;
use crate::text::contains_chars;
use crate::text::contains_seq;
use crate::text::last_pos;
use crate::text::lemma_last_pos_bounds;
use crate::text::lower;
use crate::text::rfind_char;
use crate::text::string_eq_literal;
use crate::text::sub_chars;
use crate::text::tail_after;
use crate::text::vec_contains_str;
use vstd::prelude::*;
use vstd::string::StringExecFns;

verus! {

/// The partial catalog entry a listing card yields: the card's three
/// fields, every other field empty or at its default classification.
pub open spec fn listing_entry(c: ListingCardView) -> MangaView {
    MangaView {
        id: c.id,
        cover: c.cover,
        title: c.title,
        author: Seq::empty(),
        artist: Seq::empty(),
        description: Seq::empty(),
        url: Seq::empty(),
        categories: Seq::empty(),
        status: MangaStatus::Unknown,
        nsfw: MangaContentRating::Safe,
        viewer: MangaViewer::Default,
    }
}

/// Entries of the recent-updates listing: one per card, unconditionally.
pub open spec fn recents_entries(cs: Seq<ListingCardView>) -> Seq<MangaView> {
    cs.map_values(|c: ListingCardView| listing_entry(c))
}

/// A card carries all three fields needed for a search result.
pub open spec fn card_complete(c: ListingCardView) -> bool {
    c.id.len() > 0 && c.title.len() > 0 && c.cover.len() > 0
}

/// Entries of the search-results listing: one per complete card, in card
/// order; incomplete cards are dropped.
pub open spec fn search_entries(cs: Seq<ListingCardView>) -> Seq<MangaView>
    decreases cs.len(),
{
    if cs.len() == 0 {
        Seq::empty()
    } else {
        let rest = search_entries(cs.drop_last());
        if card_complete(cs.last()) {
            rest.push(listing_entry(cs.last()))
        } else {
            rest
        }
    }
}

/// Build the partial entry of one listing card.
fn card_to_manga(card: &ListingCard) -> (m: Manga)
    ensures
        m@ == listing_entry(card@),
{
    let m = Manga {
        id: card.id.clone(),
        cover: card.cover.clone(),
        title: card.title.clone(),
        author: String::new(),
        artist: String::new(),
        description: String::new(),
        url: String::new(),
        categories: Vec::new(),
        status: MangaStatus::Unknown,
        nsfw: MangaContentRating::Safe,
        viewer: MangaViewer::Default,
    };
    proof {
        assert(m.categories.deep_view() =~= Seq::<Seq<char>>::empty());
        assert(m@ =~= listing_entry(card@));
    }
    m
}

/// Append one partial entry per card of the recent-updates listing to
/// `result`, in card order, keeping whatever `result` already held.
#[verifier::loop_isolation(false)]
pub fn parse_recents(cards: &Vec<ListingCard>, result: &mut Vec<Manga>)
    ensures
        final(result).deep_view() == old(result).deep_view() + recents_entries(cards.deep_view()),
{
    let ghost cs = cards.deep_view();
    let mut i: usize = 0;
    proof {
        assert(result.deep_view() =~= old(result).deep_view() + recents_entries(cs.take(0)));
    }
    while i < cards.len()
        invariant
            i <= cs.len(),
            result.deep_view() == old(result).deep_view() + recents_entries(cs.take(i as int)),
        decreases cs.len() - i,
    {
        let ghost before = result.deep_view();
        let m = card_to_manga(&cards[i]);
        result.push(m);
        proof {
            assert(result.deep_view() =~= before.push(m@));
            assert(recents_entries(cs.take(i + 1)) =~= recents_entries(cs.take(i as int)).push(
                listing_entry(cs[i as int]),
            ));
            assert(before.push(m@) =~= old(result).deep_view() + recents_entries(cs.take(i + 1)));
        }
        i = i + 1;
    }
    proof {
        assert(cs.take(cs.len() as int) =~= cs);
    }
}

/// Append one partial entry per complete card of the search-results
/// listing to `result`, in card order; a card missing its identifier,
/// title, or cover is dropped entirely.
#[verifier::loop_isolation(false)]
pub fn parse_search(cards: &Vec<ListingCard>, result: &mut Vec<Manga>)
    ensures
        final(result).deep_view() == old(result).deep_view() + search_entries(cards.deep_view()),
{
    let ghost cs = cards.deep_view();
    let mut i: usize = 0;
    proof {
        assert(cs.take(0) =~= Seq::<ListingCardView>::empty());
        assert(result.deep_view() =~= old(result).deep_view() + search_entries(cs.take(0)));
    }
    while i < cards.len()
        invariant
            i <= cs.len(),
            result.deep_view() == old(result).deep_view() + search_entries(cs.take(i as int)),
        decreases cs.len() - i,
    {
        proof {
            assert(cs.take(i + 1).drop_last() =~= cs.take(i as int));
            assert(cs.take(i + 1).last() == cs[i as int]);
        }
        let card = &cards[i];
        if !card.id.as_str().is_empty() && !card.title.as_str().is_empty()
            && !card.cover.as_str().is_empty() {
            let ghost before = result.deep_view();
            let m = card_to_manga(card);
            result.push(m);
            proof {
                assert(card_complete(cs[i as int]));
                assert(search_entries(cs.take(i + 1)) =~= search_entries(cs.take(i as int)).push(
                    listing_entry(cs[i as int]),
                ));
                assert(result.deep_view() =~= before.push(m@));
                assert(before.push(m@) =~= old(result).deep_view() + search_entries(
                    cs.take(i + 1),
                ));
            }
        } else {
            proof {
                assert(!card_complete(cs[i as int]));
                assert(search_entries(cs.take(i + 1)) =~= search_entries(cs.take(i as int)));
            }
        }
        i = i + 1;
    }
    proof {
        assert(cs.take(cs.len() as int) =~= cs);
    }
}

/// Status classification of the lowercased status label, checked in
/// priority order.
pub open spec fn status_of(status_lower: Seq<char>) -> MangaStatus {
    if contains_seq(status_lower, "publishing"@) {
        MangaStatus::Ongoing
    } else if contains_seq(status_lower, "finished"@) {
        MangaStatus::Completed
    } else {
        MangaStatus::Unknown
    }
}

/// Content-rating classification, in priority order: a warning banner
/// mentioning Mature, else an Ecchi category, else safe.
pub open spec fn rating_of(warning: Seq<char>, categories: Seq<Seq<char>>) -> MangaContentRating {
    if contains_seq(warning, "Mature"@) {
        MangaContentRating::Nsfw
    } else if categories.contains("Ecchi"@) {
        MangaContentRating::Suggestive
    } else {
        MangaContentRating::Safe
    }
}

/// Viewer-mode classification of the lowercased type label; everything
/// but manhwa reads right to left, on purpose.
pub open spec fn viewer_of(type_lower: Seq<char>) -> MangaViewer {
    if type_lower == "manga"@ {
        MangaViewer::Rtl
    } else if type_lower == "manhwa"@ {
        MangaViewer::Scroll
    } else {
        MangaViewer::Rtl
    }
}

/// The full catalog record a detail page and its identifier yield.
pub open spec fn detail_record(p: DetailPageView, id: Seq<char>) -> MangaView {
    MangaView {
        id: id,
        cover: p.cover,
        title: p.title,
        author: Seq::empty(),
        artist: Seq::empty(),
        description: p.description,
        url: "https://www.mangapill.com"@ + id,
        categories: p.categories,
        status: status_of(lower(p.status_text)),
        nsfw: rating_of(p.warning_text, p.categories),
        viewer: viewer_of(lower(p.type_text)),
    }
}

/// Build the full catalog record of one detail page: classify status,
/// content rating, and viewer mode, and derive the absolute URL from the
/// fixed origin and the identifier.
pub fn parse_manga(page: DetailPage, id: String) -> (r: Manga)
    ensures
        r@ == detail_record(page@, id@),
{
    let ghost pv = page@;
    let DetailPage { title, cover, description, type_text, status_text, warning_text, categories } =
        page;
    let type_lower = ascii_lowercase(type_text.as_str());
    let status_lower = ascii_lowercase(status_text.as_str());
    let status_chars = chars_vec(status_lower.as_str());
    let publishing = chars_vec("publishing");
    let finished = chars_vec("finished");
    let status = if contains_chars(&status_chars, &publishing) {
        MangaStatus::Ongoing
    } else if contains_chars(&status_chars, &finished) {
        MangaStatus::Completed
    } else {
        MangaStatus::Unknown
    };
    let warning_chars = chars_vec(warning_text.as_str());
    let mature = chars_vec("Mature");
    let nsfw = if contains_chars(&warning_chars, &mature) {
        MangaContentRating::Nsfw
    } else if vec_contains_str(&categories, "Ecchi") {
        MangaContentRating::Suggestive
    } else {
        MangaContentRating::Safe
    };
    let viewer = if string_eq_literal(&type_lower, "manga") {
        MangaViewer::Rtl
    } else if string_eq_literal(&type_lower, "manhwa") {
        MangaViewer::Scroll
    } else {
        MangaViewer::Rtl
    };
    let mut url = String::from_str("https://www.mangapill.com");
    url.append(id.as_str());
    let m = Manga {
        id,
        cover,
        title,
        author: String::new(),
        artist: String::new(),
        description,
        url,
        categories,
        status,
        nsfw,
        viewer,
    };
    proof {
        assert(m@ =~= detail_record(pv, m.id@));
    }
    m
}

/// A chapter element is kept unless its identifier is the placeholder
/// text of the non-chapter control element.
pub open spec fn chapter_kept(id: Seq<char>) -> bool {
    id != "Read Chapters"@
}

/// The trailing segment of the identifier, after its last `-`, is a
/// non-empty decimal number that fits the chapter field.
pub open spec fn chapter_id_valid(id: Seq<char>) -> bool {
    let t = tail_after(id, '-');
    t.len() > 0 && all_digits(t) && dec_val(t) <= u64::MAX
}

/// The chapter record one kept identifier yields: the number parsed from
/// the trailing segment, sentinel volume and date, the fixed language
/// tag, and the absolute URL from the fixed origin.
pub open spec fn chapter_record(id: Seq<char>) -> ChapterView
    recommends
        chapter_id_valid(id),
{
    ChapterView {
        id: id,
        title: Seq::empty(),
        volume: -1i64,
        chapter: dec_val(tail_after(id, '-')) as u64,
        date_updated: -1i64,
        scanlator: Seq::empty(),
        url: "https://www.mangapill.com"@ + id,
        lang: "en"@,
    }
}

/// A status label with any casing of "publishing" somewhere in it
/// classifies the title as ongoing; one with any casing of "finished"
/// and no "publishing" classifies it as completed.
pub proof fn lemma_status_any_casing(s: Seq<char>, t: Seq<char>)
    requires
        contains_seq(s, t),
    ensures
        lower(t) == "publishing"@ ==> status_of(lower(s)) == MangaStatus::Ongoing,
        lower(t) == "finished"@ && !contains_seq(lower(s), "publishing"@) ==> status_of(lower(s))
            == MangaStatus::Completed,
{
    crate::text::lemma_lower_preserves_contains(s, t);
}

/// A category sequence holding "Ecchi", with no "Mature" warning, rates
/// the title suggestive; a "Mature" warning rates it nsfw whatever the
/// categories hold.
pub proof fn lemma_rating_rules(warning: Seq<char>, categories: Seq<Seq<char>>)
    ensures
        contains_seq(warning, "Mature"@) ==> rating_of(warning, categories)
            == MangaContentRating::Nsfw,
        !contains_seq(warning, "Mature"@) && categories.contains("Ecchi"@) ==> rating_of(
            warning,
            categories,
        ) == MangaContentRating::Suggestive,
{
}

/// Every search entry is the entry of some complete card, so a card
/// missing its identifier, title, or cover contributes nothing.
pub proof fn lemma_search_entries_from_complete_cards(cs: Seq<ListingCardView>, k: int)
    requires
        0 <= k < search_entries(cs).len(),
    ensures
        exists|j: int|
            0 <= j < cs.len() && card_complete(#[trigger] cs[j]) && search_entries(cs)[k]
                == listing_entry(cs[j]),
    decreases cs.len(),
{
    let rest = search_entries(cs.drop_last());
    if k < rest.len() {
        lemma_search_entries_from_complete_cards(cs.drop_last(), k);
        let j = choose|j: int|
            0 <= j < cs.drop_last().len() && card_complete(#[trigger] cs.drop_last()[j]) && rest[k]
                == listing_entry(cs.drop_last()[j]);
        assert(cs[j] == cs.drop_last()[j]);
        assert(search_entries(cs)[k] == rest[k]);
    } else {
        let j = cs.len() - 1;
        assert(card_complete(cs[j]));
        assert(search_entries(cs)[k] == listing_entry(cs[j]));
    }
}

/// Every complete card yields a search entry: it is never dropped.
pub proof fn lemma_search_includes_complete_card(cs: Seq<ListingCardView>, j: int)
    requires
        0 <= j < cs.len(),
        card_complete(cs[j]),
    ensures
        exists|k: int|
            0 <= k < search_entries(cs).len() && #[trigger] search_entries(cs)[k] == listing_entry(
                cs[j],
            ),
    decreases cs.len(),
{
    let rest = search_entries(cs.drop_last());
    if j == cs.len() - 1 {
        assert(search_entries(cs)[rest.len() as int] == listing_entry(cs[j]));
    } else {
        assert(cs.drop_last()[j] == cs[j]);
        lemma_search_includes_complete_card(cs.drop_last(), j);
        let k = choose|k: int|
            0 <= k < rest.len() && #[trigger] rest[k] == listing_entry(cs.drop_last()[j]);
        assert(search_entries(cs)[k] == listing_entry(cs[j]));
    }
}

/// The chapter records of a sequence of identifiers, in document order,
/// the placeholder elements dropped.
pub open spec fn chapter_list(ids: Seq<Seq<char>>) -> Seq<ChapterView>
    decreases ids.len(),
{
    if ids.len() == 0 {
        Seq::empty()
    } else {
        let rest = chapter_list(ids.drop_last());
        if chapter_kept(ids.last()) {
            rest.push(chapter_record(ids.last()))
        } else {
            rest
        }
    }
}

/// No chapter record ever carries the placeholder identifier, wherever
/// the placeholder element stands among the chapter links.
pub proof fn lemma_placeholder_never_recorded(ids: Seq<Seq<char>>, k: int)
    requires
        0 <= k < chapter_list(ids).len(),
    ensures
        chapter_list(ids)[k].id != "Read Chapters"@,
    decreases ids.len(),
{
    let rest = chapter_list(ids.drop_last());
    if k < rest.len() {
        lemma_placeholder_never_recorded(ids.drop_last(), k);
        assert(chapter_list(ids)[k] == rest[k]);
    } else {
        assert(chapter_kept(ids.last()));
    }
}

/// Build the chapter records of the chapter-link identifiers, in document
/// order, skipping the placeholder element. A kept identifier whose
/// trailing segment is not a decimal number fails the whole extraction
/// with a typed error, so no malformed record is ever produced.
#[verifier::loop_isolation(false)]
pub fn get_chaper_list(ids: &Vec<String>) -> (r: Result<Vec<Chapter>, ExtractError>)
    ensures
        r is Ok <==> (forall|k: int|
            0 <= k < ids.deep_view().len() && chapter_kept(#[trigger] ids.deep_view()[k])
                ==> chapter_id_valid(ids.deep_view()[k])),
        r is Ok ==> r->Ok_0.deep_view() == chapter_list(ids.deep_view()),
        r is Err ==> r->Err_0 == ExtractError::MalformedChapterId,
{
    let ghost dv = ids.deep_view();
    let mut out: Vec<Chapter> = Vec::new();
    let mut i: usize = 0;
    proof {
        assert(out.deep_view() =~= chapter_list(dv.take(0)));
    }
    while i < ids.len()
        invariant
            i <= dv.len(),
            forall|k: int| 0 <= k < i && chapter_kept(#[trigger] dv[k]) ==> chapter_id_valid(dv[k]),
            out.deep_view() == chapter_list(dv.take(i as int)),
        decreases dv.len() - i,
    {
        proof {
            assert(dv.take(i + 1).drop_last() =~= dv.take(i as int));
            assert(dv.take(i + 1).last() == dv[i as int]);
        }
        let id = ids[i].clone();
        if string_eq_literal(&id, "Read Chapters") {
            proof {
                assert(!chapter_kept(dv[i as int]));
                assert(chapter_list(dv.take(i + 1)) =~= chapter_list(dv.take(i as int)));
            }
        } else {
            let cs = chars_vec(id.as_str());
            let tail_start = match rfind_char(&cs, cs.len(), '-') {
                Some(k) => k + 1,
                None => 0,
            };
            proof {
                assert(cs@.take(cs@.len() as int) =~= cs@);
                lemma_last_pos_bounds(cs@, '-');
                assert(tail_start as int == last_pos(cs@, '-') + 1);
            }
            let t = sub_chars(&cs, tail_start, cs.len());
            proof {
                assert(t@ =~= tail_after(dv[i as int], '-'));
            }
            match parse_decimal(&t) {
                None => {
                    proof {
                        assert(chapter_kept(dv[i as int]) && !chapter_id_valid(dv[i as int]));
                    }
                    return Err(ExtractError::MalformedChapterId);
                },
                Some(n) => {
                    let mut url = String::from_str("https://www.mangapill.com");
                    url.append(id.as_str());
                    let ch = Chapter {
                        id,
                        title: String::new(),
                        volume: -1,
                        chapter: n,
                        date_updated: -1,
                        scanlator: String::new(),
                        url,
                        lang: String::from_str("en"),
                    };
                    let ghost before = out.deep_view();
                    out.push(ch);
                    proof {
                        assert(ch@ =~= chapter_record(dv[i as int]));
                        assert(chapter_list(dv.take(i + 1)) =~= chapter_list(
                            dv.take(i as int),
                        ).push(chapter_record(dv[i as int])));
                        assert(out.deep_view() =~= before.push(ch@));
                        assert(out.deep_view() =~= chapter_list(dv.take(i + 1)));
                    }
                },
            }
        }
        i = i + 1;
    }
    proof {
        assert(dv.take(dv.len() as int) =~= dv);
    }
    Ok(out)
}

/// The page records of a sequence of image URLs: position and URL, in
/// document order, indices starting at zero.
pub open spec fn page_records(urls: Seq<Seq<char>>) -> Seq<PageView> {
    urls.map(
        |i: int, u: Seq<char>| PageView {
            index: i as i32,
            url: u,
            base64: Seq::empty(),
            text: Seq::empty(),
        },
    )
}

/// Build one page record per image URL, in document order, each record's
/// index equal to its position in the result.
#[verifier::loop_isolation(false)]
pub fn get_page_list(urls: &Vec<String>) -> (r: Vec<Page>)
    requires
        urls@.len() <= i32::MAX,
    ensures
        r.deep_view() == page_records(urls.deep_view()),
{
    let ghost dv = urls.deep_view();
    let mut out: Vec<Page> = Vec::new();
    let mut i: usize = 0;
    proof {
        assert(out.deep_view() =~= page_records(dv.take(0)));
    }
    while i < urls.len()
        invariant
            i <= dv.len(),
            out.deep_view() == page_records(dv.take(i as int)),
        decreases dv.len() - i,
    {
        let p = Page {
            index: i as i32,
            url: urls[i].clone(),
            base64: String::new(),
            text: String::new(),
        };
        let ghost before = out.deep_view();
        out.push(p);
        proof {
            assert(out.deep_view() =~= before.push(p@));
            assert(page_records(dv.take(i + 1)) =~= page_records(dv.take(i as int)).push(p@));
            assert(out.deep_view() =~= page_records(dv.take(i + 1)));
        }
        i = i + 1;
    }
    proof {
        assert(dv.take(dv.len() as int) =~= dv);
    }
    out
}

} // verus!
