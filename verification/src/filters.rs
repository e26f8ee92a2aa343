//! The filter compiler: turns an ordered sequence of user filter
//! selections and a page number into the site's search query URL.
use crate::encode::int_string;
use crate::encode::i32_to_string;
use crate::encode::percent_encoding_of;
use crate::encode::urlencode;
use crate::text::ascii_lowercase;
use crate::text::lower;
use crate::text::string_eq_literal;
use vstd::prelude::*;
use vstd::string::StringExecFns;

verus! {

/// A user's filter selection, handed in by the host: free search text, a
/// genre tag, or an enumerated select identified by name and index.
pub enum FilterSelection {
    Title { value: String },
    Genre { name: String },
    Select { name: String, index: i32 },
}

/// Mathematical image of a `FilterSelection`.
pub enum FilterView {
    Title { value: Seq<char> },
    Genre { name: Seq<char> },
    Select { name: Seq<char>, index: int },
}

impl View for FilterSelection {
    type V = FilterView;

    open spec fn view(&self) -> FilterView {
        match self {
            FilterSelection::Title { value } => FilterView::Title { value: value@ },
            FilterSelection::Genre { name } => FilterView::Genre { name: name@ },
            FilterSelection::Select { name, index } => FilterView::Select {
                name: name@,
                index: *index as int,
            },
        }
    }
}

impl DeepView for FilterSelection {
    type V = FilterView;

    open spec fn deep_view(&self) -> FilterView {
        self.view()
    }
}

/// Keyword of the Type select, by index. Order is wire-exact.
pub open spec fn type_keyword(i: int) -> Seq<char>
    recommends
        0 <= i < 8,
{
    if i == 1 {
        "manga"@
    } else if i == 2 {
        "novel"@
    } else if i == 3 {
        "one-shot"@
    } else if i == 4 {
        "doujinshi"@
    } else if i == 5 {
        "manhwa"@
    } else if i == 6 {
        "manhua"@
    } else if i == 7 {
        "oel"@
    } else {
        Seq::empty()
    }
}

/// Keyword of the Status select, by index. Order is wire-exact, including
/// the keyword "on+haitus" spelled as the site expects it.
pub open spec fn status_keyword(i: int) -> Seq<char>
    recommends
        0 <= i < 6,
{
    if i == 1 {
        "publishing"@
    } else if i == 2 {
        "finished"@
    } else if i == 3 {
        "on+haitus"@
    } else if i == 4 {
        "doujinshi"@
    } else if i == 5 {
        "discontinued"@
    } else {
        Seq::empty()
    }
}

/// What one select filter appends to the query accumulator: a recognized
/// index yields its parameter and keyword, anything else yields nothing.
pub open spec fn select_fragment(name: Seq<char>, index: int) -> Seq<char> {
    if name == "Type"@ && 0 <= index < 8 {
        "&type="@ + type_keyword(index)
    } else if name == "Status"@ && 0 <= index < 6 {
        "&status="@ + status_keyword(index)
    } else {
        Seq::empty()
    }
}

/// What one filter appends to the query accumulator.
pub open spec fn filter_query(f: FilterView) -> Seq<char> {
    match f {
        FilterView::Title { .. } => Seq::empty(),
        FilterView::Genre { name } => "&genre="@ + percent_encoding_of(lower(name)),
        FilterView::Select { name, index } => select_fragment(name, index),
    }
}

/// What one filter appends to the search-text accumulator.
pub open spec fn filter_search_text(f: FilterView) -> Seq<char> {
    match f {
        FilterView::Title { value } => percent_encoding_of(lower(value)),
        _ => Seq::empty(),
    }
}

/// Whether one filter marks the compilation as a search: any title or
/// genre does; a select only with a recognized index above zero.
pub open spec fn filter_marks_searching(f: FilterView) -> bool {
    match f {
        FilterView::Title { .. } => true,
        FilterView::Genre { .. } => true,
        FilterView::Select { name, index } => (name == "Type"@ && 1 <= index < 8) || (name
            == "Status"@ && 1 <= index < 6),
    }
}

/// Query accumulator after all filters, in input order.
pub open spec fn query_of(fs: Seq<FilterView>) -> Seq<char>
    decreases fs.len(),
{
    if fs.len() == 0 {
        Seq::empty()
    } else {
        query_of(fs.drop_last()) + filter_query(fs.last())
    }
}

/// Search-text accumulator after all filters, in input order.
pub open spec fn search_text_of(fs: Seq<FilterView>) -> Seq<char>
    decreases fs.len(),
{
    if fs.len() == 0 {
        Seq::empty()
    } else {
        search_text_of(fs.drop_last()) + filter_search_text(fs.last())
    }
}

/// Some filter marked the compilation as a search.
pub open spec fn any_searching(fs: Seq<FilterView>) -> bool {
    exists|i: int| 0 <= i < fs.len() && filter_marks_searching(#[trigger] fs[i])
}

/// The full string the compiler appends to the caller's URL: the origin,
/// then the search route with both accumulators and the page number when
/// any filter marked a search, and nothing more otherwise.
pub open spec fn compiled_url(fs: Seq<FilterView>, page: int) -> Seq<char> {
    if any_searching(fs) {
        "https://mangapill.com"@ + "/search?q="@ + search_text_of(fs) + query_of(fs) + "&page="@
            + int_string(page)
    } else {
        "https://mangapill.com"@
    }
}

/// Compile the filter selections into the search URL, appended to `url`:
/// the origin always; the search route, the percent-encoded lowercased
/// title text, every genre and recognized select parameter in input
/// order, and the page number, only when some filter marked a search.
#[verifier::loop_isolation(false)]
pub fn get_filtered_url(filters: Vec<FilterSelection>, page: i32, url: &mut String)
    ensures
        final(url)@ == old(url)@ + compiled_url(filters.deep_view(), page as int),
{
    let ghost fs = filters.deep_view();
    url.append("https://mangapill.com");
    let mut is_searching = false;
    let mut query = String::new();
    let mut search_string = String::new();
    let mut i: usize = 0;
    while i < filters.len()
        invariant
            i <= fs.len(),
            url@ == old(url)@ + "https://mangapill.com"@,
            query@ == query_of(fs.take(i as int)),
            search_string@ == search_text_of(fs.take(i as int)),
            is_searching == any_searching(fs.take(i as int)),
        decreases fs.len() - i,
    {
        proof {
            assert(fs.take(i + 1).drop_last() =~= fs.take(i as int));
            assert(fs.take(i + 1).last() == fs[i as int]);
        }
        let ghost searching_before = any_searching(fs.take(i as int));
        match &filters[i] {
            FilterSelection::Title { value } => {
                let lowered = ascii_lowercase(value.as_str());
                let encoded = urlencode(lowered);
                search_string.append(encoded.as_str());
                is_searching = true;
            },
            FilterSelection::Genre { name } => {
                let lowered = ascii_lowercase(name.as_str());
                let encoded = urlencode(lowered);
                query.append("&genre=");
                query.append(encoded.as_str());
                is_searching = true;
            },
            FilterSelection::Select { name, index } => {
                if string_eq_literal(name, "Type") {
                    if 0 <= *index && *index <= 7 {
                        query.append("&type=");
                        if *index == 1 {
                            query.append("manga");
                        } else if *index == 2 {
                            query.append("novel");
                        } else if *index == 3 {
                            query.append("one-shot");
                        } else if *index == 4 {
                            query.append("doujinshi");
                        } else if *index == 5 {
                            query.append("manhwa");
                        } else if *index == 6 {
                            query.append("manhua");
                        } else if *index == 7 {
                            query.append("oel");
                        }
                        if *index > 0 {
                            is_searching = true;
                        }
                    }
                } else if string_eq_literal(name, "Status") {
                    if 0 <= *index && *index <= 5 {
                        query.append("&status=");
                        if *index == 1 {
                            query.append("publishing");
                        } else if *index == 2 {
                            query.append("finished");
                        } else if *index == 3 {
                            query.append("on+haitus");
                        } else if *index == 4 {
                            query.append("doujinshi");
                        } else if *index == 5 {
                            query.append("discontinued");
                        }
                        if *index > 0 {
                            is_searching = true;
                        }
                    }
                }
            },
        }
        proof {
            assert(query@ =~= query_of(fs.take(i + 1)));
            assert(search_string@ =~= search_text_of(fs.take(i + 1)));
            if is_searching && !searching_before {
                assert(filter_marks_searching(fs.take(i + 1)[i as int]));
            }
            if searching_before {
                let w = choose|k: int|
                    0 <= k < i && filter_marks_searching(#[trigger] fs.take(i as int)[k]);
                assert(filter_marks_searching(fs.take(i + 1)[w]));
            }
            if !is_searching {
                assert forall|k: int|
                    0 <= k < i + 1 implies !filter_marks_searching(
                    #[trigger] fs.take(i + 1)[k],
                ) by {
                    if k < i {
                        assert(fs.take(i as int)[k] == fs.take(i + 1)[k]);
                    }
                }
            }
        }
        i = i + 1;
    }
    proof {
        assert(fs.take(fs.len() as int) =~= fs);
    }
    if is_searching {
        url.append("/search?q=");
        url.append(search_string.as_str());
        url.append(query.as_str());
        url.append("&page=");
        let page_str = i32_to_string(page);
        url.append(page_str.as_str());
        proof {
            assert(url@ =~= old(url)@ + compiled_url(fs, page as int));
        }
    } else {
        proof {
            assert(url@ =~= old(url)@ + compiled_url(fs, page as int));
        }
    }
}

} // verus!
