//! The incoming-URL canonicalizer: maps a full item or chapter URL to the
//! stable internal identifier `/manga/{mangaId}/{slug}`.
use crate::models::ExtractError;
use crate::text::chars_vec;
use crate::text::contains_chars;
use crate::text::contains_seq;
use crate::text::last_pos;
use crate::text::lemma_last_pos_bounds;
use crate::text::rfind_char;
use crate::text::string_from_chars;
use crate::text::sub_chars;
use vstd::prelude::*;
use vstd::string::StringExecFns;

verus! {

/// The prefix of `s` before its first `-`: the whole of `s` when `-` is
/// absent.
pub open spec fn up_to_dash(s: Seq<char>) -> Seq<char>
    decreases s.len(),
{
    if s.len() == 0 {
        s
    } else if s[0] == '-' {
        Seq::empty()
    } else {
        seq![s[0]] + up_to_dash(s.skip(1))
    }
}

/// Canonical internal identifier of an incoming URL with at least one
/// path separator: `/manga/` + the title identifier + `/` + the final
/// segment. For a chapter URL the title identifier is the part of the
/// second-to-last segment before its first `-`; otherwise it is that
/// segment whole.
pub open spec fn canonical_manga_id(url: Seq<char>) -> Seq<char>
    recommends
        last_pos(url, '/') >= 0,
{
    let j = last_pos(url, '/');
    let slug = url.skip(j + 1);
    let head = url.take(j);
    let seg = head.skip(last_pos(head, '/') + 1);
    let title_id = if contains_seq(url, "/chapters/"@) {
        up_to_dash(seg)
    } else {
        seg
    };
    "/manga/"@ + title_id + "/"@ + slug
}

/// Copy the prefix of `v` before its first `-`.
fn take_until_dash(v: &Vec<char>) -> (r: Vec<char>)
    ensures
        r@ == up_to_dash(v@),
{
    let mut out: Vec<char> = Vec::new();
    let mut i: usize = 0;
    proof {
        assert(v@.skip(0) =~= v@);
        assert(out@ + up_to_dash(v@) =~= up_to_dash(v@));
    }
    while i < v.len()
        invariant
            i <= v@.len(),
            up_to_dash(v@) == out@ + up_to_dash(v@.skip(i as int)),
        decreases v@.len() - i,
    {
        if v[i] == '-' {
            proof {
                assert(up_to_dash(v@.skip(i as int)) =~= Seq::<char>::empty());
                assert(up_to_dash(v@) =~= out@);
            }
            return out;
        }
        out.push(v[i]);
        proof {
            assert(v@.skip(i as int).skip(1) =~= v@.skip(i + 1));
            assert(up_to_dash(v@.skip(i as int)) =~= seq![v@[i as int]] + up_to_dash(
                v@.skip(i + 1),
            ));
            assert(out@ + up_to_dash(v@.skip(i + 1)) =~= up_to_dash(v@));
        }
        i = i + 1;
    }
    proof {
        assert(v@.skip(v@.len() as int) =~= Seq::<char>::empty());
        assert(out@ =~= up_to_dash(v@));
    }
    out
}

/// Canonicalize an incoming item or chapter URL to the identifier shape
/// `/manga/{mangaId}/{slug}`. A URL without a path separator does not
/// match either expected shape and is rejected as malformed.
pub fn parse_incoming_url(url: String) -> (r: Result<String, ExtractError>)
    ensures
        r is Ok <==> last_pos(url@, '/') >= 0,
        r is Ok ==> r->Ok_0@ == canonical_manga_id(url@),
        r is Err ==> r->Err_0 == ExtractError::MalformedUrl,
{
    let cs = chars_vec(url.as_str());
    proof {
        assert(cs@.take(cs@.len() as int) =~= url@);
    }
    let j = match rfind_char(&cs, cs.len(), '/') {
        Some(j) => j,
        None => {
            return Err(ExtractError::MalformedUrl);
        },
    };
    let slug = sub_chars(&cs, j + 1, cs.len());
    proof {
        assert(slug@ =~= url@.skip(j + 1));
    }
    let head_end = match rfind_char(&cs, j, '/') {
        Some(k) => k + 1,
        None => 0,
    };
    proof {
        lemma_last_pos_bounds(cs@.take(j as int), '/');
        assert(head_end as int == last_pos(cs@.take(j as int), '/') + 1);
        assert(cs@.take(j as int).skip(last_pos(cs@.take(j as int), '/') + 1) =~= cs@.subrange(
            head_end as int,
            j as int,
        ));
    }
    let seg = sub_chars(&cs, head_end, j);
    let marker = chars_vec("/chapters/");
    let title_id = if contains_chars(&cs, &marker) {
        take_until_dash(&seg)
    } else {
        seg
    };
    let mut out = String::from_str("/manga/");
    let title_str = string_from_chars(&title_id);
    out.append(title_str.as_str());
    out.append("/");
    let slug_str = string_from_chars(&slug);
    out.append(slug_str.as_str());
    proof {
        assert(out@ =~= canonical_manga_id(url@));
    }
    Ok(out)
}

} // verus!
