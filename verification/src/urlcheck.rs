//! Syntactic screening of user-supplied URLs.
//!
//! Whether a string is an acceptable URL is decided by the url crate
//! behind a trusted wrapper; the batch rule — invalid entries are
//! skipped, the rest are kept in order — is verified.

use vstd::prelude::*;

verus! {

/// The url crate's verdict on a string: a function of the string
/// alone.
pub uninterp spec fn url_accepted(s: Seq<char>) -> bool;

/// Relies on url::Url::parse: whether the string parses as a URL; the
/// verdict depends on the characters alone.
#[verifier::external_body]
fn url_parse_ok(s: &str) -> (r: bool)
    ensures
        r == url_accepted(s@),
{
    url::Url::parse(s).is_ok()
}

/// Validates a URL.
pub fn is_valid_url(s: &str) -> (r: bool)
    ensures
        r == url_accepted(s@),
{
    url_parse_ok(s)
}

pub open spec fn views_of(s: Seq<String>) -> Seq<Seq<char>> {
    s.map_values(|x: String| x@)
}

/// The entries of a batch that pass validation, in order.
pub open spec fn accepted_urls(s: Seq<Seq<char>>) -> Seq<Seq<char>> {
    s.filter(|t: Seq<char>| url_accepted(t))
}

proof fn lemma_accepted_push(s: Seq<Seq<char>>, x: Seq<char>)
    ensures
        url_accepted(x) ==> accepted_urls(s.push(x)) == accepted_urls(s).push(x),
        !url_accepted(x) ==> accepted_urls(s.push(x)) == accepted_urls(s),
{
    reveal(Seq::filter);
    let q = s.push(x);
    assert(q.drop_last() =~= s);
    assert(q.last() == x);
}

/// Keep, in order, exactly the entries of a URL batch that pass
/// syntactic validation; the invalid ones are skipped, and the batch
/// goes on.
pub fn screen_urls(urls: &Vec<String>) -> (r: Vec<String>)
    ensures
        views_of(r@) == accepted_urls(views_of(urls@)),
{
    let mut out: Vec<String> = Vec::new();
    let mut i: usize = 0;
    proof {
        reveal(Seq::filter);
        assert(views_of(urls@.subrange(0, 0)) =~= Seq::<Seq<char>>::empty());
        assert(views_of(out@) =~= Seq::<Seq<char>>::empty());
        assert(accepted_urls(views_of(urls@.subrange(0, 0))).len() == 0);
        assert(views_of(out@) =~= accepted_urls(views_of(urls@.subrange(0, 0))));
    }
    while i < urls.len()
        invariant
            0 <= i <= urls.len(),
            views_of(out@) == accepted_urls(views_of(urls@.subrange(0, i as int))),
        decreases urls.len() - i,
    {
        let ghost pre = views_of(urls@.subrange(0, i as int));
        let ghost out_pre = views_of(out@);
        let u = &urls[i];
        let keep = is_valid_url(u.as_str());
        if keep {
            out.push(u.clone());
        }
        proof {
            lemma_accepted_push(pre, u@);
            assert(views_of(urls@.subrange(0, i + 1)) =~= pre.push(u@));
            if keep {
                assert(views_of(out@) =~= out_pre.push(u@));
            }
        }
        i = i + 1;
    }
    proof {
        assert(urls@.subrange(0, urls@.len() as int) =~= urls@);
    }
    out
}

} // verus!
