//! The URL matcher: finds URL-shaped substrings in free text.

use vstd::prelude::*;

verus! {

/// One match the URL matcher reports: the matched substring and the byte
/// offset at which it starts.
#[derive(Debug)]
pub struct UrlMatch {
    pub text: String,
    pub start: usize,
}

impl View for UrlMatch {
    type V = (Seq<char>, int);

    open spec fn view(&self) -> (Seq<char>, int) {
        (self.text@, self.start as int)
    }
}

/// The ordered sequence of matches the URL matcher finds in a text: each
/// entry is the matched substring with its start offset.  The matcher is
/// deterministic, so this is a function of the text alone.
pub uninterp spec fn found_urls(text: Seq<char>) -> Seq<(Seq<char>, int)>;

/// Relies on linkify's `LinkFinder`, restricted to URL matches: it scans the
/// text and returns each URL-shaped substring together with its start
/// offset, in order of occurrence.
#[verifier::external_body]
pub fn find_urls(text: &str) -> (r: Vec<UrlMatch>)
    ensures
        r@.len() == found_urls(text@).len(),
        forall|i: int| 0 <= i < r@.len() ==> (#[trigger] r@[i])@ == found_urls(text@)[i],
{
    let mut finder = linkify::LinkFinder::new();
    finder.kinds(&[linkify::LinkKind::Url]);
    finder
        .links(text)
        .map(|l| UrlMatch { text: l.as_str().to_string(), start: l.start() })
        .collect()
}

/// Compares a string with a literal by contents.
pub fn str_is(s: &String, lit: &str) -> (r: bool)
    ensures
        r == (s@ == lit@),
{
    let owned: String = lit.to_owned();
    *s == owned
}

} // verus!
