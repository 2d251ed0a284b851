//! Title and body text of one HTML document.
use vstd::prelude::*;
use vstd::string::*;

verus! {

/// What the document parser and selector engine report for `selector` on
/// `document`: `None` when the selector does not parse, else one entry per
/// matching element in document order, each the element's descendant text
/// fragments in order.
pub uninterp spec fn selected_texts(document: Seq<char>, selector: Seq<char>) -> Option<
    Seq<Seq<Seq<char>>>,
>;

/// Relies on `scraper::Html::parse_document`, `scraper::Selector::parse`,
/// `Html::select` and `ElementRef::text`: the matches of a selector on a
/// parsed document, and the text fragments below each, are a function of the
/// document text and the selector text alone.
#[verifier::external_body]
fn select_texts(document: &str, selector: &str) -> (r: Option<Vec<Vec<String>>>)
    ensures
        r.deep_view() == selected_texts(document@, selector@),
{
    let doc = scraper::Html::parse_document(document);
    match scraper::Selector::parse(selector) {
        Ok(sel) => Some(doc.select(&sel).map(|e| e.text().map(String::from).collect()).collect()),
        Err(_) => None,
    }
}

/// Why a document yields no title and body.
#[derive(Debug, Clone, Copy, PartialEq, Eq, Structural)]
pub enum ExtractFailure {
    /// The selector engine refused one of the queries.
    SelectorRejected,
    /// No `head title` element, or one without text.
    MissingTitle,
}

/// The title and flattened body text of a document.
#[derive(Debug, Clone)]
pub struct Extracted {
    pub title: String,
    pub body: String,
}

pub open spec fn title_selector() -> Seq<char> {
    "head title"@
}

pub open spec fn body_selector() -> Seq<char> {
    "body,body *"@
}

/// All fragments of one element, concatenated.
pub open spec fn concat_all(frags: Seq<Seq<char>>) -> Seq<char>
    decreases frags.len(),
{
    if frags.len() == 0 {
        seq![]
    } else {
        concat_all(frags.drop_last()) + frags.last()
    }
}

/// The text of the first title match; `None` where there is no match or its
/// text is empty.
pub open spec fn title_of(matches: Seq<Seq<Seq<char>>>) -> Option<Seq<char>> {
    if matches.len() == 0 || concat_all(matches[0]).len() == 0 {
        None
    } else {
        Some(concat_all(matches[0]))
    }
}

/// The first fragment of each matched element, in order; an element with no
/// fragment adds nothing.
pub open spec fn first_fragments(matches: Seq<Seq<Seq<char>>>) -> Seq<char>
    decreases matches.len(),
{
    if matches.len() == 0 {
        seq![]
    } else {
        first_fragments(matches.drop_last()) + if matches.last().len() > 0 {
            matches.last()[0]
        } else {
            seq![]
        }
    }
}

/// What extraction yields for a document: `(title, body)` or the failure.
pub open spec fn extraction(document: Seq<char>, ignore_body: bool) -> Result<
    (Seq<char>, Seq<char>),
    ExtractFailure,
> {
    match selected_texts(document, title_selector()) {
        None => Err(ExtractFailure::SelectorRejected),
        Some(t) => match title_of(t) {
            None => Err(ExtractFailure::MissingTitle),
            Some(title) => if ignore_body {
                Ok((title, seq![]))
            } else {
                match selected_texts(document, body_selector()) {
                    None => Err(ExtractFailure::SelectorRejected),
                    Some(b) => Ok((title, first_fragments(b))),
                }
            },
        },
    }
}

/// Concatenates the fragments of one element.
pub fn join_fragments(frags: &Vec<String>) -> (r: String)
    ensures
        r@ == concat_all(frags.deep_view()),
{
    let mut out = String::new();
    let mut i: usize = 0;
    while i < frags.len()
        invariant
            i <= frags.len(),
            out@ == concat_all(frags.deep_view().take(i as int)),
        decreases frags.len() - i,
    {
        proof {
            assert(frags.deep_view().take(i + 1).drop_last() =~= frags.deep_view().take(i as int));
        }
        out.append(frags[i].as_str());
        i = i + 1;
    }
    proof {
        assert(frags.deep_view().take(i as int) =~= frags.deep_view());
    }
    out
}

/// The title from the matches of the title query.
pub fn title_from_matches(matches: &Vec<Vec<String>>) -> (r: Option<String>)
    ensures
        r.deep_view() == title_of(matches.deep_view()),
{
    if matches.len() == 0 {
        return None;
    }
    let t = join_fragments(&matches[0]);
    if t.as_str().unicode_len() == 0 {
        None
    } else {
        Some(t)
    }
}

/// The body text from the matches of the body query: the first fragment of
/// each element, in document order.
pub fn body_from_matches(matches: &Vec<Vec<String>>) -> (r: String)
    ensures
        r@ == first_fragments(matches.deep_view()),
{
    let mut out = String::new();
    let mut i: usize = 0;
    while i < matches.len()
        invariant
            i <= matches.len(),
            out@ == first_fragments(matches.deep_view().take(i as int)),
        decreases matches.len() - i,
    {
        proof {
            assert(matches.deep_view().take(i + 1).drop_last() =~= matches.deep_view().take(
                i as int,
            ));
        }
        if matches[i].len() > 0 {
            out.append(matches[i][0].as_str());
        } else {
            proof {
                assert(out@ + Seq::<char>::empty() =~= out@);
            }
        }
        i = i + 1;
    }
    proof {
        assert(matches.deep_view().take(i as int) =~= matches.deep_view());
    }
    out
}

/// Extracts the title and, unless `ignore_body`, the body text of a document.
pub fn extract(document: &str, ignore_body: bool) -> (r: Result<Extracted, ExtractFailure>)
    ensures
        match extraction(document@, ignore_body) {
            Ok((title, body)) => r is Ok && r->Ok_0.title@ == title && r->Ok_0.body@ == body,
            Err(e) => r == Err::<Extracted, ExtractFailure>(e),
        },
{
    let title = match select_texts(document, "head title") {
        None => return Err(ExtractFailure::SelectorRejected),
        Some(t) => match title_from_matches(&t) {
            None => return Err(ExtractFailure::MissingTitle),
            Some(title) => title,
        },
    };
    if ignore_body {
        return Ok(Extracted { title, body: String::new() });
    }
    match select_texts(document, "body,body *") {
        None => Err(ExtractFailure::SelectorRejected),
        Some(b) => Ok(Extracted { title, body: body_from_matches(&b) }),
    }
}

} // verus!
