//! One indexed document, its URL check and its JSON form.
use vstd::prelude::*;
use vstd::string::*;

verus! {

#[verifier::external_type_specification]
#[verifier::external_body]
pub struct ExParseError(url::ParseError);

#[verifier::external_type_specification]
#[verifier::external_body]
pub struct ExJsonError(serde_json::Error);

/// The normalised serialisation of `s` as a URL, or `None` where `s` is not
/// a valid absolute URL.
pub uninterp spec fn parsed_url(s: Seq<char>) -> Option<Seq<char>>;

/// The JSON string literal that stands for `s`, quotes and escapes included.
pub uninterp spec fn json_quoted(s: Seq<char>) -> Seq<char>;

/// Relies on `url::Url::parse` and the URL's `Display`: parsing succeeds or
/// fails on the text alone, and its serialisation parses again to itself
/// (`Url::check_invariants` asserts this of every parsed URL).
#[verifier::external_body]
fn parse_url(s: &str) -> (r: Result<String, url::ParseError>)
    ensures
        r is Ok <==> parsed_url(s@) is Some,
        r is Ok ==> r->Ok_0@ == parsed_url(s@)->0,
        r is Ok ==> parsed_url(r->Ok_0@) == Some(r->Ok_0@),
{
    url::Url::parse(s).map(|u| u.to_string())
}

/// Relies on `serde_json::to_string` on a string: it writes the escaped
/// literal into a `Vec<u8>`, which cannot fail.
#[verifier::external_body]
fn quote_json(s: &str) -> (r: Result<String, serde_json::Error>)
    ensures
        r is Ok,
        r->Ok_0@ == json_quoted(s@),
{
    serde_json::to_string(s)
}

/// An indexed page.
#[derive(Debug, Clone)]
pub struct Item {
    /// The title of the page.
    pub title: String,
    /// The normalised URL of the page.
    pub url: String,
    /// The text of the page.
    pub body: String,
}

/// The pretty-printed JSON object for a document: the fields `title`, `url`
/// and `body` in that order, indented by two spaces.
pub open spec fn document_json(title: Seq<char>, url: Seq<char>, body: Seq<char>) -> Seq<char> {
    "{\n  \"title\": "@ + json_quoted(title) + ",\n  \"url\": "@ + json_quoted(url) + ",\n  \"body\": "@
        + json_quoted(body) + "\n}"@
}

/// The human-readable rendering of a document.
pub open spec fn document_text(title: Seq<char>, url: Seq<char>, body: Seq<char>) -> Seq<char> {
    "{\n            title: "@ + title + ",\n            url: "@ + url + ",\n            body: "@ + body
        + "\n        }"@
}

fn quoted(s: &str) -> (r: String)
    ensures
        r@ == json_quoted(s@),
{
    match quote_json(s) {
        Ok(q) => q,
        Err(_) => String::new(),
    }
}

impl Item {
    /// A document whose URL is `url` parsed and normalised; fails exactly
    /// where `url` is not a valid URL.
    pub fn new(title: &str, url: &str, body: &str) -> (r: Result<Item, url::ParseError>)
        ensures
            r is Ok <==> parsed_url(url@) is Some,
            r is Ok ==> r->Ok_0.title@ == title@ && r->Ok_0.body@ == body@ && r->Ok_0.url@
                == parsed_url(url@)->0,
            r is Ok ==> parsed_url(r->Ok_0.url@) == Some(r->Ok_0.url@),
    {
        match parse_url(url) {
            Ok(u) => Ok(Item { title: String::from_str(title), url: u, body: String::from_str(body) }),
            Err(e) => Err(e),
        }
    }

    /// The document as a pretty-printed JSON object.
    pub fn to_json(&self) -> (r: String)
        ensures
            r@ == document_json(self.title@, self.url@, self.body@),
    {
        let mut out = String::from_str("{\n  \"title\": ");
        out.append(quoted(self.title.as_str()).as_str());
        out.append(",\n  \"url\": ");
        out.append(quoted(self.url.as_str()).as_str());
        out.append(",\n  \"body\": ");
        out.append(quoted(self.body.as_str()).as_str());
        out.append("\n}");
        proof {
            assert(out@ =~= document_json(self.title@, self.url@, self.body@));
        }
        out
    }

    /// The document rendered as text for people to read.
    pub fn display_text(&self) -> (r: String)
        ensures
            r@ == document_text(self.title@, self.url@, self.body@),
    {
        let mut out = String::from_str("{\n            title: ");
        out.append(self.title.as_str());
        out.append(",\n            url: ");
        out.append(self.url.as_str());
        out.append(",\n            body: ");
        out.append(self.body.as_str());
        out.append("\n        }");
        proof {
            assert(out@ =~= document_text(self.title@, self.url@, self.body@));
        }
        out
    }
}

} // verus!
