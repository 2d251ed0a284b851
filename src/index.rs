//! Turning the entries of one traversal into an ordered index.
use vstd::prelude::*;
use vstd::string::*;
use vstd::utf8::encode_utf8;
use rayon::iter::{IntoParallelRefIterator, ParallelIterator};

use crate::document::{Item, document_json, parsed_url};
use crate::extract::{ExtractFailure, extract, extraction};
use crate::paths::{compose_url, composed_url, indexable, is_indexable};

verus! {

/// One entry of the traversal, in discovery order.
#[derive(Debug, Clone)]
pub struct Entry {
    /// The entry's path as the traversal reported it.
    pub path: String,
    /// Whether the entry is a regular file.
    pub is_file: bool,
    /// The file's text, where it was read; `None` where it could not be.
    pub text: Option<String>,
}

/// The kinds of failure that abort a run.
#[derive(Debug, Clone, Copy, PartialEq, Eq, Structural)]
pub enum ErrorKind {
    /// A path under the root could not be walked.
    Traversal,
    /// An indexable file could not be read as text.
    Unreadable,
    /// The selector engine refused a query.
    SelectorRejected,
    /// A document has no title.
    MissingTitle,
    /// A composed URL does not parse.
    InvalidUrl,
    /// The index could not be written out.
    Output,
}

/// A failure of the run, with the path or URL it concerns.
#[derive(Debug, Clone)]
pub struct IndexError {
    pub kind: ErrorKind,
    pub subject: String,
}

/// An entry's outcome in the model: its document, nothing, or a failure.
pub type Outcome = Result<Option<Seq<u8>>, (ErrorKind, Seq<char>)>;

pub open spec fn failure_kind(f: ExtractFailure) -> ErrorKind {
    match f {
        ExtractFailure::SelectorRejected => ErrorKind::SelectorRejected,
        ExtractFailure::MissingTitle => ErrorKind::MissingTitle,
    }
}

/// The `(title, url, body)` of the document an entry becomes, `None` for a
/// skipped entry.
pub open spec fn entry_fields(e: Entry, base: Seq<char>, ignore_body: bool) -> Result<
    Option<(Seq<char>, Seq<char>, Seq<char>)>,
    (ErrorKind, Seq<char>),
> {
    if !indexable(e.path@, e.is_file) {
        Ok(None)
    } else {
        match e.text {
            None => Err((ErrorKind::Unreadable, e.path@)),
            Some(t) => match extraction(t@, ignore_body) {
                Err(f) => Err((failure_kind(f), e.path@)),
                Ok((title, body)) => {
                    let u = composed_url(base, e.path@);
                    match parsed_url(u) {
                        None => Err((ErrorKind::InvalidUrl, u)),
                        Some(n) => Ok(Some((title, n, body))),
                    }
                },
            },
        }
    }
}

/// The UTF-8 bytes of the JSON object that an entry contributes.
pub open spec fn entry_outcome(e: Entry, base: Seq<char>, ignore_body: bool) -> Outcome {
    match entry_fields(e, base, ignore_body) {
        Err(x) => Err(x),
        Ok(None) => Ok(None),
        Ok(Some((t, u, b))) => Ok(Some(encode_utf8(document_json(t, u, b)))),
    }
}

pub open spec fn outcome_view(r: Result<Option<Vec<u8>>, IndexError>) -> Outcome {
    match r {
        Ok(None) => Ok(None),
        Ok(Some(v)) => Ok(Some(v@)),
        Err(e) => Err((e.kind, e.subject@)),
    }
}

/// Folds outcomes in order: the documents of the successful entries, or the
/// first failure.
pub open spec fn assembled(outs: Seq<Outcome>) -> Result<Seq<Seq<u8>>, (ErrorKind, Seq<char>)>
    decreases outs.len(),
{
    if outs.len() == 0 {
        Ok(seq![])
    } else {
        match assembled(outs.drop_last()) {
            Err(x) => Err(x),
            Ok(items) => match outs.last() {
                Err(x) => Err(x),
                Ok(None) => Ok(items),
                Ok(Some(b)) => Ok(items.push(b)),
            },
        }
    }
}

pub open spec fn entry_outcomes(entries: Seq<Entry>, base: Seq<char>, ignore_body: bool) -> Seq<
    Outcome,
> {
    entries.map_values(|e: Entry| entry_outcome(e, base, ignore_body))
}

/// The index that a traversal yields: the documents in discovery order, or
/// the first failure in that order.
pub open spec fn index_of(entries: Seq<Entry>, base: Seq<char>, ignore_body: bool) -> Result<
    Seq<Seq<u8>>,
    (ErrorKind, Seq<char>),
> {
    assembled(entry_outcomes(entries, base, ignore_body))
}

/// Processes one entry: skips it, or yields its document as JSON bytes.
pub fn index_entry(entry: &Entry, base: &str, ignore_body: bool) -> (r: Result<
    Option<Vec<u8>>,
    IndexError,
>)
    ensures
        outcome_view(r) == entry_outcome(*entry, base@, ignore_body),
{
    if !is_indexable(entry.path.as_str(), entry.is_file) {
        return Ok(None);
    }
    let text = match &entry.text {
        None => {
            return Err(IndexError { kind: ErrorKind::Unreadable, subject: entry.path.clone() });
        },
        Some(t) => t,
    };
    let found = match extract(text.as_str(), ignore_body) {
        Err(f) => {
            let kind = match f {
                ExtractFailure::SelectorRejected => ErrorKind::SelectorRejected,
                ExtractFailure::MissingTitle => ErrorKind::MissingTitle,
            };
            return Err(IndexError { kind, subject: entry.path.clone() });
        },
        Ok(x) => x,
    };
    let url = compose_url(base, entry.path.as_str());
    match Item::new(found.title.as_str(), url.as_str(), found.body.as_str()) {
        Err(_) => Err(IndexError { kind: ErrorKind::InvalidUrl, subject: url }),
        Ok(item) => Ok(Some(item.to_json().as_str().as_bytes_vec())),
    }
}

/// Relies on rayon's `par_iter().map(..).collect()` into a `Vec`: each
/// result stands at the position of its entry, whichever worker finished
/// first. The work on each entry is `index_entry`.
#[verifier::external_body]
fn index_all(entries: &Vec<Entry>, base: &str, ignore_body: bool) -> (r: Vec<
    Result<Option<Vec<u8>>, IndexError>,
>)
    ensures
        r@.len() == entries@.len(),
        forall|i: int|
            0 <= i < r@.len() ==> outcome_view(#[trigger] r@[i]) == entry_outcome(
                entries@[i],
                base@,
                ignore_body,
            ),
{
    entries.par_iter().map(|e| index_entry(e, base, ignore_body)).collect()
}

/// `[` in ASCII.
pub const OPEN_BRACKET: u8 = 91;

/// `]` in ASCII.
pub const CLOSE_BRACKET: u8 = 93;

/// `,` in ASCII.
pub const COMMA: u8 = 44;

/// An ordered collection of serialised documents.
#[derive(Debug, Clone)]
pub struct Index {
    /// One JSON object per indexed document, in discovery order.
    pub items: Vec<Vec<u8>>,
}

/// The items joined by commas.
pub open spec fn joined(items: Seq<Seq<u8>>) -> Seq<u8>
    decreases items.len(),
{
    if items.len() == 0 {
        seq![]
    } else if items.len() == 1 {
        items[0]
    } else {
        joined(items.drop_last()) + seq![COMMA] + items.last()
    }
}

/// The items as one JSON array: `[`, the items joined by commas, `]`.
pub open spec fn array_bytes(items: Seq<Seq<u8>>) -> Seq<u8> {
    seq![OPEN_BRACKET] + joined(items) + seq![CLOSE_BRACKET]
}

/// Once a prefix of the outcomes fails, the fold keeps that failure.
pub proof fn lemma_failure_persists(outs: Seq<Outcome>, i: int)
    requires
        0 <= i <= outs.len(),
        assembled(outs.take(i)) is Err,
    ensures
        assembled(outs) == assembled(outs.take(i)),
    decreases outs.len() - i,
{
    if i < outs.len() {
        assert(outs.take(i + 1).drop_last() =~= outs.take(i));
        lemma_failure_persists(outs, i + 1);
    } else {
        assert(outs.take(i) =~= outs);
    }
}

impl Index {
    /// The index as the bytes of one JSON array.
    pub fn to_bytes(&self) -> (r: Vec<u8>)
        ensures
            r@ == array_bytes(self.items.deep_view()),
    {
        let mut out: Vec<u8> = Vec::new();
        out.push(OPEN_BRACKET);
        let mut i: usize = 0;
        while i < self.items.len()
            invariant
                i <= self.items.len(),
                out@ == seq![OPEN_BRACKET] + joined(self.items.deep_view().take(i as int)),
            decreases self.items.len() - i,
        {
            let ghost before = out@;
            let ghost prefix = self.items.deep_view().take(i as int);
            let ghost next = self.items.deep_view().take(i + 1);
            assert(next.drop_last() =~= prefix);
            if i > 0 {
                out.push(COMMA);
            }
            let item = &self.items[i];
            let mut j: usize = 0;
            while j < item.len()
                invariant
                    j <= item.len(),
                    item == &self.items[i as int],
                    out@ == before + (if i > 0 { seq![COMMA] } else { seq![] }) + item@.take(j as int),
                decreases item.len() - j,
            {
                out.push(item[j]);
                assert(item@.take(j + 1) =~= item@.take(j as int).push(item@[j as int]));
                j = j + 1;
            }
            assert(item@.take(j as int) =~= item@);
            assert(self.items.deep_view()[i as int] == item@);
            if i == 0 {
                assert(next =~= seq![item@]);
                assert(out@ =~= seq![OPEN_BRACKET] + joined(next));
            } else {
                assert(out@ =~= seq![OPEN_BRACKET] + joined(next));
            }
            i = i + 1;
        }
        assert(self.items.deep_view().take(i as int) =~= self.items.deep_view());
        out.push(CLOSE_BRACKET);
        assert(out@ =~= array_bytes(self.items.deep_view()));
        out
    }
}

/// Builds the index of a traversal's entries: each entry is processed on a
/// worker pool, and the documents come out in discovery order. The run fails
/// with the first failure in that order.
pub fn build_index(entries: &Vec<Entry>, base: &str, ignore_body: bool) -> (r: Result<
    Index,
    IndexError,
>)
    ensures
        match index_of(entries@, base@, ignore_body) {
            Ok(items) => r is Ok && r->Ok_0.items.deep_view() == items,
            Err((kind, subject)) => r is Err && r->Err_0.kind == kind && r->Err_0.subject@
                == subject,
        },
{
    let outs = index_all(entries, base, ignore_body);
    let ghost model = entry_outcomes(entries@, base@, ignore_body);
    assert(outs@.map_values(|o: Result<Option<Vec<u8>>, IndexError>| outcome_view(o)) =~= model);
    let mut items: Vec<Vec<u8>> = Vec::new();
    let mut i: usize = 0;
    assert(model.take(0) =~= Seq::<Outcome>::empty());
    assert(items.deep_view() =~= Seq::<Seq<u8>>::empty());
    assert forall|k: int| 0 <= k < outs@.len() implies outcome_view(#[trigger] outs@[k])
        == model[k] by {
        assert(outcome_view(outs@[k]) == entry_outcome(entries@[k], base@, ignore_body));
    }
    while i < outs.len()
        invariant
            i <= outs.len(),
            outs@.len() == model.len(),
            model == entry_outcomes(entries@, base@, ignore_body),
            forall|k: int| 0 <= k < outs@.len() ==> outcome_view(#[trigger] outs@[k]) == model[k],
            assembled(model.take(i as int)) == Ok::<Seq<Seq<u8>>, (ErrorKind, Seq<char>)>(
                items.deep_view(),
            ),
        decreases outs.len() - i,
    {
        assert(model.take(i + 1).drop_last() =~= model.take(i as int));
        assert(model.take(i + 1).last() == model[i as int]);
        assert(outcome_view(outs@[i as int]) == model[i as int]);
        match &outs[i] {
            Err(e) => {
                let err = IndexError { kind: e.kind, subject: e.subject.clone() };
                proof {
                    assert(assembled(model.take(i + 1)) == Err::<Seq<Seq<u8>>, (ErrorKind, Seq<char>)>(
                        (e.kind, e.subject@),
                    ));
                    lemma_failure_persists(model, i + 1);
                }
                return Err(err);
            },
            Ok(None) => {},
            Ok(Some(b)) => {
                let ghost old_items = items.deep_view();
                let c = b.clone();
                assert(c@ =~= b@);
                assert(c.deep_view() =~= b@);
                items.push(c);
                assert(items.deep_view() =~= old_items.push(b@));
            },
        }
        i = i + 1;
    }
    assert(model.take(i as int) =~= model);
    Ok(Index { items })
}

} // verus!
