//! Properties of an index as a whole.
use vstd::prelude::*;

use crate::document::document_json;
use crate::extract::{extraction, selected_texts, title_of, title_selector};
use crate::index::{
    CLOSE_BRACKET, Entry, ErrorKind, OPEN_BRACKET, Outcome, array_bytes, assembled, entry_fields,
    entry_outcome, entry_outcomes, index_of, lemma_failure_persists,
};
use crate::paths::indexable;
use vstd::utf8::encode_utf8;

verus! {

/// A tree in which no entry is an HTML file yields the empty array `[]`.
pub proof fn law_no_documents_empty_array(entries: Seq<Entry>, base: Seq<char>, ignore_body: bool)
    requires
        forall|i: int| 0 <= i < entries.len() ==> !indexable(#[trigger] entries[i].path@, entries[i].is_file),
    ensures
        index_of(entries, base, ignore_body) == Ok::<Seq<Seq<u8>>, (ErrorKind, Seq<char>)>(seq![]),
        array_bytes(seq![]) == seq![OPEN_BRACKET, CLOSE_BRACKET],
    decreases entries.len(),
{
    if entries.len() > 0 {
        let rest = entries.drop_last();
        law_no_documents_empty_array(rest, base, ignore_body);
        assert(entry_outcomes(entries, base, ignore_body).drop_last() =~= entry_outcomes(
            rest,
            base,
            ignore_body,
        ));
        assert(!indexable(entries[entries.len() - 1].path@, entries[entries.len() - 1].is_file));
    }
    assert(array_bytes(seq![]) =~= seq![OPEN_BRACKET, CLOSE_BRACKET]);
}

/// Where every entry becomes a document, the index holds exactly one
/// document per entry, in discovery order.
pub proof fn law_documents_in_discovery_order(
    entries: Seq<Entry>,
    base: Seq<char>,
    ignore_body: bool,
)
    requires
        forall|i: int|
            0 <= i < entries.len() ==> #[trigger] entry_outcome(entries[i], base, ignore_body) matches Ok(Some(_)),
    ensures
        index_of(entries, base, ignore_body) is Ok,
        index_of(entries, base, ignore_body)->Ok_0.len() == entries.len(),
        forall|i: int|
            0 <= i < entries.len() ==> Ok::<Option<Seq<u8>>, (ErrorKind, Seq<char>)>(Some(
                #[trigger] index_of(entries, base, ignore_body)->Ok_0[i],
            )) == entry_outcome(entries[i], base, ignore_body),
    decreases entries.len(),
{
    if entries.len() > 0 {
        let rest = entries.drop_last();
        assert forall|i: int| 0 <= i < rest.len() implies #[trigger] entry_outcome(
            rest[i],
            base,
            ignore_body,
        ) matches Ok(Some(_)) by {
            assert(rest[i] == entries[i]);
        }
        law_documents_in_discovery_order(rest, base, ignore_body);
        assert(entry_outcomes(entries, base, ignore_body).drop_last() =~= entry_outcomes(
            rest,
            base,
            ignore_body,
        ));
        let last = entries.len() - 1;
        assert(entry_outcome(entries[last], base, ignore_body) matches Ok(Some(_)));
        let items = index_of(entries, base, ignore_body)->Ok_0;
        assert forall|i: int| 0 <= i < entries.len() implies Ok::<Option<Seq<u8>>, (ErrorKind, Seq<char>)>(Some(#[trigger] items[i]))
            == entry_outcome(entries[i], base, ignore_body) by {
            if i < last {
                assert(rest[i] == entries[i]);
            }
        }
    }
}

/// Every document in an index comes from some entry of the traversal.
pub proof fn lemma_items_from_entries(outs: Seq<Outcome>)
    requires
        assembled(outs) is Ok,
    ensures
        forall|k: int|
            0 <= k < assembled(outs)->Ok_0.len() ==> exists|i: int|
                0 <= i < outs.len() && outs[i] == Ok::<Option<Seq<u8>>, (ErrorKind, Seq<char>)>(
                    Some(#[trigger] assembled(outs)->Ok_0[k]),
                ),
    decreases outs.len(),
{
    if outs.len() > 0 {
        let rest = outs.drop_last();
        lemma_items_from_entries(rest);
        let items = assembled(outs)->Ok_0;
        let before = assembled(rest)->Ok_0;
        assert forall|k: int| 0 <= k < items.len() implies exists|i: int|
            0 <= i < outs.len() && outs[i] == Ok::<Option<Seq<u8>>, (ErrorKind, Seq<char>)>(
                Some(#[trigger] items[k]),
            ) by {
            if k < before.len() {
                assert(items[k] == before[k]);
                let i = choose|i: int|
                    0 <= i < rest.len() && rest[i] == Ok::<
                        Option<Seq<u8>>,
                        (ErrorKind, Seq<char>),
                    >(Some(#[trigger] before[k]));
                assert(outs[i] == rest[i]);
            } else {
                assert(outs[outs.len() - 1] == Ok::<Option<Seq<u8>>, (ErrorKind, Seq<char>)>(
                    Some(items[k]),
                ));
            }
        }
    }
}

/// Whether `doc` is the JSON of a document whose body is empty.
pub open spec fn has_empty_body(doc: Seq<u8>) -> bool {
    exists|title: Seq<char>, url: Seq<char>|
        doc == encode_utf8(#[trigger] document_json(title, url, Seq::<char>::empty()))
}

/// With the body ignored, every document of the index has an empty body.
pub proof fn law_ignored_body_is_empty(entries: Seq<Entry>, base: Seq<char>)
    requires
        index_of(entries, base, true) is Ok,
    ensures
        forall|k: int|
            0 <= k < index_of(entries, base, true)->Ok_0.len() ==> has_empty_body(
                #[trigger] index_of(entries, base, true)->Ok_0[k],
            ),
{
    let outs = entry_outcomes(entries, base, true);
    lemma_items_from_entries(outs);
    let items = index_of(entries, base, true)->Ok_0;
    assert forall|k: int| 0 <= k < items.len() implies has_empty_body(#[trigger] items[k]) by {
        let i = choose|i: int|
            0 <= i < outs.len() && outs[i] == Ok::<Option<Seq<u8>>, (ErrorKind, Seq<char>)>(
                Some(#[trigger] items[k]),
            );
        let e = entries[i];
        let f = entry_fields(e, base, true)->Ok_0->0;
        assert(extraction(e.text->0@, true) is Ok ==> extraction(e.text->0@, true)->Ok_0.1
            == Seq::<char>::empty());
        assert(items[k] == encode_utf8(document_json(f.0, f.1, Seq::<char>::empty())));
    }
}

/// A readable HTML file without a title fails the whole run; where no
/// earlier entry failed, the failure is that missing title.
pub proof fn law_missing_title_fails_run(
    entries: Seq<Entry>,
    base: Seq<char>,
    ignore_body: bool,
    i: int,
)
    requires
        0 <= i < entries.len(),
        indexable(entries[i].path@, entries[i].is_file),
        entries[i].text is Some,
        selected_texts(entries[i].text->0@, title_selector()) matches Some(m) && title_of(m) is None,
    ensures
        index_of(entries, base, ignore_body) is Err,
        (forall|j: int| 0 <= j < i ==> #[trigger] entry_outcome(entries[j], base, ignore_body) is Ok)
            ==> index_of(entries, base, ignore_body) == Err::<
            Seq<Seq<u8>>,
            (ErrorKind, Seq<char>),
        >((ErrorKind::MissingTitle, entries[i].path@)),
{
    let outs = entry_outcomes(entries, base, ignore_body);
    assert(outs.take(i + 1).drop_last() =~= outs.take(i));
    assert(outs.take(i + 1).last() == outs[i]);
    assert(outs[i] == Err::<Option<Seq<u8>>, (ErrorKind, Seq<char>)>(
        (ErrorKind::MissingTitle, entries[i].path@),
    ));
    lemma_failure_persists(outs, i + 1);
    if forall|j: int| 0 <= j < i ==> #[trigger] entry_outcome(entries[j], base, ignore_body) is Ok {
        lemma_no_failure_before(outs, i);
    }
}

proof fn lemma_no_failure_before(outs: Seq<Outcome>, i: int)
    requires
        0 <= i <= outs.len(),
        forall|j: int| 0 <= j < i ==> #[trigger] outs[j] is Ok,
    ensures
        assembled(outs.take(i)) is Ok,
    decreases i,
{
    if i > 0 {
        lemma_no_failure_before(outs, i - 1);
        assert(outs.take(i).drop_last() =~= outs.take(i - 1));
        assert(outs.take(i).last() == outs[i - 1]);
    }
}

} // verus!
