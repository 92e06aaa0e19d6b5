//! The shape of one batch-get round trip.
//!
//! A batch-get call resolves a list of ids against the table of questions in
//! a single round trip.  Every requested occurrence of an id resolves
//! independently: it lands in `responses` if the id is currently keyed in the
//! store, projected down to the three exposed attributes, or as a bare key
//! tuple under `unprocessed_keys` if it is not.  `unprocessed_keys` is
//! present only if at least one occurrence was left unresolved; its absence
//! is the store's signal that no follow-up call is owed.

use vstd::prelude::*;
use vstd::string::StringExecFns;

use crate::attr::AttrValue;
use crate::attr::AttrValueView;
use crate::attr::Record;
use crate::attr::RecordView;
use crate::attr::project_view;

use crate::qid::uuid_chars;
use crate::qid::uuid_string;

verus! {

/// Failures this core surfaces to its caller.  Ids absent from the store are
/// not an error: they are reported structurally through `unprocessed_keys`.
#[derive(Debug, PartialEq, Eq, Structural, Clone, Copy)]
pub enum StoreError {
    /// The remote call failed at the transport or service level.
    Unavailable,
    /// A record read from the store is missing one of the three exposed
    /// attributes or carries a wrongly typed value.
    DataIntegrity,
}

/// The records found for the one table this core queries, keyed by the
/// table's name.
#[derive(Debug, PartialEq)]
pub struct Responses {
    pub table: String,
    pub records: Vec<Record>,
}

/// Spec-level image of [`Responses`].
pub ghost struct ResponsesView {
    pub table: Seq<char>,
    pub records: Seq<RecordView>,
}

/// The keys a call left unresolved, to be resubmitted by the caller, with
/// the projection a continuation request would carry.
#[derive(Debug, PartialEq)]
pub struct UnprocessedKeys {
    pub table: String,
    pub keys: Vec<Record>,
    pub projection: String,
}

/// Spec-level image of [`UnprocessedKeys`].
pub ghost struct UnprocessedKeysView {
    pub table: Seq<char>,
    pub keys: Seq<RecordView>,
    pub projection: Seq<char>,
}

/// The uniform result of one batch-get round trip.
#[derive(Debug, PartialEq)]
pub struct BatchGetResult {
    pub responses: Responses,
    /// Present only if at least one requested occurrence was unresolved;
    /// absent — not empty — otherwise.
    pub unprocessed_keys: Option<UnprocessedKeys>,
}

/// Spec-level image of [`BatchGetResult`].
pub ghost struct BatchGetResultView {
    pub responses: ResponsesView,
    pub unprocessed_keys: Option<UnprocessedKeysView>,
}

/// The spec image of a list of records.
pub open spec fn records_view(rs: Seq<Record>) -> Seq<RecordView> {
    rs.map_values(|r: Record| r@)
}

/// Appending a record appends its image.
pub proof fn lemma_records_view_push(rs: Seq<Record>, r: Record)
    ensures
        records_view(rs.push(r)) == records_view(rs).push(r@),
{
    assert(records_view(rs.push(r)) =~= records_view(rs).push(r@));
}

impl View for Responses {
    type V = ResponsesView;

    open spec fn view(&self) -> ResponsesView {
        ResponsesView { table: self.table@, records: records_view(self.records@) }
    }
}

impl View for UnprocessedKeys {
    type V = UnprocessedKeysView;

    open spec fn view(&self) -> UnprocessedKeysView {
        UnprocessedKeysView {
            table: self.table@,
            keys: records_view(self.keys@),
            projection: self.projection@,
        }
    }
}

impl View for BatchGetResult {
    type V = BatchGetResultView;

    open spec fn view(&self) -> BatchGetResultView {
        BatchGetResultView {
            responses: self.responses@,
            unprocessed_keys: match self.unprocessed_keys {
                Some(u) => Some(u@),
                None => None,
            },
        }
    }
}

/// The name of the one table this core queries.
pub open spec fn questions_table() -> Seq<char> {
    "questions"@
}

/// The projection a continuation request carries: the key is already known
/// from the key tuple itself, so `id` is deliberately excluded.
pub open spec fn continuation_projection() -> Seq<char> {
    "text,when"@
}

/// The key tuple for one id: a single attribute, the id in its text form.
pub open spec fn key_tuple_view(qid: u128) -> RecordView {
    seq![("id"@, AttrValueView::S(uuid_chars(qid)))]
}

/// The key tuple for one id, as a record.
pub fn key_tuple(qid: u128) -> (r: Record)
    ensures
        r@ == key_tuple_view(qid),
{
    let mut r = Record::new();
    r.push_field(String::from_str("id"), AttrValue::S(uuid_string(qid)));
    proof {
        assert(r@ =~= key_tuple_view(qid));
    }
    r
}

/// The records a batch-get over `qids` finds in `table`: one per requested
/// occurrence of a present id, in request order, each projected down to the
/// exposed attributes.
pub open spec fn found_records(table: Map<u128, RecordView>, qids: Seq<u128>) -> Seq<RecordView>
    decreases qids.len(),
{
    if qids.len() == 0 {
        Seq::empty()
    } else {
        let rest = found_records(table, qids.drop_last());
        if table.contains_key(qids.last()) {
            rest.push(project_view(table[qids.last()]))
        } else {
            rest
        }
    }
}

/// The key tuples a batch-get over `qids` leaves unresolved: one per
/// requested occurrence of an absent id, in request order.
pub open spec fn absent_keys(table: Map<u128, RecordView>, qids: Seq<u128>) -> Seq<RecordView>
    decreases qids.len(),
{
    if qids.len() == 0 {
        Seq::empty()
    } else {
        let rest = absent_keys(table, qids.drop_last());
        if table.contains_key(qids.last()) {
            rest
        } else {
            rest.push(key_tuple_view(qids.last()))
        }
    }
}

/// The full result of one batch-get over `qids` against `table`: a pure
/// function of the store's current contents and the request.
pub open spec fn spec_batch_get(table: Map<u128, RecordView>, qids: Seq<u128>) -> BatchGetResultView {
    BatchGetResultView {
        responses: ResponsesView {
            table: questions_table(),
            records: found_records(table, qids),
        },
        unprocessed_keys: if absent_keys(table, qids).len() == 0 {
            None
        } else {
            Some(
                (UnprocessedKeysView {
                    table: questions_table(),
                    keys: absent_keys(table, qids),
                    projection: continuation_projection(),
                }),
            )
        },
    }
}

} // verus!
