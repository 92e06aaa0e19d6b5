//! The single wire call the remote adapter issues.
//!
//! Against the hosted store, a batch-get becomes one batch-get-item call:
//! one key tuple per requested id against the `questions` table, with the
//! returned attributes constrained to exactly `id`, `text` and `when`.  The
//! two aliased names stand in for `text` and `when`, which collide with
//! store-reserved words.  Building that request is pure; issuing it, and the
//! store's raw answer, belong to the caller holding the network client.

use vstd::prelude::*;
use vstd::string::StringExecFns;

use crate::attr::Record;
use crate::attr::RecordView;

use crate::batch::key_tuple;
use crate::batch::key_tuple_view;
use crate::batch::lemma_records_view_push;
use crate::batch::questions_table;
use crate::batch::records_view;

verus! {

/// One batch-get-item call, ready to be issued: the table name, one key
/// tuple per requested id, the field projection, and the aliases it needs.
#[derive(Debug)]
pub struct RemoteBatchRequest {
    pub table: String,
    pub keys: Vec<Record>,
    pub projection: String,
    pub attribute_names: Vec<(String, String)>,
}

/// The key tuples of a request: one per id, in request order.
pub open spec fn request_keys(qids: Seq<u128>) -> Seq<RecordView>
    decreases qids.len(),
{
    if qids.len() == 0 {
        Seq::empty()
    } else {
        request_keys(qids.drop_last()).push(key_tuple_view(qids.last()))
    }
}

/// A request carries exactly one key tuple per requested occurrence,
/// in request order.
pub proof fn lemma_request_keys_index(qids: Seq<u128>)
    ensures
        request_keys(qids).len() == qids.len(),
        forall|i: int|
            0 <= i < qids.len() ==> request_keys(qids)[i] == key_tuple_view(#[trigger] qids[i]),
    decreases qids.len(),
{
    if qids.len() > 0 {
        lemma_request_keys_index(qids.drop_last());
        assert forall|i: int|
            0 <= i < qids.len() implies request_keys(qids)[i] == key_tuple_view(
            #[trigger] qids[i],
        ) by {
            if i < qids.len() - 1 {
                assert(qids.drop_last()[i] == qids[i]);
                assert(request_keys(qids)[i] == request_keys(qids.drop_last())[i]);
            }
        }
    }
}

/// Build the one call the remote adapter issues for `qids`: each id as a
/// key tuple, the projection restricted to the three exposed attributes,
/// with `text` and `when` reached through aliases.
pub fn build_remote_request(qids: &Vec<u128>) -> (r: RemoteBatchRequest)
    ensures
        r.table@ == questions_table(),
        records_view(r.keys@) == request_keys(qids@),
        r.projection@ == "id,#text,#when"@,
        r.attribute_names@.len() == 2,
        r.attribute_names@[0].0@ == "#text"@,
        r.attribute_names@[0].1@ == "text"@,
        r.attribute_names@[1].0@ == "#when"@,
        r.attribute_names@[1].1@ == "when"@,
{
    let mut keys: Vec<Record> = Vec::new();
    let mut i: usize = 0;
    while i < qids.len()
        invariant
            0 <= i <= qids.len(),
            records_view(keys@) == request_keys(qids@.take(i as int)),
        decreases qids.len() - i,
    {
        proof {
            assert(qids@.take(i as int + 1).drop_last() =~= qids@.take(i as int));
            assert(qids@.take(i as int + 1).last() == qids@[i as int]);
        }
        let k = key_tuple(qids[i]);
        let ghost kg = k;
        let ghost prev = keys@;
        keys.push(k);
        proof {
            lemma_records_view_push(prev, kg);
        }
        i += 1;
    }
    proof {
        assert(qids@.take(qids@.len() as int) =~= qids@);
    }
    let mut attribute_names: Vec<(String, String)> = Vec::new();
    attribute_names.push((String::from_str("#text"), String::from_str("text")));
    attribute_names.push((String::from_str("#when"), String::from_str("when")));
    RemoteBatchRequest {
        table: String::from_str("questions"),
        keys,
        projection: String::from_str("id,#text,#when"),
        attribute_names,
    }
}

} // verus!
