//! The guarantees of one batch-get round, proved once and for all.
//!
//! [`crate::store::MockTable::batch_get`] pins its result to
//! [`crate::batch::spec_batch_get`]; the proofs here state what that result
//! shape guarantees for every store and every request: full batches resolve
//! without leftovers, absent ids come back as key tuples and nothing else
//! does, the two partitions cover the request exactly, the result is a pure
//! function of store and request, and a freshly written record is read back
//! projected but intact.

use vstd::prelude::*;

use crate::attr::AttrValueView;
use crate::attr::RecordView;
use crate::attr::core_name;
use crate::attr::distinct_names;
use crate::attr::project_view;
use crate::attr::spec_lookup;

use crate::batch::BatchGetResultView;
use crate::batch::absent_keys;
use crate::batch::found_records;
use crate::batch::key_tuple_view;
use crate::batch::spec_batch_get;

verus! {

/// Looking a name up in a record extended at the back: an earlier attribute
/// of the same name wins, else the new one answers.
pub proof fn lemma_lookup_push(s: RecordView, x: (Seq<char>, AttrValueView), name: Seq<char>)
    ensures
        spec_lookup(s.push(x), name) == (if spec_lookup(s, name) is Some {
            spec_lookup(s, name)
        } else if x.0 == name {
            Some(x.1)
        } else {
            None::<AttrValueView>
        }),
    decreases s.len(),
{
    if s.len() == 0 {
        assert(s.push(x) =~= seq![x]);
        assert(seq![x].drop_first() =~= Seq::<(Seq<char>, AttrValueView)>::empty());
    } else {
        assert(s.push(x).drop_first() =~= s.drop_first().push(x));
        assert(s.push(x).first() == s.first());
        lemma_lookup_push(s.drop_first(), x, name);
    }
}

/// A projected record carries no attribute beyond the three exposed names.
pub proof fn lemma_project_names(rec: RecordView)
    ensures
        forall|j: int|
            0 <= j < project_view(rec).len() ==> core_name(#[trigger] project_view(rec)[j].0),
    decreases rec.len(),
{
    if rec.len() > 0 {
        let d = rec.drop_last();
        lemma_project_names(d);
        assert forall|j: int|
            0 <= j < project_view(rec).len() implies core_name(
            #[trigger] project_view(rec)[j].0,
        ) by {
            let pd = project_view(d);
            if core_name(rec.last().0) {
                if j < pd.len() {
                    assert(project_view(rec)[j] == pd[j]);
                } else {
                    assert(project_view(rec)[j] == rec.last());
                }
            } else {
                assert(project_view(rec)[j] == pd[j]);
            }
        }
    }
}

/// Every attribute of a projected record is one of the full record's.
pub proof fn lemma_project_membership(rec: RecordView)
    ensures
        forall|j: int|
            0 <= j < project_view(rec).len() ==> rec.contains(#[trigger] project_view(rec)[j]),
    decreases rec.len(),
{
    if rec.len() > 0 {
        let d = rec.drop_last();
        lemma_project_membership(d);
        assert forall|j: int|
            0 <= j < project_view(rec).len() implies rec.contains(
            #[trigger] project_view(rec)[j],
        ) by {
            let pd = project_view(d);
            if core_name(rec.last().0) && j == pd.len() {
                assert(project_view(rec)[j] == rec.last());
                assert(rec[rec.len() - 1] == rec.last());
            } else {
                assert(project_view(rec)[j] == pd[j]);
                let i = choose|i: int| 0 <= i < d.len() && d[i] == pd[j];
                assert(rec[i] == pd[j]);
            }
        }
    }
}

/// Projecting a well-formed record leaves a well-formed record: one
/// attribute per exposed name, no duplicates.
pub proof fn lemma_project_distinct(rec: RecordView)
    requires
        distinct_names(rec),
    ensures
        distinct_names(project_view(rec)),
    decreases rec.len(),
{
    if rec.len() > 0 {
        let d = rec.drop_last();
        assert(distinct_names(d));
        lemma_project_distinct(d);
        if core_name(rec.last().0) {
            let pd = project_view(d);
            lemma_project_membership(d);
            assert forall|j: int| 0 <= j < pd.len() implies pd[j].0 != rec.last().0 by {
                let i = choose|i: int| 0 <= i < d.len() && d[i] == pd[j];
                assert(rec[i] == d[i]);
                assert(rec[i].0 != rec[rec.len() - 1].0);
            }
        }
    }
}

/// Projection keeps each of the three exposed attributes exactly as stored:
/// looking one of them up in the projection answers as the full record does.
pub proof fn lemma_project_preserves_lookup(rec: RecordView, name: Seq<char>)
    requires
        core_name(name),
    ensures
        spec_lookup(project_view(rec), name) == spec_lookup(rec, name),
    decreases rec.len(),
{
    if rec.len() > 0 {
        let d = rec.drop_last();
        lemma_project_preserves_lookup(d, name);
        assert(rec =~= d.push(rec.last()));
        lemma_lookup_push(d, rec.last(), name);
        if core_name(rec.last().0) {
            lemma_lookup_push(project_view(d), rec.last(), name);
        } else {
            assert(rec.last().0 != name);
        }
    }
}

/// A batch whose ids are all currently keyed resolves completely: one
/// projected record per requested occurrence, in request order, and no
/// unprocessed keys at all.
pub proof fn lemma_batch_get_all_present(table: Map<u128, RecordView>, qids: Seq<u128>)
    requires
        forall|i: int| 0 <= i < qids.len() ==> table.contains_key(#[trigger] qids[i]),
    ensures
        absent_keys(table, qids).len() == 0,
        found_records(table, qids).len() == qids.len(),
        forall|i: int|
            0 <= i < qids.len() ==> found_records(table, qids)[i] == project_view(
                table[#[trigger] qids[i]],
            ),
        spec_batch_get(table, qids).unprocessed_keys is None,
    decreases qids.len(),
{
    if qids.len() > 0 {
        let prefix = qids.drop_last();
        assert forall|i: int| 0 <= i < prefix.len() implies table.contains_key(
            #[trigger] prefix[i],
        ) by {
            assert(prefix[i] == qids[i]);
        }
        lemma_batch_get_all_present(table, prefix);
        assert(table.contains_key(qids.last()));
        assert forall|i: int|
            0 <= i < qids.len() implies found_records(table, qids)[i] == project_view(
            table[#[trigger] qids[i]],
        ) by {
            if i < qids.len() - 1 {
                assert(prefix[i] == qids[i]);
                assert(found_records(table, qids)[i] == found_records(table, prefix)[i]);
            }
        }
    }
}

/// Every requested occurrence resolves independently and lands on exactly
/// one side: present ids appear projected among the responses, absent ids
/// as bare key tuples among the unprocessed keys, nothing appears anywhere
/// else, and the two sides together cover the request, duplicates counted
/// per occurrence.
pub proof fn lemma_batch_get_partition(table: Map<u128, RecordView>, qids: Seq<u128>)
    ensures
        found_records(table, qids).len() + absent_keys(table, qids).len() == qids.len(),
        forall|i: int|
            0 <= i < qids.len() && !table.contains_key(#[trigger] qids[i]) ==> absent_keys(
                table,
                qids,
            ).contains(key_tuple_view(qids[i])),
        forall|i: int|
            0 <= i < qids.len() && table.contains_key(#[trigger] qids[i]) ==> found_records(
                table,
                qids,
            ).contains(project_view(table[qids[i]])),
        forall|j: int|
            #![trigger absent_keys(table, qids)[j]]
            0 <= j < absent_keys(table, qids).len() ==> exists|i: int|
                0 <= i < qids.len() && !table.contains_key(#[trigger] qids[i]) && absent_keys(
                    table,
                    qids,
                )[j] == key_tuple_view(qids[i]),
        forall|j: int|
            #![trigger found_records(table, qids)[j]]
            0 <= j < found_records(table, qids).len() ==> exists|i: int|
                0 <= i < qids.len() && table.contains_key(#[trigger] qids[i]) && found_records(
                    table,
                    qids,
                )[j] == project_view(table[qids[i]]),
    decreases qids.len(),
{
    if qids.len() > 0 {
        let prefix = qids.drop_last();
        let last = qids.last();
        lemma_batch_get_partition(table, prefix);
        let fp = found_records(table, prefix);
        let ap = absent_keys(table, prefix);
        let f = found_records(table, qids);
        let a = absent_keys(table, qids);
        assert forall|i: int|
            0 <= i < qids.len() && !table.contains_key(#[trigger] qids[i]) implies a.contains(
            key_tuple_view(qids[i]),
        ) by {
            if i < qids.len() - 1 {
                assert(prefix[i] == qids[i]);
                let k = choose|k: int| 0 <= k < ap.len() && ap[k] == key_tuple_view(prefix[i]);
                assert(a[k] == key_tuple_view(qids[i]));
            } else {
                assert(a.last() == key_tuple_view(last));
            }
        }
        assert forall|i: int|
            0 <= i < qids.len() && table.contains_key(#[trigger] qids[i]) implies f.contains(
            project_view(table[qids[i]]),
        ) by {
            if i < qids.len() - 1 {
                assert(prefix[i] == qids[i]);
                let k = choose|k: int| 0 <= k < fp.len() && fp[k] == project_view(table[prefix[i]]);
                assert(f[k] == project_view(table[qids[i]]));
            } else {
                assert(f.last() == project_view(table[last]));
            }
        }
        assert forall|j: int| #![trigger a[j]] 0 <= j < a.len() implies exists|i: int|
            0 <= i < qids.len() && !table.contains_key(#[trigger] qids[i]) && a[j]
                == key_tuple_view(qids[i]) by {
            if j < ap.len() {
                let i = choose|i: int|
                    0 <= i < prefix.len() && !table.contains_key(#[trigger] prefix[i]) && ap[j]
                        == key_tuple_view(prefix[i]);
                assert(prefix[i] == qids[i]);
                assert(a[j] == ap[j]);
                assert(0 <= i < qids.len() && !table.contains_key(qids[i]) && a[j]
                    == key_tuple_view(qids[i]));
            } else {
                assert(!table.contains_key(last));
                assert(a[j] == key_tuple_view(last));
                assert(qids[qids.len() - 1] == last);
            }
        }
        assert forall|j: int| #![trigger f[j]] 0 <= j < f.len() implies exists|i: int|
            0 <= i < qids.len() && table.contains_key(#[trigger] qids[i]) && f[j] == project_view(
                table[qids[i]],
            ) by {
            if j < fp.len() {
                let i = choose|i: int|
                    0 <= i < prefix.len() && table.contains_key(#[trigger] prefix[i]) && fp[j]
                        == project_view(table[prefix[i]]);
                assert(prefix[i] == qids[i]);
                assert(f[j] == fp[j]);
                assert(0 <= i < qids.len() && table.contains_key(qids[i]) && f[j] == project_view(
                    table[qids[i]],
                ));
            } else {
                assert(table.contains_key(last));
                assert(f[j] == project_view(table[last]));
                assert(qids[qids.len() - 1] == last);
            }
        }
    }
}

/// Two batch-gets over the same ids with no intervening store mutation
/// return the same responses and the same presence of unprocessed keys:
/// the result is a pure function of the store's contents and the request.
pub proof fn lemma_batch_get_idempotent(
    table: Map<u128, RecordView>,
    qids: Seq<u128>,
    r1: BatchGetResultView,
    r2: BatchGetResultView,
)
    requires
        r1 == spec_batch_get(table, qids),
        r2 == spec_batch_get(table, qids),
    ensures
        r1.responses == r2.responses,
        (r1.unprocessed_keys is Some) == (r2.unprocessed_keys is Some),
        r1 == r2,
{
}

/// Writing a record and immediately batch-getting its id reads it back:
/// the one response is the record's projection, with each exposed
/// attribute exactly as written, and nothing is left unprocessed.
pub proof fn lemma_batch_get_round_trip(table: Map<u128, RecordView>, qid: u128, rec: RecordView)
    ensures
        found_records(table.insert(qid, rec), seq![qid]) == seq![project_view(rec)],
        absent_keys(table.insert(qid, rec), seq![qid]).len() == 0,
        spec_batch_get(table.insert(qid, rec), seq![qid]).unprocessed_keys is None,
        spec_batch_get(table.insert(qid, rec), seq![qid]).responses.records == seq![
            project_view(rec),
        ],
        forall|name: Seq<char>|
            #[trigger] core_name(name) ==> spec_lookup(project_view(rec), name) == spec_lookup(
                rec,
                name,
            ),
{
    let t2 = table.insert(qid, rec);
    let q1: Seq<u128> = seq![qid];
    assert(q1.drop_last() =~= Seq::<u128>::empty());
    assert(found_records(t2, Seq::<u128>::empty()) =~= Seq::<RecordView>::empty());
    assert(absent_keys(t2, Seq::<u128>::empty()) =~= Seq::<RecordView>::empty());
    assert(q1.last() == qid);
    assert(t2.contains_key(qid));
    assert(t2[qid] == rec);
    assert(found_records(t2, q1) =~= seq![project_view(rec)]);
    assert(absent_keys(t2, q1) =~= Seq::<RecordView>::empty());
    assert forall|name: Seq<char>| #[trigger] core_name(name) implies spec_lookup(
        project_view(rec),
        name,
    ) == spec_lookup(rec, name) by {
        lemma_project_preserves_lookup(rec, name);
    }
}

} // verus!
