//! The in-memory table of questions: a faithful behavioural stand-in for
//! the hosted store's batch-get.
//!
//! The table maps each id to the full record a writer stored for it; a
//! batch-get reads it only.  [`MockTable::batch_get`] reproduces exactly the
//! hosted store's partial-result shape, pinned by
//! [`crate::batch::spec_batch_get`]: present ids are returned projected under
//! `responses`, absent ids as key tuples under `unprocessed_keys`, which is
//! omitted entirely when nothing was left unresolved.

use vstd::prelude::*;
use vstd::string::StringExecFns;

use crate::attr::Record;
use crate::attr::RecordView;

use crate::batch::BatchGetResult;
use crate::batch::Responses;
use crate::batch::UnprocessedKeys;
use crate::batch::absent_keys;
use crate::batch::found_records;
use crate::batch::key_tuple;
use crate::batch::lemma_records_view_push;
use crate::batch::records_view;
use crate::batch::spec_batch_get;

verus! {

/// The ids of the entries are pairwise distinct.
pub open spec fn distinct_ids(s: Seq<(u128, Record)>) -> bool {
    forall|i: int, j: int| 0 <= i < j < s.len() ==> s[i].0 != s[j].0
}

/// The mapping an entry list denotes: later entries win, though under
/// [`distinct_ids`] the order carries no weight.
pub open spec fn table_map(s: Seq<(u128, Record)>) -> Map<u128, RecordView>
    decreases s.len(),
{
    if s.len() == 0 {
        Map::empty()
    } else {
        table_map(s.drop_last()).insert(s.last().0, s.last().1@)
    }
}

/// With distinct ids, the mapping holds exactly the listed entries.
proof fn lemma_table_map_entries(s: Seq<(u128, Record)>)
    requires
        distinct_ids(s),
    ensures
        forall|i: int|
            0 <= i < s.len() ==> table_map(s).contains_key(#[trigger] s[i].0) && table_map(s)[s[i].0]
                == s[i].1@,
        forall|q: u128|
            #[trigger] table_map(s).contains_key(q) ==> exists|i: int|
                0 <= i < s.len() && s[i].0 == q,
    decreases s.len(),
{
    if s.len() > 0 {
        let prefix = s.drop_last();
        assert(distinct_ids(prefix));
        lemma_table_map_entries(prefix);
        assert forall|i: int|
            0 <= i < s.len() implies table_map(s).contains_key(#[trigger] s[i].0) && table_map(s)[s[i].0]
            == s[i].1@ by {
            if i < s.len() - 1 {
                assert(prefix[i] == s[i]);
                assert(s[i].0 != s.last().0);
            }
        }
        assert forall|q: u128| #[trigger] table_map(s).contains_key(q) implies exists|i: int|
            0 <= i < s.len() && s[i].0 == q by {
            if q != s.last().0 {
                assert(table_map(prefix).contains_key(q));
                let i = choose|i: int| 0 <= i < prefix.len() && prefix[i].0 == q;
                assert(s[i].0 == q);
            } else {
                assert(s[s.len() - 1].0 == q);
            }
        }
    }
}

/// Overwriting the record of one listed id inserts into the mapping.
proof fn lemma_table_map_update(s: Seq<(u128, Record)>, i: int, rec: Record)
    requires
        distinct_ids(s),
        0 <= i < s.len(),
    ensures
        table_map(s.update(i, (s[i].0, rec))) == table_map(s).insert(s[i].0, rec@),
    decreases s.len(),
{
    let s2 = s.update(i, (s[i].0, rec));
    if i == s.len() - 1 {
        assert(s2.drop_last() =~= s.drop_last());
        assert(s2.last() == (s[i].0, rec));
        assert(table_map(s2) =~= table_map(s).insert(s[i].0, rec@));
    } else {
        let prefix = s.drop_last();
        assert(distinct_ids(prefix));
        lemma_table_map_update(prefix, i, rec);
        assert(s2.drop_last() =~= prefix.update(i, (prefix[i].0, rec)));
        assert(s2.last() == s.last());
        assert(s[i].0 != s.last().0);
        assert(table_map(s2) =~= table_map(s).insert(s[i].0, rec@));
    }
}

/// The shared in-memory record table: each question's id keyed to the full
/// record its writer stored.
#[derive(Debug)]
pub struct MockTable {
    entries: Vec<(u128, Record)>,
}

impl View for MockTable {
    type V = Map<u128, RecordView>;

    closed spec fn view(&self) -> Map<u128, RecordView> {
        table_map(self.entries@)
    }
}

impl MockTable {
    /// Well-formed: one entry per id.
    pub closed spec fn wf(&self) -> bool {
        distinct_ids(self.entries@)
    }

    /// An empty table.
    pub fn new() -> (r: MockTable)
        ensures
            r@ == Map::<u128, RecordView>::empty(),
            r.wf(),
    {
        MockTable { entries: Vec::new() }
    }

    /// Write `record` under `qid`, replacing what the id held before.
    /// Writes belong to the collaborator operations that populate the
    /// store; batch-get itself never mutates the table.
    pub fn insert(&mut self, qid: u128, record: Record)
        requires
            old(self).wf(),
        ensures
            final(self).wf(),
            final(self)@ == old(self)@.insert(qid, record@),
    {
        let mut i: usize = 0;
        while i < self.entries.len()
            invariant
                0 <= i <= self.entries.len(),
                self.entries@ == old(self).entries@,
                distinct_ids(self.entries@),
                forall|k: int| 0 <= k < i ==> self.entries@[k].0 != qid,
            decreases self.entries.len() - i,
        {
            if self.entries[i].0 == qid {
                let ghost s = self.entries@;
                self.entries.set(i, (qid, record));
                proof {
                    lemma_table_map_update(s, i as int, self.entries@[i as int].1);
                    assert(self.entries@ =~= s.update(
                        i as int,
                        (s[i as int].0, self.entries@[i as int].1),
                    ));
                    assert forall|a: int, b: int|
                        0 <= a < b < self.entries@.len() implies self.entries@[a].0
                        != self.entries@[b].0 by {
                        assert(s[a].0 == self.entries@[a].0);
                        assert(s[b].0 == self.entries@[b].0);
                    }
                }
                return ;
            }
            i += 1;
        }
        let ghost s = self.entries@;
        self.entries.push((qid, record));
        proof {
            assert(self.entries@.drop_last() =~= s);
            assert forall|a: int, b: int|
                0 <= a < b < self.entries@.len() implies self.entries@[a].0
                != self.entries@[b].0 by {
            }
        }
    }

    /// The stored record of `qid`, if the id is currently keyed.
    pub fn get(&self, qid: u128) -> (r: Option<&Record>)
        requires
            self.wf(),
        ensures
            match r {
                Some(rec) => self@.contains_key(qid) && rec@ == self@[qid],
                None => !self@.contains_key(qid),
            },
    {
        let mut i: usize = 0;
        while i < self.entries.len()
            invariant
                0 <= i <= self.entries.len(),
                self.wf(),
                forall|k: int| 0 <= k < i ==> self.entries@[k].0 != qid,
            decreases self.entries.len() - i,
        {
            if self.entries[i].0 == qid {
                proof {
                    lemma_table_map_entries(self.entries@);
                }
                return Some(&self.entries[i].1);
            }
            i += 1;
        }
        proof {
            lemma_table_map_entries(self.entries@);
            if self@.contains_key(qid) {
                let k = choose|k: int|
                    0 <= k < self.entries@.len() && self.entries@[k].0 == qid;
                assert(false);
            }
        }
        None
    }

    /// One batch-get round against the table, with the hosted store's
    /// partial-result shape: every requested occurrence resolves
    /// independently, present ids land projected under `responses`, absent
    /// ones as key tuples under `unprocessed_keys`, and `unprocessed_keys`
    /// is omitted entirely when every occurrence resolved.  Read-only with
    /// respect to the table; never loops to resolve its own leftovers.
    pub fn batch_get(&self, qids: &Vec<u128>) -> (r: BatchGetResult)
        requires
            self.wf(),
        ensures
            r@ == spec_batch_get(self@, qids@),
    {
        let mut found: Vec<Record> = Vec::new();
        let mut absent: Vec<Record> = Vec::new();
        let mut i: usize = 0;
        while i < qids.len()
            invariant
                0 <= i <= qids.len(),
                self.wf(),
                records_view(found@) == found_records(self@, qids@.take(i as int)),
                records_view(absent@) == absent_keys(self@, qids@.take(i as int)),
            decreases qids.len() - i,
        {
            let qid = qids[i];
            proof {
                assert(qids@.take(i as int + 1).drop_last() =~= qids@.take(i as int));
                assert(qids@.take(i as int + 1).last() == qids@[i as int]);
            }
            match self.get(qid) {
                Some(rec) => {
                    let p = rec.project();
                    let ghost pg = p;
                    let ghost prev = found@;
                    found.push(p);
                    proof {
                        lemma_records_view_push(prev, pg);
                    }
                },
                None => {
                    let k = key_tuple(qid);
                    let ghost kg = k;
                    let ghost prev = absent@;
                    absent.push(k);
                    proof {
                        lemma_records_view_push(prev, kg);
                    }
                },
            }
            i += 1;
        }
        proof {
            assert(qids@.take(qids@.len() as int) =~= qids@);
        }
        let no_absent = absent.len() == 0;
        let responses = Responses { table: String::from_str("questions"), records: found };
        let unprocessed_keys = if no_absent {
            None
        } else {
            Some(
                UnprocessedKeys {
                    table: String::from_str("questions"),
                    keys: absent,
                    projection: String::from_str("text,when"),
                },
            )
        };
        BatchGetResult { responses, unprocessed_keys }
    }
}

} // verus!
