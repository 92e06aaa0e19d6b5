//! The typed-decode step one layer above the store call.
//!
//! A record coming back from batch-get is a loosely typed attribute map.
//! Consumers need it as a typed question: the id in its canonical text
//! form, the text, and the timestamp as a number.  The decode fails closed:
//! a record missing one of the three exposed attributes, or carrying a
//! wrongly typed value, is a [`StoreError::DataIntegrity`] failure — a
//! writer/reader contract violation, distinct from not-found — and is never
//! coerced or defaulted.  One malformed record fails the whole consumption,
//! after the store call preserved every correctly found record.

use vstd::prelude::*;
use vstd::string::StrSliceExecFns;
use vstd::string::StringExecFns;

use crate::attr::AttrValue;
use crate::attr::AttrValueView;
use crate::attr::Record;
use crate::attr::RecordView;
use crate::attr::spec_lookup;

use crate::batch::StoreError;

use crate::qid::is_uuid_text;
use crate::qid::is_uuid_text_exec;

verus! {

/// Whether `c` is a decimal digit.
pub open spec fn is_dec_digit(c: char) -> bool {
    c == '0' || c == '1' || c == '2' || c == '3' || c == '4' || c == '5' || c == '6' || c == '7'
        || c == '8' || c == '9'
}

/// The numeric value of a decimal digit; other characters count as zero.
pub open spec fn digit_val(c: char) -> nat {
    if c == '1' {
        1
    } else if c == '2' {
        2
    } else if c == '3' {
        3
    } else if c == '4' {
        4
    } else if c == '5' {
        5
    } else if c == '6' {
        6
    } else if c == '7' {
        7
    } else if c == '8' {
        8
    } else if c == '9' {
        9
    } else {
        0
    }
}

/// Every character of `s` is a decimal digit.
pub open spec fn all_dec_digits(s: Seq<char>) -> bool {
    forall|i: int| 0 <= i < s.len() ==> is_dec_digit(#[trigger] s[i])
}

/// The number a digit string denotes, most significant digit first.
pub open spec fn dec_value(s: Seq<char>) -> nat
    decreases s.len(),
{
    if s.len() == 0 {
        0
    } else {
        dec_value(s.drop_last()) * 10 + digit_val(s.last())
    }
}

/// A digit string denotes at least what any of its prefixes denotes.
proof fn lemma_dec_value_prefix_le(s: Seq<char>, j: int)
    requires
        0 <= j <= s.len(),
    ensures
        dec_value(s.take(j)) <= dec_value(s),
    decreases s.len() - j,
{
    if j < s.len() {
        assert(s.take(j + 1).drop_last() =~= s.take(j));
        assert(dec_value(s.take(j)) <= dec_value(s.take(j + 1)));
        lemma_dec_value_prefix_le(s, j + 1);
    } else {
        assert(s.take(j) =~= s);
    }
}

/// Whether the digit string `s` denotes a number a `u64` can carry:
/// non-empty, digits only, value within range.
pub open spec fn valid_dec_u64(s: Seq<char>) -> bool {
    s.len() >= 1 && all_dec_digits(s) && dec_value(s) <= u64::MAX
}

/// Parse a decimal digit string into a `u64`.  Returns `None` exactly when
/// the string is empty, holds a non-digit, or denotes too large a number.
pub fn parse_dec_u64(s: &str) -> (r: Option<u64>)
    ensures
        match r {
            Some(v) => valid_dec_u64(s@) && v == dec_value(s@),
            None => !valid_dec_u64(s@),
        },
{
    let n = s.unicode_len();
    if n == 0 {
        return None;
    }
    let mut acc: u64 = 0;
    let mut i: usize = 0;
    while i < n
        invariant
            0 <= i <= n,
            n == s@.len(),
            acc == dec_value(s@.take(i as int)),
            forall|k: int| 0 <= k < i ==> is_dec_digit(#[trigger] s@[k]),
        decreases n - i,
    {
        let c = s.get_char(i);
        let d: u64 = if c == '0' {
            0
        } else if c == '1' {
            1
        } else if c == '2' {
            2
        } else if c == '3' {
            3
        } else if c == '4' {
            4
        } else if c == '5' {
            5
        } else if c == '6' {
            6
        } else if c == '7' {
            7
        } else if c == '8' {
            8
        } else if c == '9' {
            9
        } else {
            return None;
        };
        proof {
            assert(is_dec_digit(s@[i as int]));
            assert(d == digit_val(s@[i as int]));
            assert(s@.take(i as int + 1).drop_last() =~= s@.take(i as int));
            assert(s@.take(i as int + 1).last() == s@[i as int]);
        }
        if acc > (u64::MAX - d) / 10 {
            proof {
                assert(10 * ((u64::MAX - d) / 10) + ((u64::MAX - d) % 10) == u64::MAX - d);
                assert(dec_value(s@.take(i as int + 1)) > u64::MAX);
                lemma_dec_value_prefix_le(s@, i as int + 1);
            }
            return None;
        }
        proof {
            assert(10 * ((u64::MAX - d) / 10) + ((u64::MAX - d) % 10) == u64::MAX - d);
            assert(acc * 10 + d <= u64::MAX);
        }
        acc = acc * 10 + d;
        i += 1;
    }
    proof {
        assert(s@.take(n as int) =~= s@);
    }
    Some(acc)
}

/// A typed question, as the result consumer needs it: the id in canonical
/// text form, the text, and the non-negative timestamp.
#[derive(Debug, PartialEq)]
pub struct Question {
    pub id: String,
    pub text: String,
    pub when: u64,
}

/// Spec-level image of a [`Question`].
pub ghost struct QuestionView {
    pub id: Seq<char>,
    pub text: Seq<char>,
    pub when: u64,
}

impl View for Question {
    type V = QuestionView;

    open spec fn view(&self) -> QuestionView {
        QuestionView { id: self.id@, text: self.text@, when: self.when }
    }
}

/// A record carries the three exposed attributes, each rightly typed:
/// `id` a string in canonical id form, `text` a string, `when` a decimal
/// number a `u64` can carry.
pub open spec fn well_typed(rec: RecordView) -> bool {
    &&& spec_lookup(rec, "id"@) matches Some(AttrValueView::S(s)) && is_uuid_text(s)
    &&& spec_lookup(rec, "text"@) matches Some(AttrValueView::S(_))
    &&& spec_lookup(rec, "when"@) matches Some(AttrValueView::N(n)) && valid_dec_u64(n)
}

/// `q` is the faithful typed reading of `rec`.
pub open spec fn question_of(rec: RecordView, q: QuestionView) -> bool {
    &&& spec_lookup(rec, "id"@) == Some(AttrValueView::S(q.id))
    &&& spec_lookup(rec, "text"@) == Some(AttrValueView::S(q.text))
    &&& spec_lookup(rec, "when"@) matches Some(AttrValueView::N(n)) && q.when == dec_value(n)
}

/// Decode one record into a typed question.  Succeeds exactly on
/// [`well_typed`] records; anything else is a `DataIntegrity` failure.
pub fn decode_question(rec: &Record) -> (r: Result<Question, StoreError>)
    ensures
        match r {
            Ok(q) => well_typed(rec@) && question_of(rec@, q@),
            Err(e) => e == StoreError::DataIntegrity && !well_typed(rec@),
        },
{
    let id = match rec.get("id") {
        Some(AttrValue::S(s)) => {
            if !is_uuid_text_exec(s.as_str()) {
                return Err(StoreError::DataIntegrity);
            }
            s.clone()
        },
        _ => {
            return Err(StoreError::DataIntegrity);
        },
    };
    let text = match rec.get("text") {
        Some(AttrValue::S(s)) => s.clone(),
        _ => {
            return Err(StoreError::DataIntegrity);
        },
    };
    let when = match rec.get("when") {
        Some(AttrValue::N(n)) => {
            match parse_dec_u64(n.as_str()) {
                Some(v) => v,
                None => {
                    return Err(StoreError::DataIntegrity);
                },
            }
        },
        _ => {
            return Err(StoreError::DataIntegrity);
        },
    };
    Ok(Question { id, text, when })
}

/// Decode every found record of a batch.  One malformed record fails the
/// whole batch with `DataIntegrity`; otherwise each record decodes in
/// order.
pub fn decode_found(records: &Vec<Record>) -> (r: Result<Vec<Question>, StoreError>)
    ensures
        match r {
            Ok(qs) => {
                &&& qs@.len() == records@.len()
                &&& forall|i: int|
                    0 <= i < records@.len() ==> #[trigger] well_typed(records@[i]@)
                        && question_of(records@[i]@, qs@[i]@)
            },
            Err(e) => {
                &&& e == StoreError::DataIntegrity
                &&& exists|i: int| 0 <= i < records@.len() && !#[trigger] well_typed(records@[i]@)
            },
        },
{
    let mut qs: Vec<Question> = Vec::new();
    let mut i: usize = 0;
    while i < records.len()
        invariant
            0 <= i <= records.len(),
            qs@.len() == i,
            forall|k: int|
                0 <= k < i ==> #[trigger] well_typed(records@[k]@) && question_of(
                    records@[k]@,
                    qs@[k]@,
                ),
        decreases records.len() - i,
    {
        match decode_question(&records[i]) {
            Ok(q) => {
                qs.push(q);
            },
            Err(e) => {
                return Err(e);
            },
        }
        i += 1;
    }
    Ok(qs)
}

} // verus!
