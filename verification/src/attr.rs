//! Records as the store holds them: loosely typed attribute maps.
//!
//! A record is a list of named attribute values with pairwise distinct names.
//! Batch-get exposes only the three attributes `id`, `text` and `when` of a
//! record; [`Record::project`] filters a record down to exactly those.

use vstd::prelude::*;
use vstd::string::StringExecFns;

verus! {

/// A loosely typed attribute value, in the two shapes the store uses here:
/// a string value, or a number carried as its decimal digit string.
#[derive(Debug, PartialEq)]
pub enum AttrValue {
    S(String),
    N(String),
}

/// Spec-level image of an [`AttrValue`]: the same two shapes over
/// character sequences.
pub ghost enum AttrValueView {
    S(Seq<char>),
    N(Seq<char>),
}

impl View for AttrValue {
    type V = AttrValueView;

    open spec fn view(&self) -> AttrValueView {
        match self {
            AttrValue::S(s) => AttrValueView::S(s@),
            AttrValue::N(s) => AttrValueView::N(s@),
        }
    }
}

impl AttrValue {
    /// A structural copy of the value.
    pub fn duplicate(&self) -> (r: AttrValue)
        ensures
            r@ == self@,
    {
        match self {
            AttrValue::S(s) => AttrValue::S(s.clone()),
            AttrValue::N(s) => AttrValue::N(s.clone()),
        }
    }
}

/// One named attribute of a record.
#[derive(Debug, PartialEq)]
pub struct Field {
    pub name: String,
    pub value: AttrValue,
}

impl View for Field {
    type V = (Seq<char>, AttrValueView);

    open spec fn view(&self) -> (Seq<char>, AttrValueView) {
        (self.name@, self.value@)
    }
}

/// Spec-level image of a record: its attributes in order.
pub type RecordView = Seq<(Seq<char>, AttrValueView)>;

/// A stored record: a list of named attributes.  Well-formed records carry
/// pairwise distinct names, so the list is a mapping from name to value.
#[derive(Debug, PartialEq)]
pub struct Record {
    pub fields: Vec<Field>,
}

/// The attribute names of `rec` are pairwise distinct.
pub open spec fn distinct_names(rec: RecordView) -> bool {
    forall|i: int, j: int| 0 <= i < j < rec.len() ==> rec[i].0 != rec[j].0
}

/// Whether `name` is one of the three attributes batch-get exposes.
pub open spec fn core_name(name: Seq<char>) -> bool {
    name == "id"@ || name == "text"@ || name == "when"@
}

/// The projection of a record down to the attributes batch-get exposes,
/// keeping their order.
pub open spec fn project_view(rec: RecordView) -> RecordView
    decreases rec.len(),
{
    if rec.len() == 0 {
        Seq::empty()
    } else {
        let rest = project_view(rec.drop_last());
        if core_name(rec.last().0) {
            rest.push(rec.last())
        } else {
            rest
        }
    }
}

/// The value stored under `name`, scanning front to back.
pub open spec fn spec_lookup(rec: RecordView, name: Seq<char>) -> Option<AttrValueView>
    decreases rec.len(),
{
    if rec.len() == 0 {
        None
    } else if rec.first().0 == name {
        Some(rec.first().1)
    } else {
        spec_lookup(rec.drop_first(), name)
    }
}

/// A record holds `name` exactly when some attribute carries it.
pub proof fn lemma_lookup_some(rec: RecordView, name: Seq<char>, i: int)
    requires
        0 <= i < rec.len(),
        rec[i].0 == name,
        forall|k: int| 0 <= k < i ==> rec[k].0 != name,
    ensures
        spec_lookup(rec, name) == Some(rec[i].1),
    decreases i,
{
    if i > 0 {
        lemma_lookup_some(rec.drop_first(), name, i - 1);
    }
}

/// A record without `name` among its attributes resolves it to `None`.
pub proof fn lemma_lookup_none(rec: RecordView, name: Seq<char>)
    requires
        forall|k: int| 0 <= k < rec.len() ==> rec[k].0 != name,
    ensures
        spec_lookup(rec, name) is None,
    decreases rec.len(),
{
    if rec.len() > 0 {
        lemma_lookup_none(rec.drop_first(), name);
    }
}

/// Whether `name` is one of the three attributes batch-get exposes.
pub fn is_core_name(name: &String) -> (b: bool)
    ensures
        b == core_name(name@),
{
    let id_name = String::from_str("id");
    let text_name = String::from_str("text");
    let when_name = String::from_str("when");
    *name == id_name || *name == text_name || *name == when_name
}

/// The spec image of a list of fields.
pub open spec fn fields_view(fs: Seq<Field>) -> RecordView {
    fs.map_values(|f: Field| f@)
}

/// Appending a field appends its image.
pub proof fn lemma_fields_view_push(fs: Seq<Field>, f: Field)
    ensures
        fields_view(fs.push(f)) == fields_view(fs).push(f@),
{
    assert(fields_view(fs.push(f)) =~= fields_view(fs).push(f@));
}

impl View for Record {
    type V = RecordView;

    open spec fn view(&self) -> RecordView {
        fields_view(self.fields@)
    }
}

impl Record {
    /// Well-formed: attribute names are pairwise distinct.
    pub open spec fn wf(&self) -> bool {
        distinct_names(self@)
    }

    /// An empty record.
    pub fn new() -> (r: Record)
        ensures
            r@ == Seq::<(Seq<char>, AttrValueView)>::empty(),
            r.wf(),
    {
        let r = Record { fields: Vec::new() };
        proof {
            assert(r@ =~= Seq::<(Seq<char>, AttrValueView)>::empty());
        }
        r
    }

    /// Append one attribute.
    pub fn push_field(&mut self, name: String, value: AttrValue)
        ensures
            final(self)@ == old(self)@.push((name@, value@)),
    {
        let ghost n: Seq<char> = name@;
        let ghost v: AttrValueView = value@;
        let f = Field { name, value };
        let ghost fg: Field = f;
        self.fields.push(f);
        proof {
            lemma_fields_view_push(old(self).fields@, fg);
            assert(fg@ == (n, v));
        }
    }

    /// The value stored under `name`, if any.
    pub fn get(&self, name: &str) -> (r: Option<&AttrValue>)
        ensures
            match r {
                Some(v) => spec_lookup(self@, name@) == Some(v@),
                None => spec_lookup(self@, name@) is None,
            },
    {
        let wanted = String::from_str(name);
        let mut i: usize = 0;
        while i < self.fields.len()
            invariant
                0 <= i <= self.fields.len(),
                wanted@ == name@,
                forall|k: int| 0 <= k < i ==> self@[k].0 != name@,
            decreases self.fields.len() - i,
        {
            if self.fields[i].name == wanted {
                proof {
                    lemma_lookup_some(self@, name@, i as int);
                }
                return Some(&self.fields[i].value);
            }
            i += 1;
        }
        proof {
            lemma_lookup_none(self@, name@);
        }
        None
    }

    /// Filter the record down to exactly the attributes batch-get exposes:
    /// `id`, `text` and `when`, in their stored order.
    pub fn project(&self) -> (r: Record)
        ensures
            r@ == project_view(self@),
    {
        let mut fields: Vec<Field> = Vec::new();
        let mut i: usize = 0;
        while i < self.fields.len()
            invariant
                0 <= i <= self.fields.len(),
                fields_view(fields@) == project_view(self@.take(i as int)),
            decreases self.fields.len() - i,
        {
            let ghost prefix: RecordView = self@.take(i as int);
            let f = &self.fields[i];
            proof {
                assert(self@.take(i as int + 1).drop_last() =~= prefix);
                assert(self@.take(i as int + 1).last() == self@[i as int]);
                assert(self@[i as int] == f@);
            }
            if is_core_name(&f.name) {
                let nf = Field { name: f.name.clone(), value: f.value.duplicate() };
                let ghost nfg: Field = nf;
                let ghost prev: Seq<Field> = fields@;
                fields.push(nf);
                proof {
                    lemma_fields_view_push(prev, nfg);
                    assert(nfg@ == f@);
                }
            }
            i += 1;
        }
        proof {
            assert(self@.take(self.fields@.len() as int) =~= self@);
        }
        Record { fields }
    }
}

} // verus!
