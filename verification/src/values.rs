//! The decoded metadata model: a closed tagged variant over null, booleans,
//! numbers, text, sequences and tables, together with the mathematical view
//! used by contracts.

use vstd::prelude::*;
use crate::text::str_eq;

verus! {

/// A decoded metadata value. Numbers outside the integer range and values of
/// other scalar kinds (such as dates) are carried by their canonical text
/// form in the `Text` variant.
#[derive(Debug)]
pub enum MetadataValue {
    Null,
    Boolean(bool),
    Number(i64),
    Text(String),
    Sequence(Vec<MetadataValue>),
    Table(Vec<(String, MetadataValue)>),
}

/// The mathematical shape of a `MetadataValue`: the same variants with every
/// string replaced by its character sequence.
pub enum SpecValue {
    Null,
    Boolean(bool),
    Number(i64),
    Text(Seq<char>),
    Sequence(Seq<SpecValue>),
    Table(Seq<(Seq<char>, SpecValue)>),
}

impl MetadataValue {
    /// The mathematical view of this value.
    pub open spec fn sp(self) -> SpecValue
        decreases self,
    {
        match self {
            MetadataValue::Null => SpecValue::Null,
            MetadataValue::Boolean(b) => SpecValue::Boolean(b),
            MetadataValue::Number(n) => SpecValue::Number(n),
            MetadataValue::Text(s) => SpecValue::Text(s@),
            MetadataValue::Sequence(vs) => SpecValue::Sequence(seq_sp(vs@)),
            MetadataValue::Table(es) => SpecValue::Table(entries_sp(es@)),
        }
    }
}

/// The views of a sequence of values, in order.
pub open spec fn seq_sp(vs: Seq<MetadataValue>) -> Seq<SpecValue>
    decreases vs,
{
    if vs.len() == 0 {
        Seq::empty()
    } else {
        seq_sp(vs.drop_last()).push(vs.last().sp())
    }
}

/// The views of a sequence of named values, in order.
pub open spec fn entries_sp(es: Seq<(String, MetadataValue)>) -> Seq<(Seq<char>, SpecValue)>
    decreases es,
{
    if es.len() == 0 {
        Seq::empty()
    } else {
        entries_sp(es.drop_last()).push((es.last().0@, es.last().1.sp()))
    }
}

/// `seq_sp` maps the sequence pointwise.
pub proof fn lemma_seq_sp(vs: Seq<MetadataValue>)
    ensures
        seq_sp(vs).len() == vs.len(),
        forall|i: int| 0 <= i < vs.len() ==> seq_sp(vs)[i] == (#[trigger] vs[i]).sp(),
    decreases vs.len(),
{
    if vs.len() > 0 {
        lemma_seq_sp(vs.drop_last());
        assert forall|i: int| 0 <= i < vs.len() implies seq_sp(vs)[i] == (#[trigger] vs[i]).sp() by {
            if i < vs.len() - 1 {
                assert(vs.drop_last()[i] == vs[i]);
            } else {
                assert(vs[i] == vs.last());
            }
        }
    }
}

/// `entries_sp` maps the sequence pointwise.
pub proof fn lemma_entries_sp(es: Seq<(String, MetadataValue)>)
    ensures
        entries_sp(es).len() == es.len(),
        forall|i: int|
            0 <= i < es.len() ==> entries_sp(es)[i] == ((#[trigger] es[i]).0@, es[i].1.sp()),
    decreases es.len(),
{
    if es.len() > 0 {
        lemma_entries_sp(es.drop_last());
        assert forall|i: int|
            0 <= i < es.len() implies entries_sp(es)[i] == ((#[trigger] es[i]).0@, es[i].1.sp()) by {
            if i < es.len() - 1 {
                assert(es.drop_last()[i] == es[i]);
            } else {
                assert(es[i] == es.last());
            }
        }
    }
}

impl MetadataValue {
    /// The carried text if this is a `Text` value.
    pub fn as_str(&self) -> (r: Option<&str>)
        ensures
            match *self {
                MetadataValue::Text(_) => r matches Some(s) && self.sp() == SpecValue::Text(s@),
                _ => r is None,
            },
    {
        match self {
            MetadataValue::Text(s) => Some(s.as_str()),
            _ => None,
        }
    }

    /// The carried boolean if this is a `Boolean` value.
    pub fn as_bool(&self) -> (r: Option<bool>)
        ensures
            match *self {
                MetadataValue::Boolean(b) => r == Some(b),
                _ => r is None,
            },
    {
        match self {
            MetadataValue::Boolean(b) => Some(*b),
            _ => None,
        }
    }

    /// A deep copy with the same mathematical view.
    #[verifier::loop_isolation(false)]
    pub fn dup(&self) -> (r: MetadataValue)
        ensures
            r.sp() == self.sp(),
        decreases *self,
    {
        match self {
            MetadataValue::Null => MetadataValue::Null,
            MetadataValue::Boolean(b) => MetadataValue::Boolean(*b),
            MetadataValue::Number(n) => MetadataValue::Number(*n),
            MetadataValue::Text(s) => MetadataValue::Text(s.clone()),
            MetadataValue::Sequence(vs) => {
                let mut out: Vec<MetadataValue> = Vec::new();
                let mut i: usize = 0;
                while i < vs.len()
                    invariant
                        i <= vs.len(),
                        out@.len() == i as int,
                        forall|k: int| 0 <= k < i as int ==> (#[trigger] out@[k]).sp() == vs@[k].sp(),
                    decreases vs.len() - i,
                {
                    out.push(vs[i].dup());
                    i = i + 1;
                }
                proof {
                    lemma_seq_sp(out@);
                    lemma_seq_sp(vs@);
                    assert forall|k: int| 0 <= k < vs@.len() implies seq_sp(out@)[k] == seq_sp(
                        vs@,
                    )[k] by {
                        assert(out@[k].sp() == vs@[k].sp());
                    }
                    assert(seq_sp(out@) =~= seq_sp(vs@));
                }
                MetadataValue::Sequence(out)
            },
            MetadataValue::Table(es) => {
                let mut out: Vec<(String, MetadataValue)> = Vec::new();
                let mut i: usize = 0;
                while i < es.len()
                    invariant
                        i <= es.len(),
                        out@.len() == i as int,
                        forall|k: int|
                            0 <= k < i as int ==> (#[trigger] out@[k]).0@ == es@[k].0@ && out@[k].1.sp()
                                == es@[k].1.sp(),
                    decreases es.len() - i,
                {
                    let key = es[i].0.clone();
                    let val = es[i].1.dup();
                    out.push((key, val));
                    i = i + 1;
                }
                proof {
                    lemma_entries_sp(out@);
                    lemma_entries_sp(es@);
                    assert forall|k: int| 0 <= k < es@.len() implies entries_sp(out@)[k]
                        == entries_sp(es@)[k] by {
                        assert(out@[k].0@ == es@[k].0@ && out@[k].1.sp() == es@[k].1.sp());
                    }
                    assert(entries_sp(out@) =~= entries_sp(es@));
                }
                MetadataValue::Table(out)
            },
        }
    }
}

/// Looks a name up in a sequence of entries, later entries shadowing earlier
/// ones: the last write wins.
pub open spec fn lookup(es: Seq<(Seq<char>, SpecValue)>, name: Seq<char>) -> Option<SpecValue>
    decreases es.len(),
{
    if es.len() == 0 {
        None
    } else if es.last().0 == name {
        Some(es.last().1)
    } else {
        lookup(es.drop_last(), name)
    }
}

/// Table keys are pairwise distinct.
pub open spec fn keys_unique(es: Seq<(Seq<char>, SpecValue)>) -> bool {
    forall|i: int, j: int| 0 <= i < j < es.len() ==> es[i].0 != es[j].0
}

impl SpecValue {
    /// Well-formedness: every table, at any depth, has pairwise distinct keys.
    pub open spec fn wf(self) -> bool
        decreases self,
    {
        match self {
            SpecValue::Sequence(vs) => forall|i: int| 0 <= i < vs.len() ==> (#[trigger] vs[i]).wf(),
            SpecValue::Table(es) => keys_unique(es) && forall|i: int|
                0 <= i < es.len() ==> (#[trigger] es[i]).1.wf(),
            _ => true,
        }
    }
}

/// A table of named metadata values: the decoded form of a metadata block.
/// Entry order is not semantically significant; keys are unique.
#[derive(Debug)]
pub struct Table {
    pub entries: Vec<(String, MetadataValue)>,
}

impl Table {
    /// The mathematical view: the entries as pairs of character sequences and
    /// spec values.
    pub open spec fn sp(self) -> Seq<(Seq<char>, SpecValue)> {
        entries_sp(self.entries@)
    }

    /// Well-formedness: unique keys, and every value well formed.
    pub open spec fn wf(self) -> bool {
        keys_unique(self.sp()) && forall|i: int|
            0 <= i < self.sp().len() ==> (#[trigger] self.sp()[i]).1.wf()
    }

    /// The value bound to `name`, if any.
    pub open spec fn spec_get(self, name: Seq<char>) -> Option<SpecValue> {
        lookup(self.sp(), name)
    }

    /// An empty table.
    pub fn new() -> (t: Table)
        ensures
            t.sp() =~= Seq::<(Seq<char>, SpecValue)>::empty(),
            t.wf(),
    {
        Table { entries: Vec::new() }
    }

    /// The value bound to `name`, if any: the most recent binding wins.
    pub fn get(&self, name: &str) -> (r: Option<&MetadataValue>)
        ensures
            match r {
                Some(v) => self.spec_get(name@) == Some(v.sp()),
                None => self.spec_get(name@) is None,
            },
    {
        proof {
            lemma_entries_sp(self.entries@);
            assert(self.sp().take(self.sp().len() as int) =~= self.sp());
        }
        let mut i = self.entries.len();
        while i > 0
            invariant
                i <= self.entries@.len(),
                lookup(self.sp(), name@) == lookup(self.sp().take(i as int), name@),
            decreases i,
        {
            proof {
                lemma_entries_sp(self.entries@);
            }
            i = i - 1;
            if str_eq(self.entries[i].0.as_str(), name) {
                proof {
                    assert(self.sp().take(i as int + 1).last() == self.sp()[i as int]);
                }
                return Some(&self.entries[i].1);
            }
            proof {
                assert(self.sp().take(i as int + 1).last() == self.sp()[i as int]);
                assert(self.sp().take(i as int + 1).drop_last() =~= self.sp().take(i as int));
            }
        }
        proof {
            assert(self.sp().take(0) =~= Seq::<(Seq<char>, SpecValue)>::empty());
        }
        None
    }

    /// How many entries the table holds.
    pub fn len(&self) -> (n: usize)
        ensures
            n == self.sp().len(),
    {
        proof {
            lemma_entries_sp(self.entries@);
        }
        self.entries.len()
    }
}

} // verus!
