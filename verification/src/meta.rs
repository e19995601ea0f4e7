//! Free-form metadata records carried alongside collections and items.
//!
//! A metadata record is an ordered table of named values. The library holds
//! such records as plain values of its own so that their content can be
//! reasoned about; the unverified shell converts them to and from the
//! persisted text form.

use vstd::prelude::*;

verus! {

/// A single metadata value.
#[derive(Debug)]
pub enum MetaValue {
    /// A text value.
    Str(String),
    /// An integer value.
    Int(i64),
    /// A boolean value.
    Bool(bool),
}

/// The mathematical shape of a metadata value.
#[verifier::ext_equal]
pub enum MetaValueV {
    /// A text value.
    Str(Seq<char>),
    /// An integer value.
    Int(int),
    /// A boolean value.
    Bool(bool),
}

impl View for MetaValue {
    type V = MetaValueV;

    open spec fn view(&self) -> MetaValueV {
        match self {
            MetaValue::Str(s) => MetaValueV::Str(s@),
            MetaValue::Int(n) => MetaValueV::Int(*n as int),
            MetaValue::Bool(b) => MetaValueV::Bool(*b),
        }
    }
}

impl Clone for MetaValue {
    fn clone(&self) -> (r: Self)
        ensures
            r@ == self@,
    {
        match self {
            MetaValue::Str(s) => MetaValue::Str(s.clone()),
            MetaValue::Int(n) => MetaValue::Int(*n),
            MetaValue::Bool(b) => MetaValue::Bool(*b),
        }
    }
}

impl MetaValue {
    /// Whether two metadata values are the same value.
    pub fn eq_value(&self, other: &MetaValue) -> (r: bool)
        ensures
            r <==> self@ == other@,
    {
        match (self, other) {
            (MetaValue::Str(a), MetaValue::Str(b)) => *a == *b,
            (MetaValue::Int(a), MetaValue::Int(b)) => *a == *b,
            (MetaValue::Bool(a), MetaValue::Bool(b)) => *a == *b,
            _ => false,
        }
    }
}

/// The first value recorded under `key`, if any.
pub open spec fn meta_find(t: Seq<(Seq<char>, MetaValueV)>, key: Seq<char>) -> Option<MetaValueV>
    decreases t.len(),
{
    if t.len() == 0 {
        None
    } else if t.first().0 == key {
        Some(t.first().1)
    } else {
        meta_find(t.drop_first(), key)
    }
}

/// An ordered table of named metadata values.
#[derive(Debug)]
pub struct MetaTable {
    entries: Vec<(String, MetaValue)>,
}

impl View for MetaTable {
    type V = Seq<(Seq<char>, MetaValueV)>;

    closed spec fn view(&self) -> Seq<(Seq<char>, MetaValueV)> {
        self.entries@.map_values(|e: (String, MetaValue)| (e.0@, e.1@))
    }
}

impl Clone for MetaTable {
    fn clone(&self) -> (r: Self)
        ensures
            r@ == self@,
    {
        let mut entries: Vec<(String, MetaValue)> = Vec::new();
        let n = self.entries.len();
        let mut i: usize = 0;
        while i < n
            invariant
                n == self.entries.len(),
                i <= n,
                entries@.len() == i,
                forall|j: int|
                    0 <= j < i ==> (#[trigger] entries@[j]).0@ == self@[j].0 && entries@[j].1@
                        == self@[j].1,
            decreases n - i,
        {
            let key = self.entries[i].0.clone();
            let value = self.entries[i].1.clone();
            entries.push((key, value));
            i = i + 1;
        }
        let r = MetaTable { entries };
        proof {
            assert(r@ =~= self@);
        }
        r
    }
}

impl MetaTable {
    /// An empty metadata record.
    pub fn new() -> (r: MetaTable)
        ensures
            r@ == Seq::<(Seq<char>, MetaValueV)>::empty(),
    {
        let r = MetaTable { entries: Vec::new() };
        proof {
            assert(r@ =~= Seq::<(Seq<char>, MetaValueV)>::empty());
        }
        r
    }

    /// How many entries the record holds.
    pub fn len(&self) -> (r: usize)
        ensures
            r == self@.len(),
    {
        self.entries.len()
    }

    /// Record `value` under `key`, after everything recorded so far.
    pub fn push(&mut self, key: &str, value: MetaValue)
        ensures
            final(self)@ =~= old(self)@.push((key@, value@)),
    {
        self.entries.push((key.to_owned(), value));
    }

    /// The key of the entry at position `i`.
    pub fn key_at(&self, i: usize) -> (r: &str)
        requires
            i < self@.len(),
        ensures
            r@ == self@[i as int].0,
    {
        self.entries[i].0.as_str()
    }

    /// The value of the entry at position `i`.
    pub fn value_at(&self, i: usize) -> (r: &MetaValue)
        requires
            i < self@.len(),
        ensures
            r@ == self@[i as int].1,
    {
        &self.entries[i].1
    }

    /// Look up the first value recorded under `key`.
    pub fn get(&self, key: &str) -> (r: Option<&MetaValue>)
        ensures
            match meta_find(self@, key@) {
                Some(v) => r matches Some(m) && m@ == v,
                None => r is None,
            },
    {
        let key_string = key.to_owned();
        let n = self.entries.len();
        let mut i: usize = 0;
        proof {
            assert(self@.skip(0) =~= self@);
        }
        while i < n
            invariant
                n == self@.len(),
                i <= n,
                key_string@ == key@,
                meta_find(self@, key@) == meta_find(self@.skip(i as int), key@),
            decreases n - i,
        {
            proof {
                let tail = self@.skip(i as int);
                assert(tail.first() == self@[i as int]);
                assert(tail.drop_first() =~= self@.skip(i as int + 1));
            }
            if self.entries[i].0 == key_string {
                return Some(&self.entries[i].1);
            }
            i = i + 1;
        }
        proof {
            assert(self@.skip(n as int) =~= Seq::<(Seq<char>, MetaValueV)>::empty());
        }
        None
    }

    /// Whether two metadata records hold the same entries in the same
    /// order.
    pub fn eq_table(&self, other: &MetaTable) -> (r: bool)
        ensures
            r <==> self@ == other@,
    {
        let n = self.entries.len();
        if n != other.entries.len() {
            return false;
        }
        let mut i: usize = 0;
        while i < n
            invariant
                n == self@.len() && n == other@.len(),
                i <= n,
                forall|j: int| 0 <= j < i ==> self@[j] == other@[j],
            decreases n - i,
        {
            proof {
                assert(self@[i as int] == (self.entries@[i as int].0@, self.entries@[i as int].1@));
                assert(other@[i as int] == (other.entries@[i as int].0@,
                other.entries@[i as int].1@));
            }
            if !(self.entries[i].0 == other.entries[i].0) {
                proof {
                    assert(self@[i as int].0 != other@[i as int].0);
                }
                return false;
            }
            if !self.entries[i].1.eq_value(&other.entries[i].1) {
                proof {
                    assert(self@[i as int].1 != other@[i as int].1);
                }
                return false;
            }
            i = i + 1;
        }
        proof {
            assert(self@ =~= other@);
        }
        true
    }
}

} // verus!
