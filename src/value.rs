use vstd::prelude::*;

use crate::entries::{first_under, lemma_first_under_push, lemma_first_under_update};

verus! {

/// A value of the scripting runtime.
#[derive(Debug)]
pub enum Value {
    Nil,
    Boolean(bool),
    Integer(i64),
    Str(String),
    Table(Table),
}

/// The runtime's table: a part keyed by strings and a sequence part, whose
/// first element sits at index 1.
#[derive(Debug)]
pub struct Table {
    pub named: Vec<(String, Value)>,
    pub sequence: Vec<Value>,
}

/// The mathematical value of a [`Value`].
pub enum ValueModel {
    Nil,
    Boolean(bool),
    Integer(int),
    Str(Seq<char>),
    Table(TableModel),
}

/// The mathematical value of a [`Table`].
pub struct TableModel {
    pub named: Seq<(Seq<char>, ValueModel)>,
    pub sequence: Seq<ValueModel>,
}

pub open spec fn model(v: Value) -> ValueModel
    decreases v,
{
    match v {
        Value::Nil => ValueModel::Nil,
        Value::Boolean(b) => ValueModel::Boolean(b),
        Value::Integer(i) => ValueModel::Integer(i as int),
        Value::Str(s) => ValueModel::Str(s@),
        Value::Table(t) => ValueModel::Table(table_model(t)),
    }
}

pub open spec fn table_model(t: Table) -> TableModel
    decreases t,
{
    TableModel {
        named: Seq::new(
            t.named@.len(),
            |i: int|
                if 0 <= i < t.named@.len() {
                    (t.named@[i].0@, model(t.named@[i].1))
                } else {
                    (Seq::empty(), ValueModel::Nil)
                },
        ),
        sequence: Seq::new(
            t.sequence@.len(),
            |i: int|
                if 0 <= i < t.sequence@.len() {
                    model(t.sequence@[i])
                } else {
                    ValueModel::Nil
                },
        ),
    }
}

impl View for Value {
    type V = ValueModel;

    open spec fn view(&self) -> ValueModel {
        model(*self)
    }
}

impl View for Table {
    type V = TableModel;

    open spec fn view(&self) -> TableModel {
        table_model(*self)
    }
}

/// The value under `key` among `entries`: the first entry with that key, or
/// `Nil` where there is none.
pub open spec fn lookup_in(entries: Seq<(Seq<char>, ValueModel)>, key: Seq<char>) -> ValueModel {
    match first_under(entries, key) {
        Some(v) => v,
        None => ValueModel::Nil,
    }
}

impl TableModel {
    /// The value under a string key, `Nil` where there is none.
    pub open spec fn lookup(self, key: Seq<char>) -> ValueModel {
        lookup_in(self.named, key)
    }

    /// The value at a 1-based index of the sequence part, `Nil` past its end.
    pub open spec fn at(self, index: int) -> ValueModel {
        if 1 <= index <= self.sequence.len() {
            self.sequence[index - 1]
        } else {
            ValueModel::Nil
        }
    }
}

/// What a native field's type accepts, leaving `nil` aside.
#[derive(Clone, Copy, Debug, PartialEq, Eq, Structural)]
pub enum Base {
    /// A boolean.
    Boolean,
    /// An integer between the two bounds, both included.
    Integer { min: i64, max: i64 },
    /// A string.
    Str,
    /// Any value but `nil`: a type whose conversion the model does not look
    /// into (a nested record, a collection).
    Other,
}

/// The kind of value that a native field accepts: its base, and whether the
/// field is an `Option`, which alone accepts `nil`.
///
/// The model is stricter than the runtime's own conversions in two ways: a
/// boolean field takes only booleans (the runtime reads any value as a truth
/// value), and a string field takes only strings, an integer field only
/// integers (the runtime turns numbers into strings and numeric strings into
/// numbers). It never accepts a value that those conversions refuse, but for
/// an `Other` base, whose content it does not check.
#[derive(Clone, Copy, Debug, PartialEq, Eq, Structural)]
pub struct Kind {
    pub base: Base,
    pub optional: bool,
}

/// Whether a value is of the given kind: `nil` only for an optional field;
/// otherwise a value of the base, an integer within its bounds.
pub open spec fn conforms(v: ValueModel, k: Kind) -> bool {
    if v is Nil {
        k.optional
    } else {
        match k.base {
            Base::Boolean => v is Boolean,
            Base::Integer { min, max } => v matches ValueModel::Integer(i) && min <= i <= max,
            Base::Str => v is Str,
            Base::Other => true,
        }
    }
}

/// Whether a value is of the given kind.
pub fn conforms_exec(v: &Value, k: Kind) -> (r: bool)
    ensures
        r == conforms(v@, k),
{
    if let Value::Nil = v {
        return k.optional;
    }
    match k.base {
        Base::Boolean => matches!(v, Value::Boolean(_)),
        Base::Integer { min, max } => match v {
            Value::Integer(i) => min <= *i && *i <= max,
            _ => false,
        },
        Base::Str => matches!(v, Value::Str(_)),
        Base::Other => true,
    }
}

impl Value {
    /// A copy of this value, tables copied all the way down.
    pub fn copy(&self) -> (r: Value)
        ensures
            r@ == self@,
        decreases self,
    {
        match self {
            Value::Nil => Value::Nil,
            Value::Boolean(b) => Value::Boolean(*b),
            Value::Integer(i) => Value::Integer(*i),
            Value::Str(s) => Value::Str(s.clone()),
            Value::Table(t) => Value::Table(t.copy()),
        }
    }
}

impl Table {
    /// A copy of this table, copied all the way down.
    pub fn copy(&self) -> (r: Table)
        ensures
            r@ == self@,
        decreases self,
    {
        broadcast use vstd::std_specs::vec::axiom_vec_index_decreases;

        let mut named: Vec<(String, Value)> = Vec::new();
        let mut i: usize = 0;
        while i < self.named.len()
            invariant
                i <= self.named@.len(),
                named@.len() == i,
                forall|j: int|
                    0 <= j < i ==> (#[trigger] named@[j]).0@ == self.named@[j].0@ && model(
                        named@[j].1,
                    ) == model(self.named@[j].1),
            decreases self.named@.len() - i,
        {
            let e = &self.named[i];
            proof {
                assert(decreases_to!(self.named => self.named[i as int]));
            }
            named.push((e.0.clone(), e.1.copy()));
            i += 1;
        }
        let mut sequence: Vec<Value> = Vec::new();
        let mut j: usize = 0;
        while j < self.sequence.len()
            invariant
                j <= self.sequence@.len(),
                sequence@.len() == j,
                forall|k: int| 0 <= k < j ==> model(#[trigger] sequence@[k]) == model(self.sequence@[k]),
            decreases self.sequence@.len() - j,
        {
            proof {
                assert(decreases_to!(self.sequence => self.sequence[j as int]));
            }
            sequence.push(self.sequence[j].copy());
            j += 1;
        }
        let r = Table { named, sequence };
        assert(r@.named =~= self@.named);
        assert(r@.sequence =~= self@.sequence);
        r
    }

    /// An empty table.
    pub fn new() -> (r: Table)
        ensures
            r.named@.len() == 0,
            r.sequence@.len() == 0,
    {
        Table { named: Vec::new(), sequence: Vec::new() }
    }

    /// A copy of the value under a string key, `Nil` where there is none.
    pub fn get(&self, key: &String) -> (r: Value)
        ensures
            r@ == self@.lookup(key@),
    {
        assert(self@.named.subrange(0, self@.named.len() as int) =~= self@.named);
        let mut i: usize = 0;
        while i < self.named.len()
            invariant
                i <= self.named@.len(),
                first_under(self@.named, key@) == first_under(
                    self@.named.subrange(i as int, self@.named.len() as int),
                    key@,
                ),
            decreases self.named@.len() - i,
        {
            let ghost rest = self@.named.subrange(i as int, self@.named.len() as int);
            assert(rest.drop_first() =~= self@.named.subrange(i + 1, self@.named.len() as int));
            if self.named[i].0 == *key {
                return self.named[i].1.copy();
            }
            i += 1;
        }
        Value::Nil
    }

    /// A copy of the value at a 1-based index of the sequence part, `Nil`
    /// past its end.
    pub fn get_index(&self, index: usize) -> (r: Value)
        ensures
            r@ == self@.at(index as int),
    {
        if 1 <= index && index <= self.sequence.len() {
            self.sequence[index - 1].copy()
        } else {
            Value::Nil
        }
    }

    /// Stores `v` under a string key, in place of what was there.
    pub fn set(&mut self, key: String, v: Value)
        ensures
            forall|k: Seq<char>| #[trigger]
                final(self)@.lookup(k) == if k == key@ {
                    v@
                } else {
                    old(self)@.lookup(k)
                },
            final(self)@.sequence == old(self)@.sequence,
    {
        let ghost e = (key@, v@);
        let mut i: usize = 0;
        while i < self.named.len()
            invariant
                *self == *old(self),
                e == (key@, v@),
                i <= self.named@.len(),
                forall|m: int| 0 <= m < i ==> self.named@[m].0@ != key@,
            decreases self.named@.len() - i,
        {
            if self.named[i].0 == key {
                proof {
                    assert forall|k: Seq<char>| #[trigger]
                        lookup_in(self@.named.update(i as int, e), k) == if k == key@ {
                            v@
                        } else {
                            self@.lookup(k)
                        } by {
                        lemma_first_under_update(self@.named, i as int, e, k);
                    }
                }
                self.named[i] = (key, v);
                assert(self@.named =~= old(self)@.named.update(i as int, e));
                assert(self@.sequence =~= old(self)@.sequence);
                return;
            }
            i += 1;
        }
        proof {
            assert forall|k: Seq<char>| #[trigger]
                lookup_in(self@.named.push(e), k) == if k == key@ {
                    v@
                } else {
                    self@.lookup(k)
                } by {
                lemma_first_under_push(self@.named, e, k);
            }
        }
        self.named.push((key, v));
        assert(self@.named =~= old(self)@.named.push(e));
        assert(self@.sequence =~= old(self)@.sequence);
    }

    /// Appends `v` at the end of the sequence part.
    pub fn push(&mut self, v: Value)
        ensures
            final(self)@.sequence == old(self)@.sequence.push(v@),
            final(self)@.named == old(self)@.named,
    {
        let ghost vm = v@;
        self.sequence.push(v);
        assert(self@.sequence =~= old(self)@.sequence.push(vm));
        assert(self@.named =~= old(self)@.named);
    }
}

} // verus!
