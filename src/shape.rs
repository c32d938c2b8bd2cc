use vstd::prelude::*;

use crate::error::ConvError;
use crate::entries::{lemma_first_under_absent, lemma_first_under_at};
use crate::value::{conforms, conforms_exec, lookup_in, Base, Kind, Table, TableModel, Value, ValueModel};

verus! {

/// The payload shape of a record or of a variant, with the kind of value each
/// field accepts.
#[derive(Clone, Debug)]
pub enum Shape {
    /// Fields looked up by name.
    Named(Vec<(String, Kind)>),
    /// Fields taken in order from the sequence part.
    Positional(Vec<Kind>),
    /// No field.
    Unit,
}

pub open spec fn models(s: Seq<Value>) -> Seq<ValueModel> {
    s.map_values(|v: Value| v@)
}

impl Shape {
    pub open spec fn len(&self) -> nat {
        match self {
            Shape::Named(fs) => fs@.len(),
            Shape::Positional(ks) => ks@.len(),
            Shape::Unit => 0,
        }
    }

    pub open spec fn kind(&self, i: int) -> Kind {
        match self {
            Shape::Named(fs) => fs@[i].1,
            Shape::Positional(ks) => ks@[i],
            Shape::Unit => Kind { base: Base::Other, optional: true },
        }
    }

    pub open spec fn name(&self, i: int) -> Seq<char> {
        match self {
            Shape::Named(fs) => fs@[i].0@,
            _ => Seq::empty(),
        }
    }

    /// Field names are distinct.
    pub open spec fn wf(&self) -> bool {
        self is Named ==> forall|i: int, j: int|
            0 <= i < j < self.len() ==> #[trigger] self.name(i) != #[trigger] self.name(j)
    }

    /// Every value is of its field's kind.
    pub open spec fn admits(&self, vals: Seq<ValueModel>) -> bool {
        &&& vals.len() == self.len()
        &&& forall|i: int| 0 <= i < vals.len() ==> conforms(#[trigger] vals[i], self.kind(i))
    }

    /// Whether `t` is a table of this shape and nothing else: for named
    /// fields, its keys are field names, each field's value is of its kind, and
    /// the sequence part is empty; for positional fields, exactly one value of
    /// the right kind per field and no key; for no field, an empty table.
    pub open spec fn matches_table(&self, t: TableModel) -> bool {
        match self {
            Shape::Named(fs) => {
                &&& t.sequence.len() == 0
                &&& forall|j: int|
                    0 <= j < t.named.len() ==> exists|i: int|
                        0 <= i < fs@.len() && #[trigger] t.named[j].0 == #[trigger] fs@[i].0@
                &&& forall|i: int| 0 <= i < fs@.len() ==> conforms(t.lookup(#[trigger] fs@[i].0@), fs@[i].1)
            },
            Shape::Positional(ks) => {
                &&& t.named.len() == 0
                &&& t.sequence.len() == ks@.len()
                &&& forall|i: int| 0 <= i < ks@.len() ==> conforms(#[trigger] t.sequence[i], ks@[i])
            },
            Shape::Unit => t.named.len() == 0 && t.sequence.len() == 0,
        }
    }
}

/// Two tables hold the same value under every key and the same sequence.
pub open spec fn equivalent(a: TableModel, b: TableModel) -> bool {
    &&& forall|k: Seq<char>| #[trigger] a.lookup(k) == b.lookup(k)
    &&& a.sequence == b.sequence
}

/// What decoding the payload table `t` as `shape` gives: the field values in
/// declaration order, or the first failure.
pub open spec fn payload_decoding(shape: Shape, t: TableModel) -> Result<Seq<ValueModel>, ConvError> {
    match shape {
        Shape::Named(fs) => if exists|i: int|
            0 <= i < fs@.len() && !conforms(t.lookup(#[trigger] fs@[i].0@), fs@[i].1) {
            Err(ConvError::Conversion)
        } else {
            Ok(Seq::new(fs@.len(), |i: int| t.lookup(fs@[i].0@)))
        },
        Shape::Positional(ks) => if exists|i: int|
            0 <= i < ks@.len() && i < t.sequence.len() && !conforms(
                #[trigger] t.sequence[i],
                ks@[i],
            ) {
            Err(ConvError::Conversion)
        } else if t.sequence.len() < ks@.len() {
            Err(ConvError::Arity)
        } else {
            Ok(t.sequence.subrange(0, ks@.len() as int))
        },
        Shape::Unit => Ok(Seq::empty()),
    }
}

/// The payload table that encoding the field values `vals` as `shape` gives.
pub open spec fn payload_encoding(shape: Shape, vals: Seq<ValueModel>) -> TableModel {
    match shape {
        Shape::Named(fs) => TableModel {
            named: Seq::new(fs@.len(), |i: int| (fs@[i].0@, vals[i])),
            sequence: Seq::empty(),
        },
        Shape::Positional(_) => TableModel { named: Seq::empty(), sequence: vals },
        Shape::Unit => TableModel { named: Seq::empty(), sequence: Seq::empty() },
    }
}

/// Decodes the field values of a payload table: by name, in order from the
/// sequence part, or nothing. A value of the wrong kind is a conversion error,
/// `nil` for a field that is not an `Option` (a missing key) among them;
/// a sequence too short for the positional fields is an arity error.
pub fn decode_payload(shape: &Shape, t: &Table) -> (r: Result<Vec<Value>, ConvError>)
    ensures
        match r {
            Ok(v) => payload_decoding(*shape, t@) == Ok::<Seq<ValueModel>, ConvError>(models(v@)),
            Err(e) => payload_decoding(*shape, t@) == Err::<Seq<ValueModel>, ConvError>(e),
        },
{
    match shape {
        Shape::Named(fs) => {
            let mut out: Vec<Value> = Vec::new();
            let mut i: usize = 0;
            while i < fs.len()
                invariant
                    *shape == Shape::Named(*fs),
                    i <= fs@.len(),
                    out@.len() == i,
                    forall|j: int|
                        0 <= j < i ==> (#[trigger] out@[j])@ == t@.lookup(fs@[j].0@) && conforms(
                            out@[j]@,
                            fs@[j].1,
                        ),
                decreases fs@.len() - i,
            {
                let v = t.get(&fs[i].0);
                if !conforms_exec(&v, fs[i].1) {
                    assert(!conforms(t@.lookup(fs@[i as int].0@), fs@[i as int].1));
                    return Err(ConvError::Conversion);
                }
                out.push(v);
                i += 1;
            }
            assert(models(out@) =~= Seq::new(fs@.len(), |i: int| t@.lookup(fs@[i].0@)));
            assert forall|j: int| 0 <= j < fs@.len() implies conforms(
                t@.lookup(#[trigger] fs@[j].0@),
                fs@[j].1,
            ) by {
                assert(out@[j]@ == t@.lookup(fs@[j].0@));
            }
            Ok(out)
        },
        Shape::Positional(ks) => {
            let n = ks.len();
            let mut out: Vec<Value> = Vec::new();
            let mut i: usize = 0;
            while i < n
                invariant
                    *shape == Shape::Positional(*ks),
                    n == ks@.len(),
                    i <= n,
                    i <= t@.sequence.len(),
                    out@.len() == i,
                    forall|j: int|
                        0 <= j < i ==> (#[trigger] out@[j])@ == t@.sequence[j] && conforms(
                            t@.sequence[j],
                            ks@[j],
                        ),
                decreases n - i,
            {
                if i >= t.sequence.len() {
                    assert forall|j: int| 0 <= j < ks@.len() && j < t@.sequence.len() implies conforms(
                        #[trigger] t@.sequence[j],
                        ks@[j],
                    ) by {
                        assert(out@[j]@ == t@.sequence[j]);
                    }
                    return Err(ConvError::Arity);
                }
                let v = t.sequence[i].copy();
                assert(t@.sequence[i as int] == t.sequence@[i as int]@);
                if !conforms_exec(&v, ks[i]) {
                    assert(!conforms(t@.sequence[i as int], ks@[i as int]));
                    return Err(ConvError::Conversion);
                }
                out.push(v);
                i += 1;
            }
            assert(models(out@) =~= t@.sequence.subrange(0, n as int));
            assert forall|j: int| 0 <= j < ks@.len() && j < t@.sequence.len() implies conforms(
                #[trigger] t@.sequence[j],
                ks@[j],
            ) by {
                assert(out@[j]@ == t@.sequence[j]);
            }
            Ok(out)
        },
        Shape::Unit => {
            let out: Vec<Value> = Vec::new();
            assert(models(out@) =~= Seq::<ValueModel>::empty());
            Ok(out)
        },
    }
}

/// Encodes field values as a payload table: under the field names, as the
/// sequence part, or as an empty table.
pub fn encode_payload(shape: &Shape, vals: Vec<Value>) -> (r: Table)
    requires
        vals@.len() == shape.len(),
    ensures
        r@ == payload_encoding(*shape, models(vals@)),
{
    let ghost vm = models(vals@);
    match shape {
        Shape::Named(fs) => {
            let mut t = Table::new();
            let mut vals = vals;
            // Taken from the back, so that each value is moved, not copied.
            let mut rev: Vec<Value> = Vec::new();
            while vals.len() > 0
                invariant
                    vals@.len() + rev@.len() == vm.len(),
                    forall|j: int| 0 <= j < vals@.len() ==> (#[trigger] vals@[j])@ == vm[j],
                    forall|j: int|
                        0 <= j < rev@.len() ==> (#[trigger] rev@[j])@ == vm[vm.len() - 1 - j],
                decreases vals@.len(),
            {
                let v = vals.pop().unwrap();
                rev.push(v);
            }
            let mut named: Vec<(String, Value)> = Vec::new();
            let mut i: usize = 0;
            while i < fs.len()
                invariant
                    fs@.len() == vm.len(),
                    i <= fs@.len(),
                    rev@.len() == vm.len() - i,
                    forall|j: int|
                        0 <= j < rev@.len() ==> (#[trigger] rev@[j])@ == vm[vm.len() - 1 - j],
                    named@.len() == i,
                    forall|j: int|
                        0 <= j < i ==> (#[trigger] named@[j]).0@ == fs@[j].0@ && named@[j].1@
                            == vm[j],
                decreases fs@.len() - i,
            {
                let v = rev.pop().unwrap();
                named.push((fs[i].0.clone(), v));
                i += 1;
            }
            t.named = named;
            assert(t@.named =~= payload_encoding(*shape, vm).named);
            assert(t@.sequence =~= payload_encoding(*shape, vm).sequence);
            t
        },
        Shape::Positional(_) => {
            let t = Table { named: Vec::new(), sequence: vals };
            assert(t@.named =~= payload_encoding(*shape, vm).named);
            assert(t@.sequence =~= vm);
            t
        },
        Shape::Unit => {
            let t = Table::new();
            assert(t@.named =~= Seq::<(Seq<char>, ValueModel)>::empty());
            assert(t@.sequence =~= Seq::<ValueModel>::empty());
            t
        },
    }
}

/// The value under the first entry whose key is `k`.
proof fn lemma_lookup_first(entries: Seq<(Seq<char>, ValueModel)>, j: int, k: Seq<char>)
    requires
        0 <= j < entries.len(),
        entries[j].0 == k,
        forall|m: int| 0 <= m < j ==> entries[m].0 != k,
    ensures
        lookup_in(entries, k) == entries[j].1,
{
    lemma_first_under_at(entries, j, k);
}

/// A key under which no entry stands holds `Nil`.
proof fn lemma_lookup_absent(entries: Seq<(Seq<char>, ValueModel)>, k: Seq<char>)
    requires
        forall|m: int| 0 <= m < entries.len() ==> entries[m].0 != k,
    ensures
        lookup_in(entries, k) == ValueModel::Nil,
{
    lemma_first_under_absent(entries, k);
}

/// In an encoded named payload, the value under field `j`'s name is the
/// value of the first field of that name.
proof fn lemma_encoded_lookup(fs: Seq<(String, Kind)>, vals: Seq<ValueModel>, k: Seq<char>)
    ensures
        (exists|i: int| 0 <= i < fs.len() && fs[i].0@ == k) ==> {
            let i0 = choose|i: int|
                0 <= i < fs.len() && fs[i].0@ == k && forall|m: int| 0 <= m < i ==> fs[m].0@ != k;
            &&& 0 <= i0 < fs.len()
            &&& lookup_in(Seq::new(fs.len(), |i: int| (fs[i].0@, vals[i])), k) == vals[i0]
        },
        (forall|i: int| 0 <= i < fs.len() ==> fs[i].0@ != k) ==> lookup_in(
            Seq::new(fs.len(), |i: int| (fs[i].0@, vals[i])),
            k,
        ) == ValueModel::Nil,
{
    let entries = Seq::new(fs.len(), |i: int| (fs[i].0@, vals[i]));
    if exists|i: int| 0 <= i < fs.len() && fs[i].0@ == k {
        let w = choose|i: int| 0 <= i < fs.len() && fs[i].0@ == k;
        let i1 = lemma_first_index(fs, k, w);
        lemma_lookup_first(entries, i1, k);
    } else {
        lemma_lookup_absent(entries, k);
    }
}

/// Where some field is named `k`, a first one is.
proof fn lemma_first_index(fs: Seq<(String, Kind)>, k: Seq<char>, w: int) -> (i0: int)
    requires
        0 <= w < fs.len(),
        fs[w].0@ == k,
    ensures
        0 <= i0 < fs.len(),
        fs[i0].0@ == k,
        forall|m: int| 0 <= m < i0 ==> fs[m].0@ != k,
        i0 == choose|i: int|
            0 <= i < fs.len() && fs[i].0@ == k && forall|m: int| 0 <= m < i ==> fs[m].0@ != k,
    decreases w,
{
    if exists|m: int| 0 <= m < w && fs[m].0@ == k {
        let m = choose|m: int| 0 <= m < w && fs[m].0@ == k;
        lemma_first_index(fs, k, m)
    } else {
        choose|i: int|
            0 <= i < fs.len() && fs[i].0@ == k && forall|m: int| 0 <= m < i ==> fs[m].0@ != k
    }
}

/// Decoding what was encoded gives the field values back, for every list of
/// values of the shape's kinds.
pub proof fn lemma_decode_encode(shape: Shape, vals: Seq<ValueModel>)
    requires
        shape.wf(),
        shape.admits(vals),
    ensures
        payload_decoding(shape, payload_encoding(shape, vals)) == Ok::<Seq<ValueModel>, ConvError>(
            vals,
        ),
{
    let t = payload_encoding(shape, vals);
    match shape {
        Shape::Named(fs) => {
            assert forall|i: int| 0 <= i < fs@.len() implies t.lookup(#[trigger] fs@[i].0@)
                == vals[i] by {
                assert forall|m: int| 0 <= m < i implies t.named[m].0 != fs@[i].0@ by {
                    assert(shape.name(m) != shape.name(i));
                }
                lemma_lookup_first(t.named, i, fs@[i].0@);
            }
            assert forall|i: int| 0 <= i < fs@.len() implies conforms(
                t.lookup(#[trigger] fs@[i].0@),
                fs@[i].1,
            ) by {
                assert(conforms(vals[i], shape.kind(i)));
            }
            assert(Seq::new(fs@.len(), |i: int| t.lookup(fs@[i].0@)) =~= vals);
        },
        Shape::Positional(ks) => {
            assert forall|i: int| 0 <= i < ks@.len() && i < t.sequence.len() implies conforms(
                #[trigger] t.sequence[i],
                ks@[i],
            ) by {
                assert(conforms(vals[i], shape.kind(i)));
            }
            assert(t.sequence.subrange(0, ks@.len() as int) =~= vals);
        },
        Shape::Unit => {
            assert(vals =~= Seq::<ValueModel>::empty());
        },
    }
}

/// Encoding what a well-formed table of the shape decodes to gives a table
/// equivalent to it.
pub proof fn lemma_encode_decode(shape: Shape, t: TableModel)
    requires
        shape.matches_table(t),
    ensures
        payload_decoding(shape, t) matches Ok(vals) && equivalent(payload_encoding(shape, vals), t),
{
    match shape {
        Shape::Named(fs) => {
            let vals = Seq::new(fs@.len(), |i: int| t.lookup(fs@[i].0@));
            let e = payload_encoding(shape, vals);
            assert(t.sequence =~= e.sequence);
            assert forall|k: Seq<char>| #[trigger] e.lookup(k) == t.lookup(k) by {
                lemma_encoded_lookup(fs@, vals, k);
                if exists|i: int| 0 <= i < fs@.len() && fs@[i].0@ == k {
                    let w = choose|i: int| 0 <= i < fs@.len() && fs@[i].0@ == k;
                    let i0 = lemma_first_index(fs@, k, w);
                    assert(e.lookup(k) == vals[i0]);
                } else {
                    assert forall|m: int| 0 <= m < t.named.len() implies t.named[m].0 != k by {
                        let i = choose|i: int| 0 <= i < fs@.len() && t.named[m].0 == fs@[i].0@;
                    }
                    lemma_lookup_absent(t.named, k);
                }
            }
        },
        Shape::Positional(ks) => {
            assert(t.sequence.subrange(0, ks@.len() as int) =~= t.sequence);
            let vals = t.sequence;
            assert forall|k: Seq<char>| #[trigger]
                payload_encoding(shape, vals).lookup(k) == t.lookup(k) by {
                lemma_lookup_absent(t.named, k);
                lemma_lookup_absent(Seq::<(Seq<char>, ValueModel)>::empty(), k);
            }
        },
        Shape::Unit => {
            assert(t.sequence =~= Seq::<ValueModel>::empty());
            assert forall|k: Seq<char>| #[trigger]
                payload_encoding(shape, Seq::empty()).lookup(k) == t.lookup(k) by {
                lemma_lookup_absent(t.named, k);
                lemma_lookup_absent(Seq::<(Seq<char>, ValueModel)>::empty(), k);
            }
        },
    }
}

/// A table that lacks the key of a named field which is not optional does
/// not decode: it is a conversion error, never a value with `nil` in that field.
pub proof fn lemma_missing_field_refused(shape: Shape, t: TableModel, i: int)
    requires
        shape is Named,
        0 <= i < shape.len(),
        !shape.kind(i).optional,
        t.lookup(shape.name(i)) is Nil,
    ensures
        payload_decoding(shape, t) == Err::<Seq<ValueModel>, ConvError>(ConvError::Conversion),
{
    if let Shape::Named(fs) = shape {
        assert(!conforms(t.lookup(fs@[i].0@), fs@[i].1));
    }
}

} // verus!
