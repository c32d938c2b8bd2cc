use vstd::prelude::*;

use crate::attr::Attributes;
use crate::binding::{
    all_forward, constructor, constructs, copy_hook, shape, shape_of, static_trampolines, statics,
    trampolines, Constructor, Trampoline,
};
use crate::error::{ConvError, GenError};
use crate::shape::{decode_payload, encode_payload, models, payload_decoding, payload_encoding, Shape};
use crate::value::{conforms, conforms_exec, Table, Value, ValueModel};
use crate::visibility::{
    field_id_at, field_id_eq, field_ty_at, fields_len, resolution, selects, FieldId, FieldKey, Fields,
};

verus! {

/// What a script may do with one field of a record.
#[derive(Clone, Debug)]
pub struct FieldAccess {
    pub id: FieldId,
    pub ty: String,
    /// A getter is registered: reading yields a copy of the field.
    pub get: bool,
    /// A setter is registered: writing replaces the field.
    pub set: bool,
}

/// The bindings generated for a record.
#[derive(Clone, Debug)]
pub struct StructBinding {
    pub name: String,
    /// One entry per declared field, in declaration order.
    pub fields: Vec<FieldAccess>,
    /// The payload shape that converts instances from and to tables.
    pub shape: Shape,
    pub constructor: Constructor,
    /// The receiverless functions, registered in the type's namespace.
    pub functions: Vec<Trampoline>,
    /// Every listed method and function, registered on instances.
    pub methods: Vec<Trampoline>,
    pub custom_fields: Option<String>,
    pub custom_impls: Option<String>,
}

/// `b` is the binding of a record named `name` with the given fields and options.
pub open spec fn binds_struct(b: StructBinding, name: Seq<char>, fields: Fields, attrs: Attributes) -> bool {
    &&& b.name@ == name
    &&& b.fields@.len() == fields.len()
    &&& forall|i: int|
        0 <= i < fields.len() ==> {
            &&& (#[trigger] b.fields@[i]).id@ == fields.key_at(i)
            &&& b.fields@[i].ty@ == fields.ty_at(i)
            &&& b.fields@[i].get == selects(attrs.get, fields, i)
            &&& b.fields@[i].set == selects(attrs.set, fields, i)
        }
    &&& shape_of(fields, b.shape)
    &&& constructs(fields, b.constructor)
    &&& all_forward(statics(attrs.methods@, attrs.methods@.len()), b.functions@)
    &&& all_forward(attrs.methods@, b.methods@)
    &&& b.custom_fields == attrs.custom_fields
    &&& b.custom_impls == attrs.custom_impls
}

/// Builds the bindings of a record: getters and setters as the `get` and
/// `set` options select them, independently of each other, the constructor,
/// and the trampolines of the listed methods and functions. Fails where
/// resolving `get` fails, then where resolving `set` fails.
pub fn builder(name: &String, fields: &Fields, attrs: &Attributes) -> (r: Result<StructBinding, GenError>)
    ensures
        match resolution(attrs.get, *fields) {
            Err(e) => r == Err::<StructBinding, GenError>(e),
            Ok(_) => match resolution(attrs.set, *fields) {
                Err(e) => r == Err::<StructBinding, GenError>(e),
                Ok(_) => r matches Ok(b) && binds_struct(b, name@, *fields, *attrs),
            },
        },
{
    if let Err(e) = attrs.get.fields_from_visibility(fields) {
        return Err(e);
    }
    if let Err(e) = attrs.set.fields_from_visibility(fields) {
        return Err(e);
    }
    let n = fields_len(fields);
    let mut access: Vec<FieldAccess> = Vec::new();
    let mut i: usize = 0;
    while i < n
        invariant
            n == fields.len(),
            i <= n,
            resolution(attrs.get, *fields) is Ok,
            resolution(attrs.set, *fields) is Ok,
            access@.len() == i,
            forall|j: int|
                0 <= j < i ==> {
                    &&& (#[trigger] access@[j]).id@ == fields.key_at(j)
                    &&& access@[j].ty@ == fields.ty_at(j)
                    &&& access@[j].get == selects(attrs.get, *fields, j)
                    &&& access@[j].set == selects(attrs.set, *fields, j)
                },
        decreases n - i,
    {
        let get = attrs.get.selects_exec(fields, i);
        let set = attrs.set.selects_exec(fields, i);
        access.push(FieldAccess { id: field_id_at(fields, i), ty: field_ty_at(fields, i), get, set });
        i += 1;
    }
    Ok(
        StructBinding {
            name: name.clone(),
            fields: access,
            shape: shape(fields),
            constructor: constructor(fields),
            functions: static_trampolines(&attrs.methods),
            methods: trampolines(&attrs.methods),
            custom_fields: copy_hook(&attrs.custom_fields),
            custom_impls: copy_hook(&attrs.custom_impls),
        },
    )
}

/// The field of a tuple record that a script's index stands for: script
/// indices start at 1, native positions at 0, so index `k` is position
/// `k - 1`, and index 0 is no field.
pub fn position_of_index(index: usize) -> (r: Option<FieldId>)
    ensures
        match r {
            Some(id) => index >= 1 && id@ == FieldKey::Position((index - 1) as nat),
            None => index == 0,
        },
{
    if index == 0 {
        None
    } else {
        Some(FieldId::Position(index - 1))
    }
}

/// The script index of the tuple record field at position `p`: `p + 1`.
pub fn index_of_position(p: usize) -> (r: Option<usize>)
    ensures
        match r {
            Some(k) => k == p + 1,
            None => p == usize::MAX,
        },
{
    if p < usize::MAX {
        Some(p + 1)
    } else {
        None
    }
}

impl StructBinding {
    /// The shape's field count and the field list agree.
    pub open spec fn wf(&self) -> bool {
        self.shape.len() == self.fields@.len()
    }

    /// The index of the first field with the given identifier.
    pub open spec fn index_of(&self, key: FieldKey) -> Option<int> {
        if exists|i: int| 0 <= i < self.fields@.len() && (#[trigger] self.fields@[i]).id@ == key {
            Some(
                choose|i: int|
                    0 <= i < self.fields@.len() && (#[trigger] self.fields@[i]).id@ == key && forall|
                        m: int,
                    | 0 <= m < i ==> self.fields@[m].id@ != key,
            )
        } else {
            None
        }
    }

    /// The index of the first field with the given identifier.
    pub fn field_index(&self, key: &FieldId) -> (r: Option<usize>)
        ensures
            match r {
                Some(i) => self.index_of(key@) == Some(i as int) && i < self.fields@.len(),
                None => self.index_of(key@) is None,
            },
    {
        let mut i: usize = 0;
        while i < self.fields.len()
            invariant
                i <= self.fields@.len(),
                forall|m: int| 0 <= m < i ==> self.fields@[m].id@ != key@,
            decreases self.fields@.len() - i,
        {
            if field_id_eq(&self.fields[i].id, key) {
                proof {
                    let c = self.index_of(key@).unwrap();
                    assert(c == i) by {
                        if c < i {
                            assert(self.fields@[c].id@ != key@);
                        } else if c > i {
                            assert(self.fields@[i as int].id@ != key@);
                        }
                    }
                }
                return Some(i);
            }
            i += 1;
        }
        None
    }

    /// What a script reads from field `key` of `inst`: a copy of the field,
    /// or `None` where no getter is registered under that identifier.
    pub fn get(&self, inst: &Vec<Value>, key: &FieldId) -> (r: Option<Value>)
        requires
            inst@.len() == self.fields@.len(),
        ensures
            match self.index_of(key@) {
                Some(i) => if self.fields@[i].get {
                    r matches Some(v) && v@ == inst@[i]@
                } else {
                    r is None
                },
                None => r is None,
            },
    {
        match self.field_index(key) {
            Some(i) => if self.fields[i].get {
                Some(inst[i].copy())
            } else {
                None
            },
            None => None,
        }
    }

    /// What a script's write of `v` into field `key` of `inst` does: replaces
    /// the field where a setter is registered under that identifier and `v`
    /// is of the field's kind. Otherwise `inst` is left as it was, with an
    /// unknown-field error where there is no setter and a conversion error
    /// where `v` is of the wrong kind.
    pub fn set(&self, inst: &mut Vec<Value>, key: &FieldId, v: Value) -> (r: Result<(), ConvError>)
        requires
            self.wf(),
            old(inst)@.len() == self.fields@.len(),
        ensures
            match self.index_of(key@) {
                Some(i) => if !self.fields@[i].set {
                    r == Err::<(), ConvError>(ConvError::UnknownField) && *final(inst) == *old(inst)
                } else if !conforms(v@, self.shape.kind(i)) {
                    r == Err::<(), ConvError>(ConvError::Conversion) && *final(inst) == *old(inst)
                } else {
                    r is Ok && final(inst)@ == old(inst)@.update(i, v)
                },
                None => r == Err::<(), ConvError>(ConvError::UnknownField) && *final(inst) == *old(
                    inst,
                ),
            },
    {
        match self.field_index(key) {
            Some(i) => {
                if !self.fields[i].set {
                    return Err(ConvError::UnknownField);
                }
                if !conforms_exec(&v, self.field_kind(i)) {
                    return Err(ConvError::Conversion);
                }
                inst[i] = v;
                Ok(())
            },
            None => Err(ConvError::UnknownField),
        }
    }

    /// The kind of value that field `i` accepts.
    pub fn field_kind(&self, i: usize) -> (r: crate::value::Kind)
        requires
            self.wf(),
            i < self.fields@.len(),
        ensures
            r == self.shape.kind(i as int),
    {
        match &self.shape {
            Shape::Named(fs) => fs[i].1,
            Shape::Positional(ks) => ks[i],
            Shape::Unit => crate::value::Kind { base: crate::value::Base::Other, optional: true },
        }
    }

    /// Converts a runtime value into an instance: a table is decoded by the
    /// record's shape; anything else is a conversion error. A missing key of a
    /// field that is not an `Option`, or a value that its type cannot hold
    /// (an integer out of its bounds among them), is a conversion error too.
    pub fn decode(&self, v: &Value) -> (r: Result<Vec<Value>, ConvError>)
        ensures
            match v@ {
                ValueModel::Table(t) => match r {
                    Ok(vals) => payload_decoding(self.shape, t) == Ok::<Seq<ValueModel>, ConvError>(
                        models(vals@),
                    ),
                    Err(e) => payload_decoding(self.shape, t) == Err::<Seq<ValueModel>, ConvError>(
                        e,
                    ),
                },
                _ => r == Err::<Vec<Value>, ConvError>(ConvError::Conversion),
            },
    {
        match v {
            Value::Table(t) => decode_payload(&self.shape, t),
            _ => Err(ConvError::Conversion),
        }
    }

    /// Converts an instance into a runtime table: named fields under their
    /// names, positional fields as the sequence.
    pub fn encode(&self, inst: Vec<Value>) -> (r: Table)
        requires
            inst@.len() == self.shape.len(),
        ensures
            r@ == payload_encoding(self.shape, models(inst@)),
    {
        encode_payload(&self.shape, inst)
    }
}

} // verus!
