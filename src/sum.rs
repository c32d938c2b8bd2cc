use vstd::prelude::*;

use crate::attr::Attributes;
use crate::binding::{
    all_forward, constructor, constructs, copy_hook, shape, shape_of, static_trampolines, statics,
    trampolines, Constructor, Trampoline,
};
use crate::error::{ConvError, GenError};
use crate::shape::{decode_payload, encode_payload, models, payload_decoding, payload_encoding, Shape};
use crate::entries::first_under;
use crate::value::{Table, TableModel, Value, ValueModel};
use crate::visibility::Fields;

verus! {

/// A variant as the runtime sees it: its name, the key that stands for it in
/// a table, and its payload shape.
#[derive(Clone, Debug)]
pub struct VariantBinding {
    pub name: String,
    pub key: String,
    pub shape: Shape,
}

/// A value of a tagged union: which variant it holds and the payload's field
/// values.
#[derive(Debug)]
pub struct EnumValue {
    pub variant: usize,
    pub payload: Vec<Value>,
}

/// Whether `v`, found under a variant's key, has the form its shape asks
/// for: any boolean for a unit variant, a decodable table otherwise.
pub open spec fn payload_accepts(shape: Shape, v: ValueModel) -> bool {
    match shape {
        Shape::Unit => v is Boolean,
        _ => v matches ValueModel::Table(p) && payload_decoding(shape, p) is Ok,
    }
}

/// Probing the variants' keys from variant `i` on, in declaration order: the
/// first key present decides, by its variant and decoded payload, or fails.
pub open spec fn probe(vs: Seq<VariantBinding>, t: TableModel, i: nat) -> Result<
    (nat, Seq<ValueModel>),
    ConvError,
>
    decreases vs.len() - i,
{
    if i >= vs.len() {
        Err(ConvError::NoMatchingVariant)
    } else {
        let shape = vs[i as int].shape;
        match t.lookup(vs[i as int].key@) {
            ValueModel::Nil => probe(vs, t, i + 1),
            ValueModel::Boolean(_) => if shape is Unit {
                Ok((i, Seq::empty()))
            } else {
                Err(ConvError::MalformedVariant)
            },
            ValueModel::Table(p) => if shape is Unit {
                Err(ConvError::MalformedVariant)
            } else {
                match payload_decoding(shape, p) {
                    Ok(vals) => Ok((i, vals)),
                    Err(e) => Err(e),
                }
            },
            _ => Err(ConvError::MalformedVariant),
        }
    }
}

/// What decoding `v` as a value of the union gives.
pub open spec fn enum_decoding(vs: Seq<VariantBinding>, v: ValueModel) -> Result<
    (nat, Seq<ValueModel>),
    ConvError,
> {
    match v {
        ValueModel::Table(t) => probe(vs, t, 0),
        _ => Err(ConvError::Conversion),
    }
}

/// What stands for a variant's payload: `true` for a unit variant, the
/// payload table otherwise.
pub open spec fn payload_value(shape: Shape, vals: Seq<ValueModel>) -> ValueModel {
    match shape {
        Shape::Unit => ValueModel::Boolean(true),
        _ => ValueModel::Table(payload_encoding(shape, vals)),
    }
}

/// The table that encoding variant `i` with payload `vals` gives: one key,
/// the variant's, holding its payload.
pub open spec fn enum_encoding(vs: Seq<VariantBinding>, i: int, vals: Seq<ValueModel>) -> TableModel {
    TableModel {
        named: seq![(vs[i].key@, payload_value(vs[i].shape, vals))],
        sequence: Seq::empty(),
    }
}

/// The variants' keys are distinct and their shapes' field names too.
pub open spec fn variants_wf(vs: Seq<VariantBinding>) -> bool {
    &&& forall|i: int, j: int| 0 <= i < j < vs.len() ==> #[trigger] vs[i].key@ != #[trigger] vs[j].key@
    &&& forall|i: int| 0 <= i < vs.len() ==> (#[trigger] vs[i]).shape.wf()
}

/// `e` holds a variant of `vs` with a payload of its shape.
pub open spec fn enum_value_wf(vs: Seq<VariantBinding>, e: EnumValue) -> bool {
    e.variant < vs.len() && vs[e.variant as int].shape.admits(models(e.payload@))
}

fn payload_is_unit(shape: &Shape) -> (r: bool)
    ensures
        r == (*shape is Unit),
{
    matches!(shape, Shape::Unit)
}

/// Decodes a value of the union from a table: the variants' keys are probed
/// in declaration order and the first one present decides. A present key of
/// the wrong form is a malformed variant; no key present, no matching variant;
/// a value that is not a table, a conversion error.
pub fn decode_enum(vs: &Vec<VariantBinding>, v: &Value) -> (r: Result<EnumValue, ConvError>)
    ensures
        match r {
            Ok(e) => enum_decoding(vs@, v@) == Ok::<(nat, Seq<ValueModel>), ConvError>(
                (e.variant as nat, models(e.payload@)),
            ),
            Err(err) => enum_decoding(vs@, v@) == Err::<(nat, Seq<ValueModel>), ConvError>(err),
        },
{
    let t = match v {
        Value::Table(t) => t,
        _ => {
            return Err(ConvError::Conversion);
        },
    };
    let mut i: usize = 0;
    while i < vs.len()
        invariant
            i <= vs@.len(),
            *v == Value::Table(*t),
            probe(vs@, t@, 0) == probe(vs@, t@, i as nat),
        decreases vs@.len() - i,
    {
        let found = t.get(&vs[i].key);
        let shape = &vs[i].shape;
        match found {
            Value::Nil => {},
            Value::Boolean(_) => {
                if payload_is_unit(shape) {
                    let payload: Vec<Value> = Vec::new();
                    assert(models(payload@) =~= Seq::<ValueModel>::empty());
                    return Ok(EnumValue { variant: i, payload });
                }
                return Err(ConvError::MalformedVariant);
            },
            Value::Table(p) => {
                if payload_is_unit(shape) {
                    return Err(ConvError::MalformedVariant);
                }
                match decode_payload(shape, &p) {
                    Ok(payload) => {
                        return Ok(EnumValue { variant: i, payload });
                    },
                    Err(e) => {
                        return Err(e);
                    },
                }
            },
            _ => {
                return Err(ConvError::MalformedVariant);
            },
        }
        i += 1;
    }
    Err(ConvError::NoMatchingVariant)
}

/// What stands for a variant's payload: `true` for a unit variant, the
/// payload table otherwise.
fn encode_payload_value(shape: &Shape, vals: Vec<Value>) -> (r: Value)
    requires
        vals@.len() == shape.len(),
    ensures
        r@ == payload_value(*shape, models(vals@)),
{
    if payload_is_unit(shape) {
        Value::Boolean(true)
    } else {
        Value::Table(encode_payload(shape, vals))
    }
}

/// Encodes a value of the union as a table holding one key, its variant's,
/// under which stands the payload: a table of named fields, a sequence, or
/// `true` for a unit variant.
pub fn encode_enum(vs: &Vec<VariantBinding>, e: EnumValue) -> (r: Table)
    requires
        enum_value_wf(vs@, e),
    ensures
        r@ == enum_encoding(vs@, e.variant as int, models(e.payload@)),
{
    let ghost vals = models(e.payload@);
    let i = e.variant;
    let pv = encode_payload_value(&vs[i].shape, e.payload);
    let mut t = Table::new();
    t.named.push((vs[i].key.clone(), pv));
    assert(t@.named =~= enum_encoding(vs@, i as int, vals).named);
    assert(t@.sequence =~= Seq::<ValueModel>::empty());
    t
}

/// The field that stands for variant `i` on a value: its payload, or `true`
/// for a unit variant, where the value holds that variant; `Nil` otherwise.
pub fn variant_field(vs: &Vec<VariantBinding>, e: &EnumValue, i: usize) -> (r: Value)
    requires
        i < vs@.len(),
        enum_value_wf(vs@, *e),
    ensures
        r@ == if e.variant == i {
            payload_value(vs@[i as int].shape, models(e.payload@))
        } else {
            ValueModel::Nil
        },
{
    if e.variant != i {
        return Value::Nil;
    }
    let mut copy: Vec<Value> = Vec::new();
    let mut j: usize = 0;
    while j < e.payload.len()
        invariant
            j <= e.payload@.len(),
            copy@.len() == j,
            forall|k: int| 0 <= k < j ==> (#[trigger] copy@[k])@ == e.payload@[k]@,
        decreases e.payload@.len() - j,
    {
        copy.push(e.payload[j].copy());
        j += 1;
    }
    assert(models(copy@) =~= models(e.payload@));
    encode_payload_value(&vs[i].shape, copy)
}

/// Makes a value of variant `i` from its constructor's input: the named
/// fields' table, or the positional arguments as a sequence; a unit variant
/// takes nothing.
pub fn construct_variant(vs: &Vec<VariantBinding>, i: usize, input: &Table) -> (r: Result<
    EnumValue,
    ConvError,
>)
    requires
        i < vs@.len(),
    ensures
        match r {
            Ok(e) => e.variant == i && payload_decoding(vs@[i as int].shape, input@) == Ok::<
                Seq<ValueModel>,
                ConvError,
            >(models(e.payload@)),
            Err(err) => payload_decoding(vs@[i as int].shape, input@) == Err::<
                Seq<ValueModel>,
                ConvError,
            >(err),
        },
{
    match decode_payload(&vs[i].shape, input) {
        Ok(payload) => Ok(EnumValue { variant: i, payload }),
        Err(e) => Err(e),
    }
}

/// Replaces a value by variant `i` decoded from `v`, as the settable field of
/// a variant with a payload does. On failure the value is left as it was.
pub fn set_variant(vs: &Vec<VariantBinding>, e: &mut EnumValue, i: usize, v: &Value) -> (r: Result<(), ConvError>)
    requires
        i < vs@.len(),
        !(vs@[i as int].shape is Unit),
    ensures
        match v@ {
            ValueModel::Table(p) => match payload_decoding(vs@[i as int].shape, p) {
                Ok(vals) => r is Ok && final(e).variant == i && models(final(e).payload@) == vals,
                Err(err) => r == Err::<(), ConvError>(err) && *final(e) == *old(e),
            },
            _ => r == Err::<(), ConvError>(ConvError::Conversion) && *final(e) == *old(e),
        },
{
    match v {
        Value::Table(t) => match construct_variant(vs, i, t) {
            Ok(n) => {
                *e = n;
                Ok(())
            },
            Err(err) => Err(err),
        },
        _ => Err(ConvError::Conversion),
    }
}

/// Probing skips the variants whose keys are absent.
proof fn lemma_probe_skips(vs: Seq<VariantBinding>, t: TableModel, i: nat)
    requires
        i <= vs.len(),
        forall|m: int| 0 <= m < i ==> t.lookup(#[trigger] vs[m].key@) is Nil,
    ensures
        probe(vs, t, 0) == probe(vs, t, i),
    decreases i,
{
    if i > 0 {
        lemma_probe_skips(vs, t, (i - 1) as nat);
        assert(t.lookup(vs[i - 1].key@) is Nil);
    }
}

/// Decoding picks the earliest declared variant whose key is present: where
/// no earlier key is present and variant `i`'s key holds a payload of the
/// right form, the result is variant `i` with that payload, whatever the keys
/// of later variants hold.
pub proof fn lemma_decode_precedence(vs: Seq<VariantBinding>, t: TableModel, i: nat)
    requires
        i < vs.len(),
        forall|m: int| 0 <= m < i ==> t.lookup(#[trigger] vs[m].key@) is Nil,
        payload_accepts(vs[i as int].shape, t.lookup(vs[i as int].key@)),
    ensures
        enum_decoding(vs, ValueModel::Table(t)) matches Ok((j, vals)) && j == i && (match t.lookup(
            vs[i as int].key@,
        ) {
            ValueModel::Table(p) => payload_decoding(vs[i as int].shape, p) == Ok::<
                Seq<ValueModel>,
                ConvError,
            >(vals),
            _ => vals.len() == 0,
        }),
{
    lemma_probe_skips(vs, t, i);
}

/// Decoding what was encoded gives the same variant and payload back.
pub proof fn lemma_enum_round_trip(vs: Seq<VariantBinding>, i: nat, vals: Seq<ValueModel>)
    requires
        variants_wf(vs),
        i < vs.len(),
        vs[i as int].shape.admits(vals),
    ensures
        enum_decoding(vs, ValueModel::Table(enum_encoding(vs, i as int, vals))) == Ok::<
            (nat, Seq<ValueModel>),
            ConvError,
        >((i, vals)),
{
    let t = enum_encoding(vs, i as int, vals);
    assert(t.named.drop_first() =~= Seq::<(Seq<char>, ValueModel)>::empty());
    assert forall|m: int| 0 <= m < i implies t.lookup(#[trigger] vs[m].key@) is Nil by {
        assert(vs[m].key@ != vs[i as int].key@);
        assert(t.named[0].0 != vs[m].key@);
        assert(first_under(t.named.drop_first(), vs[m].key@) is None);
    }
    lemma_probe_skips(vs, t, i);
    assert(t.lookup(vs[i as int].key@) == payload_value(vs[i as int].shape, vals));
    assert(vs[i as int].shape.wf());
    crate::shape::lemma_decode_encode(vs[i as int].shape, vals);
    if vs[i as int].shape is Unit {
        assert(vals =~= Seq::<ValueModel>::empty());
    }
}

/// What lower-casing a variant's name gives.
pub uninterp spec fn lower_of(s: Seq<char>) -> Seq<char>;

/// Relies on `str::to_lowercase`: the result depends on the characters alone.
#[verifier::external_body]
fn lowercase(s: &String) -> (r: String)
    ensures
        r@ == lower_of(s@),
{
    s.to_lowercase()
}

/// A variant as declared: its name and its fields.
#[derive(Clone, Debug)]
pub struct VariantDecl {
    pub name: String,
    pub fields: Fields,
}

/// The bindings generated for a tagged union.
#[derive(Clone, Debug)]
pub struct EnumBinding {
    pub name: String,
    /// Per variant: its name, its key, its payload shape.
    pub variants: Vec<VariantBinding>,
    /// Per variant: how its constructor builds a value.
    pub constructors: Vec<Constructor>,
    /// Per variant: whether a settable field is registered under its key.
    pub setters: Vec<bool>,
    /// The receiverless functions, registered in the type's namespace.
    pub functions: Vec<Trampoline>,
    /// Every listed method and function, registered on instances.
    pub methods: Vec<Trampoline>,
    pub custom_fields: Option<String>,
    pub custom_impls: Option<String>,
}

/// Two variants' names lower-case to the same key.
pub open spec fn keys_collide(decls: Seq<VariantDecl>) -> bool {
    exists|i: int, j: int|
        0 <= i < j < decls.len() && #[trigger] lower_of(decls[i].name@) == #[trigger] lower_of(
            decls[j].name@,
        )
}

/// `b` is the binding of a tagged union named `name` with the given variants
/// and options.
pub open spec fn binds_enum(b: EnumBinding, name: Seq<char>, decls: Seq<VariantDecl>, attrs: Attributes) -> bool {
    &&& b.name@ == name
    &&& b.variants@.len() == decls.len()
    &&& b.constructors@.len() == decls.len()
    &&& b.setters@.len() == decls.len()
    &&& forall|i: int|
        0 <= i < decls.len() ==> {
            &&& (#[trigger] b.variants@[i]).name@ == decls[i].name@
            &&& b.variants@[i].key@ == lower_of(decls[i].name@)
            &&& shape_of(decls[i].fields, b.variants@[i].shape)
            &&& constructs(decls[i].fields, b.constructors@[i])
            &&& b.setters@[i] == !(decls[i].fields is Unit)
        }
    &&& all_forward(statics(attrs.methods@, attrs.methods@.len()), b.functions@)
    &&& all_forward(attrs.methods@, b.methods@)
    &&& b.custom_fields == attrs.custom_fields
    &&& b.custom_impls == attrs.custom_impls
}

/// Builds the bindings of a tagged union: per variant a field under its
/// lower-cased name, settable unless the variant is a unit one, and a
/// constructor; and the trampolines of the listed methods and functions.
/// Fails where two variants' names lower-case to the same key, which would
/// make decoding ambiguous.
pub fn builder(name: &String, decls: &Vec<VariantDecl>, attrs: &Attributes) -> (r: Result<
    EnumBinding,
    GenError,
>)
    ensures
        match r {
            Ok(b) => binds_enum(b, name@, decls@, *attrs) && !keys_collide(decls@),
            Err(e) => e == GenError::DuplicateVariantKey && keys_collide(decls@),
        },
        !keys_collide(decls@) ==> r is Ok,
{
    let mut variants: Vec<VariantBinding> = Vec::new();
    let mut constructors: Vec<Constructor> = Vec::new();
    let mut setters: Vec<bool> = Vec::new();
    let mut i: usize = 0;
    while i < decls.len()
        invariant
            i <= decls@.len(),
            variants@.len() == i,
            constructors@.len() == i,
            setters@.len() == i,
            forall|j: int|
                0 <= j < i ==> {
                    &&& (#[trigger] variants@[j]).name@ == decls@[j].name@
                    &&& variants@[j].key@ == lower_of(decls@[j].name@)
                    &&& shape_of(decls@[j].fields, variants@[j].shape)
                    &&& constructs(decls@[j].fields, constructors@[j])
                    &&& setters@[j] == !(decls@[j].fields is Unit)
                },
        decreases decls@.len() - i,
    {
        let d = &decls[i];
        variants.push(
            VariantBinding { name: d.name.clone(), key: lowercase(&d.name), shape: shape(&d.fields) },
        );
        constructors.push(constructor(&d.fields));
        setters.push(!matches!(d.fields, Fields::Unit));
        i += 1;
    }
    let mut j: usize = 0;
    while j < variants.len()
        invariant
            j <= variants@.len(),
            variants@.len() == decls@.len(),
            forall|m: int|
                0 <= m < variants@.len() ==> (#[trigger] variants@[m]).key@ == lower_of(
                    decls@[m].name@,
                ),
            forall|a: int, c: int|
                0 <= a < j && a < c < variants@.len() ==> lower_of(decls@[a].name@) != lower_of(
                    decls@[c].name@,
                ),
        decreases variants@.len() - j,
    {
        let mut k: usize = j + 1;
        while k < variants.len()
            invariant
                j < k <= variants@.len(),
                variants@.len() == decls@.len(),
                forall|m: int|
                    0 <= m < variants@.len() ==> (#[trigger] variants@[m]).key@ == lower_of(
                        decls@[m].name@,
                    ),
                forall|c: int| j < c < k ==> lower_of(decls@[j as int].name@) != lower_of(decls@[c].name@),
            decreases variants@.len() - k,
        {
            if variants[j].key == variants[k].key {
                assert(variants@[j as int].key@ == lower_of(decls@[j as int].name@));
                assert(variants@[k as int].key@ == lower_of(decls@[k as int].name@));
                return Err(GenError::DuplicateVariantKey);
            }
            k += 1;
        }
        j += 1;
    }
    Ok(EnumBinding {
        name: name.clone(),
        variants,
        constructors,
        setters,
        functions: static_trampolines(&attrs.methods),
        methods: trampolines(&attrs.methods),
        custom_fields: copy_hook(&attrs.custom_fields),
        custom_impls: copy_hook(&attrs.custom_impls),
    })
}

/// A unit variant gets no settable field: whatever the declaration, the
/// binding registers a setter under a variant's key exactly when the variant
/// carries a payload.
pub proof fn lemma_no_unit_setter(b: EnumBinding, name: Seq<char>, decls: Seq<VariantDecl>, attrs: Attributes, i: int)
    requires
        binds_enum(b, name, decls, attrs),
        0 <= i < decls.len(),
    ensures
        decls[i].fields is Unit ==> !b.setters@[i] && b.variants@[i].shape is Unit,
        !(decls[i].fields is Unit) ==> b.setters@[i],
{
    assert(b.variants@[i].name@ == decls[i].name@);
}

} // verus!
