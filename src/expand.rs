use vstd::prelude::*;

use crate::attr::{parse_step, Attributes, Meta};
use crate::error::GenError;
use crate::record::{binds_struct, StructBinding};
use crate::sum::{binds_enum, keys_collide, EnumBinding, VariantDecl};
use crate::visibility::{resolution, FieldKey, Fields};

verus! {

/// What the annotation is applied to.
#[derive(Clone, Debug)]
pub enum Data {
    Struct(Fields),
    Enum(Vec<VariantDecl>),
    Union,
}

/// A generic parameter of the declaration, by its name alone (`T`, `'a`,
/// `N`); bounds and defaults belong to the declaration, not to its uses.
#[derive(Clone, Debug)]
pub enum GenericParam {
    Type(String),
    Lifetime(String),
    Const(String),
}

/// The annotated declaration: its name, its generic parameters and its body.
#[derive(Clone, Debug)]
pub struct DeriveInput {
    pub name: String,
    pub generics: Vec<GenericParam>,
    pub data: Data,
}

pub open spec fn param_name(p: GenericParam) -> Seq<char> {
    match p {
        GenericParam::Type(n) => n@,
        GenericParam::Lifetime(n) => n@,
        GenericParam::Const(n) => n@,
    }
}

/// The arguments that name the declared type in the generated impls: each
/// generic parameter by its name, in order, without bounds or defaults.
pub fn remove_ty_from_generics(params: &Vec<GenericParam>) -> (r: Vec<String>)
    ensures
        r@.len() == params@.len(),
        forall|i: int| 0 <= i < params@.len() ==> (#[trigger] r@[i])@ == param_name(params@[i]),
{
    let mut out: Vec<String> = Vec::new();
    let mut i: usize = 0;
    while i < params.len()
        invariant
            i <= params@.len(),
            out@.len() == i,
            forall|j: int| 0 <= j < i ==> (#[trigger] out@[j])@ == param_name(params@[j]),
        decreases params@.len() - i,
    {
        let name = match &params[i] {
            GenericParam::Type(n) => n.clone(),
            GenericParam::Lifetime(n) => n.clone(),
            GenericParam::Const(n) => n.clone(),
        };
        out.push(name);
        i += 1;
    }
    out
}

/// The bindings generated for one declaration.
#[derive(Clone, Debug)]
pub enum Binding {
    Struct(StructBinding),
    Enum(EnumBinding),
}

/// The options before any is read.
pub open spec fn is_default(a: Attributes) -> bool {
    &&& a.get is PubSuper
    &&& a.set is PubSuper
    &&& a.methods@.len() == 0
    &&& a.custom_fields is None
    &&& a.custom_impls is None
}

/// `states` are the options after reading none, one, ... of `metas`, each
/// without error, from the defaults on.
pub open spec fn reads_in_turn(metas: Seq<Meta>, states: Seq<Attributes>) -> bool {
    &&& states.len() == metas.len() + 1
    &&& is_default(states[0])
    &&& forall|k: int|
        0 <= k < metas.len() ==> parse_step(states[k], #[trigger] metas[k], states[k + 1], Ok(()))
}

/// Reading all of `metas` succeeds and gives `a`.
pub open spec fn options_give(metas: Seq<Meta>, a: Attributes) -> bool {
    exists|states: Seq<Attributes>| reads_in_turn(metas, states) && states.last() == a
}

/// Reading `metas` fails with `e`: the first options read, and the next one
/// fails with `e`.
pub open spec fn options_fail(metas: Seq<Meta>, e: GenError) -> bool {
    exists|k: int, states: Seq<Attributes>, after: Attributes|
        0 <= k < metas.len() && reads_in_turn(metas.subrange(0, k), states) && parse_step(
            states.last(),
            metas[k],
            after,
            Err(e),
        )
}

impl Attributes {
    /// Reads the options one after another, from the defaults; a later key
    /// replaces what an earlier one set. Stops at the first error.
    pub fn from_metas(metas: &Vec<Meta>) -> (r: Result<Attributes, GenError>)
        ensures
            match r {
                Ok(a) => options_give(metas@, a),
                Err(e) => options_fail(metas@, e),
            },
    {
        let mut a = Attributes::new();
        let ghost mut states: Seq<Attributes> = seq![a];
        let mut k: usize = 0;
        while k < metas.len()
            invariant
                k <= metas@.len(),
                reads_in_turn(metas@.subrange(0, k as int), states),
                states.last() == a,
            decreases metas@.len() - k,
        {
            let r = a.parse(&metas[k]);
            if let Err(e) = r {
                assert(options_fail(metas@, e)) by {
                    assert(parse_step(states.last(), metas@[k as int], a, Err(e)));
                }
                return Err(e);
            }
            proof {
                let next = states.push(a);
                let m = metas@.subrange(0, k + 1);
                assert forall|j: int| 0 <= j < m.len() implies parse_step(
                    next[j],
                    #[trigger] m[j],
                    next[j + 1],
                    Ok(()),
                ) by {
                    if j < k {
                        assert(m[j] == metas@.subrange(0, k as int)[j]);
                    }
                }
                states = next;
            }
            k += 1;
        }
        assert(metas@.subrange(0, metas@.len() as int) =~= metas@);
        Ok(a)
    }
}

/// Generates the bindings of an annotated declaration from its options:
/// those of a record for a struct, those of a tagged union for an enum. Fails
/// where an option cannot be read, where the declaration is neither a struct
/// nor an enum, where a struct's `get` or `set` cannot be resolved, and where
/// two variants of an enum would share a key.
pub fn mlua_gen(args: &Vec<Meta>, input: &DeriveInput) -> (r: Result<Binding, GenError>)
    ensures
        match r {
            Ok(Binding::Struct(b)) => exists|a: Attributes|
                options_give(args@, a) && (input.data matches Data::Struct(f) && binds_struct(
                    b,
                    input.name@,
                    f,
                    a,
                )),
            Ok(Binding::Enum(b)) => exists|a: Attributes|
                options_give(args@, a) && (input.data matches Data::Enum(vs) && binds_enum(
                    b,
                    input.name@,
                    vs@,
                    a,
                )),
            Err(e) => options_fail(args@, e) || exists|a: Attributes|
                options_give(args@, a) && match input.data {
                    Data::Union => e == GenError::UnsupportedDeclaration,
                    Data::Struct(f) => resolution(a.get, f) == Err::<Seq<FieldKey>, GenError>(e) || (
                    resolution(a.get, f) is Ok && resolution(a.set, f) == Err::<Seq<FieldKey>, GenError>(
                        e,
                    )),
                    Data::Enum(vs) => e == GenError::DuplicateVariantKey && keys_collide(vs@),
                },
        },
{
    let attrs = match Attributes::from_metas(args) {
        Ok(a) => a,
        Err(e) => {
            return Err(e);
        },
    };
    match &input.data {
        Data::Struct(fields) => match crate::record::builder(&input.name, fields, &attrs) {
            Ok(b) => Ok(Binding::Struct(b)),
            Err(e) => Err(e),
        },
        Data::Enum(variants) => match crate::sum::builder(&input.name, variants, &attrs) {
            Ok(b) => Ok(Binding::Enum(b)),
            Err(e) => Err(e),
        },
        Data::Union => Err(GenError::UnsupportedDeclaration),
    }
}

} // verus!
