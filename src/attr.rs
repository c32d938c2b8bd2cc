use vstd::prelude::*;

use crate::error::GenError;
use crate::visibility::{access_rank, FieldId, FieldKey, FieldsVisibility, Visibility, keys_of};

verus! {

/// An expression in an option value, as the declaration parser hands it over.
#[derive(Debug)]
pub enum Expr {
    /// A path such as `name` or `u8`, as its text.
    Path(String),
    /// An integer literal, such as a field position.
    Int(usize),
    /// A reference such as `&self` or `&mut self`, as its token text (`& self`).
    Reference(String),
    /// A call `func(args)`: the function path's text and the arguments.
    Call(String, Vec<Expr>),
    /// Any other expression.
    Other,
}

/// The value of one `key = value` option.
#[derive(Debug)]
pub enum MetaValue {
    /// `*`
    Star,
    /// `pub`, `pub(crate)`, `pub(super)`, ...
    Vis(Visibility),
    /// `[a, b, ...]`
    Array(Vec<Expr>),
    /// A single identifier.
    Ident(String),
    /// Anything else.
    Other,
}

/// One `key = value` option.
#[derive(Debug)]
pub struct Meta {
    pub key: String,
    pub value: MetaValue,
}

/// A method or an associated function to expose, as given in the `impl` list.
#[derive(Clone, Debug)]
pub struct MethodOrFunction {
    pub name: String,
    /// The parameter types, the receiver excluded.
    pub args: Vec<String>,
    /// The receiver is mutable (`&mut self` or `mut self`).
    pub is_mut: bool,
    /// There is a receiver: the call is bound to an instance.
    pub is_self: bool,
}

/// The declarative options of one annotated declaration.
#[derive(Clone, Debug)]
pub struct Attributes {
    pub get: FieldsVisibility,
    pub set: FieldsVisibility,
    pub methods: Vec<MethodOrFunction>,
    pub custom_fields: Option<String>,
    pub custom_impls: Option<String>,
}

/// One of the four receiver forms, as token text.
pub open spec fn is_receiver(s: Seq<char>) -> bool {
    s == "& mut self"@ || s == "mut self"@ || s == "& self"@ || s == "self"@
}

/// One of the two mutable receiver forms.
pub open spec fn is_mut_receiver(s: Seq<char>) -> bool {
    s == "& mut self"@ || s == "mut self"@
}

pub open spec fn views(s: Seq<String>) -> Seq<Seq<char>> {
    s.map_values(|x: String| x@)
}

/// `m` is the method described by a call named `name` with argument texts `args`.
pub open spec fn describes(m: MethodOrFunction, name: Seq<char>, args: Seq<Seq<char>>) -> bool {
    let recv = args.len() > 0 && is_receiver(args[0]);
    &&& m.name@ == name
    &&& m.is_self == recv
    &&& m.is_mut == (args.len() > 0 && is_mut_receiver(args[0]))
    &&& views(m.args@) == if recv {
        args.drop_first()
    } else {
        args
    }
}

/// The argument texts that a call keeps: paths and references, in order.
pub open spec fn kept_args(args: Seq<Expr>) -> Seq<Seq<char>>
    decreases args.len(),
{
    if args.len() == 0 {
        Seq::empty()
    } else {
        let rest = kept_args(args.drop_last());
        match args.last() {
            Expr::Path(s) => rest.push(s@),
            Expr::Reference(s) => rest.push(s@),
            _ => rest,
        }
    }
}

/// The key that an allow-list element names, if it names one.
pub open spec fn list_key(e: Expr) -> Option<FieldKey> {
    match e {
        Expr::Path(s) => Some(FieldKey::Name(s@)),
        Expr::Int(i) => Some(FieldKey::Position(i as nat)),
        _ => None,
    }
}

/// `r` is what reading `value` as a visibility option gives.
pub open spec fn visibility_parsed(value: MetaValue, r: Result<FieldsVisibility, GenError>) -> bool {
    match value {
        MetaValue::Star => r matches Ok(v) && v is All,
        MetaValue::Vis(vis) => match access_rank(vis) {
            Some(k) => r matches Ok(v) && (if k == 4 {
                v is Nothing
            } else {
                v.rank() == k && v.reads_access()
            }),
            None => r == Err::<FieldsVisibility, GenError>(GenError::UnexpectedVisibility),
        },
        MetaValue::Array(elems) => if exists|i: int|
            0 <= i < elems@.len() && (#[trigger] list_key(elems@[i])) is None {
            r == Err::<FieldsVisibility, GenError>(GenError::ExpectedIdentifier)
        } else {
            r matches Ok(FieldsVisibility::Custom(list)) && keys_of(list@) == elems@.map_values(
                |e: Expr| list_key(e).unwrap(),
            )
        },
        _ => r == Err::<FieldsVisibility, GenError>(GenError::InvalidValue),
    }
}

/// `ms` are the methods that the `impl` list `elems` describes.
pub open spec fn methods_parsed(elems: Seq<Expr>, ms: Seq<MethodOrFunction>) -> bool {
    &&& ms.len() == elems.len()
    &&& forall|i: int|
        0 <= i < elems.len() ==> (#[trigger] elems[i] matches Expr::Call(f, args) && describes(
            ms[i],
            f@,
            kept_args(args@),
        ))
}

/// Whether a string holds the given text.
pub(crate) fn string_eq(a: &String, b: &str) -> (r: bool)
    ensures
        r == (a@ == b@),
{
    let b = b.to_owned();
    *a == b
}

impl MethodOrFunction {
    /// Describes the call `name(args)`. A first argument in one of the four
    /// receiver forms (`self`, `mut self`, `& self`, `& mut self`) is taken as
    /// the receiver and left out of the parameters.
    pub fn from_call(name: String, args: Vec<String>) -> (r: MethodOrFunction)
        ensures
            describes(r, name@, views(args@)),
    {
        let mut args = args;
        let (is_self, is_mut) = if args.len() > 0 {
            let first = &args[0];
            let m = string_eq(first, "& mut self") || string_eq(first, "mut self");
            let s = m || string_eq(first, "& self") || string_eq(first, "self");
            (s, m)
        } else {
            (false, false)
        };
        let ghost all = args@;
        if is_self {
            args.remove(0);
            assert(views(args@) =~= views(all).drop_first());
        }
        MethodOrFunction { name, args, is_mut, is_self }
    }
}

/// The texts of the arguments that a call keeps.
fn call_args(args: &Vec<Expr>) -> (r: Vec<String>)
    ensures
        views(r@) == kept_args(args@),
{
    let mut out: Vec<String> = Vec::new();
    let mut i: usize = 0;
    while i < args.len()
        invariant
            i <= args@.len(),
            views(out@) == kept_args(args@.subrange(0, i as int)),
        decreases args@.len() - i,
    {
        let ghost before = out@;
        assert(args@.subrange(0, i + 1).drop_last() =~= args@.subrange(0, i as int));
        match &args[i] {
            Expr::Path(s) => {
                out.push(s.clone());
                assert(views(out@) =~= views(before).push(s@));
            },
            Expr::Reference(s) => {
                out.push(s.clone());
                assert(views(out@) =~= views(before).push(s@));
            },
            _ => {},
        }
        i += 1;
    }
    assert(args@.subrange(0, args@.len() as int) =~= args@);
    out
}

/// The methods that an `impl` list describes; `None` where an element is not a call.
fn parse_methods(elems: &Vec<Expr>) -> (r: Option<Vec<MethodOrFunction>>)
    ensures
        match r {
            Some(ms) => (forall|i: int| 0 <= i < elems@.len() ==> #[trigger] elems@[i] is Call)
                && methods_parsed(elems@, ms@),
            None => !(forall|i: int| 0 <= i < elems@.len() ==> #[trigger] elems@[i] is Call),
        },
{
    let mut ms: Vec<MethodOrFunction> = Vec::new();
    let mut i: usize = 0;
    while i < elems.len()
        invariant
            i <= elems@.len(),
            ms@.len() == i,
            forall|j: int|
                0 <= j < i ==> (#[trigger] elems@[j] matches Expr::Call(f, args) && describes(
                    ms@[j],
                    f@,
                    kept_args(args@),
                )),
        decreases elems@.len() - i,
    {
        match &elems[i] {
            Expr::Call(f, args) => {
                let kept = call_args(args);
                let m = MethodOrFunction::from_call(f.clone(), kept);
                ms.push(m);
            },
            _ => {
                assert(!(elems@[i as int] is Call));
                return None;
            },
        }
        i += 1;
    }
    Some(ms)
}

impl FieldsVisibility {
    /// Reads a `get` or `set` option value: `*` is `All`, an access level is
    /// the threshold it names, and a list of names or positions is an exact
    /// allow-list.
    pub fn parse(value: &MetaValue) -> (r: Result<FieldsVisibility, GenError>)
        ensures
            visibility_parsed(*value, r),
    {
        match value {
            MetaValue::Star => Ok(FieldsVisibility::All),
            MetaValue::Vis(vis) => FieldsVisibility::try_from_visibility(vis),
            MetaValue::Array(elems) => {
                let mut list: Vec<FieldId> = Vec::new();
                let mut i: usize = 0;
                while i < elems.len()
                    invariant
                        i <= elems@.len(),
                        *value == MetaValue::Array(*elems),
                        list@.len() == i,
                        forall|j: int| 0 <= j < i ==> (#[trigger] list_key(elems@[j])) is Some,
                        forall|j: int|
                            0 <= j < i ==> list@[j]@ == (#[trigger] list_key(elems@[j])).unwrap(),
                    decreases elems@.len() - i,
                {
                    let id = match &elems[i] {
                        Expr::Path(s) => FieldId::Name(s.clone()),
                        Expr::Int(k) => FieldId::Position(*k),
                        _ => {
                            assert(list_key(elems@[i as int]) is None);
                            return Err(GenError::ExpectedIdentifier);
                        },
                    };
                    list.push(id);
                    i += 1;
                }
                let r = FieldsVisibility::Custom(list);
                assert(keys_of(list@) =~= elems@.map_values(|e: Expr| list_key(e).unwrap()));
                Ok(r)
            },
            _ => Err(GenError::InvalidValue),
        }
    }
}

/// `after` and `r` are what reading the option `meta` into `before` gives.
pub open spec fn parse_step(before: Attributes, meta: Meta, after: Attributes, r: Result<(), GenError>) -> bool {
    &&& (r is Err ==> after == before)
    &&& (meta.key@ == "get"@ ==> exists|v: Result<FieldsVisibility, GenError>|
        visibility_parsed(meta.value, v) && match v {
            Ok(g) => r is Ok && after == (Attributes { get: g, ..before }),
            Err(e) => r == Err::<(), GenError>(e),
        })
    &&& (meta.key@ == "set"@ ==> exists|v: Result<FieldsVisibility, GenError>|
        visibility_parsed(meta.value, v) && match v {
            Ok(g) => r is Ok && after == (Attributes { set: g, ..before }),
            Err(e) => r == Err::<(), GenError>(e),
        })
    &&& (meta.key@ == "impl"@ ==> match meta.value {
        MetaValue::Array(elems) => if forall|i: int|
            0 <= i < elems@.len() ==> #[trigger] elems@[i] is Call {
            r is Ok && methods_parsed(elems@, after.methods@) && after == (Attributes {
                methods: after.methods,
                ..before
            })
        } else {
            r == Err::<(), GenError>(GenError::ExpectedIdentifier)
        },
        _ => r == Err::<(), GenError>(GenError::InvalidValue),
    })
    &&& (meta.key@ == "custom_fields"@ ==> match meta.value {
        MetaValue::Ident(s) => r is Ok && after == (Attributes { custom_fields: Some(s), ..before }),
        _ => r == Err::<(), GenError>(GenError::InvalidValue),
    })
    &&& (meta.key@ == "custom_impls"@ ==> match meta.value {
        MetaValue::Ident(s) => r is Ok && after == (Attributes { custom_impls: Some(s), ..before }),
        _ => r == Err::<(), GenError>(GenError::InvalidValue),
    })
    &&& (!(meta.key@ == "get"@ || meta.key@ == "set"@ || meta.key@ == "impl"@ || meta.key@
        == "custom_fields"@ || meta.key@ == "custom_impls"@) ==> r == Err::<(), GenError>(
        GenError::UnexpectedAttribute,
    ))
}

impl Attributes {
    /// The options before any is read: accessors and mutators for fields up to
    /// `pub(super)`, no methods, no hooks.
    pub fn new() -> (r: Attributes)
        ensures
            r.get is PubSuper,
            r.set is PubSuper,
            r.methods@.len() == 0,
            r.custom_fields is None,
            r.custom_impls is None,
    {
        Attributes {
            get: FieldsVisibility::PubSuper,
            set: FieldsVisibility::PubSuper,
            methods: Vec::new(),
            custom_fields: None,
            custom_impls: None,
        }
    }

    /// Reads one `key = value` option into these options. Each key replaces
    /// what it names and leaves the rest; an unknown key, or a value of the
    /// wrong shape, is an error and changes nothing.
    pub fn parse(&mut self, meta: &Meta) -> (r: Result<(), GenError>)
        ensures
            parse_step(*old(self), *meta, *final(self), r),
    {
        proof {
            reveal_strlit("get");
            reveal_strlit("set");
            reveal_strlit("impl");
            reveal_strlit("custom_fields");
            reveal_strlit("custom_impls");
            assert("get"@[0] != "set"@[0]);
            assert("get"@[0] != "impl"@[0]);
            assert("set"@[0] != "impl"@[0]);
            assert("get"@[0] != "custom_fields"@[0]);
            assert("set"@[0] != "custom_fields"@[0]);
            assert("impl"@[0] != "custom_fields"@[0]);
            assert("get"@[0] != "custom_impls"@[0]);
            assert("set"@[0] != "custom_impls"@[0]);
            assert("impl"@[0] != "custom_impls"@[0]);
            assert("custom_fields"@.len() != "custom_impls"@.len());
        }
        if string_eq(&meta.key, "get") {
            let v = FieldsVisibility::parse(&meta.value);
            match v {
                Ok(g) => {
                    self.get = g;
                    Ok(())
                },
                Err(e) => Err(e),
            }
        } else if string_eq(&meta.key, "set") {
            let v = FieldsVisibility::parse(&meta.value);
            match v {
                Ok(g) => {
                    self.set = g;
                    Ok(())
                },
                Err(e) => Err(e),
            }
        } else if string_eq(&meta.key, "impl") {
            match &meta.value {
                MetaValue::Array(elems) => match parse_methods(elems) {
                    Some(ms) => {
                        self.methods = ms;
                        Ok(())
                    },
                    None => Err(GenError::ExpectedIdentifier),
                },
                _ => Err(GenError::InvalidValue),
            }
        } else if string_eq(&meta.key, "custom_fields") {
            match &meta.value {
                MetaValue::Ident(s) => {
                    self.custom_fields = Some(s.clone());
                    Ok(())
                },
                _ => Err(GenError::InvalidValue),
            }
        } else if string_eq(&meta.key, "custom_impls") {
            match &meta.value {
                MetaValue::Ident(s) => {
                    self.custom_impls = Some(s.clone());
                    Ok(())
                },
                _ => Err(GenError::InvalidValue),
            }
        } else {
            Err(GenError::UnexpectedAttribute)
        }
    }
}

} // verus!
