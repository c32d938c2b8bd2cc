use vstd::prelude::*;

use crate::arity::{adapts, generate_tuple_access, ArgAccess, DecodeType};
use crate::attr::{string_eq, views, MethodOrFunction};
use crate::shape::Shape;
use crate::value::{conforms, Base, Kind, ValueModel};
use crate::visibility::{Fields, NamedField, UnnamedField};

verus! {

/// How a trampoline is registered: bound to an instance or not, and whether
/// it may change what it is called on.
#[derive(Clone, Copy, Debug, PartialEq, Eq, Structural)]
pub enum CallKind {
    Method,
    MethodMut,
    Function,
    FunctionMut,
}

/// A callable that forwards a runtime call to a native method or function.
#[derive(Clone, Debug)]
pub struct Trampoline {
    pub name: String,
    pub kind: CallKind,
    /// How each native argument is reached in the decoded argument value.
    pub access: Vec<ArgAccess>,
    /// What the runtime's argument list is decoded into.
    pub decode: DecodeType,
}

/// How a record (or a variant) is built from what the runtime hands over.
#[derive(Clone, Debug)]
pub enum Constructor {
    /// From a table, one lookup per field name, in declaration order.
    Named(Vec<String>),
    /// From positional arguments, unpacked as the arity adapter says.
    Positional(Vec<ArgAccess>, DecodeType),
    /// Nothing to build from: the single value.
    Unit,
}

pub open spec fn call_kind(is_mut: bool, is_self: bool) -> CallKind {
    match (is_mut, is_self) {
        (true, true) => CallKind::MethodMut,
        (false, true) => CallKind::Method,
        (true, false) => CallKind::FunctionMut,
        (false, false) => CallKind::Function,
    }
}

/// `t` forwards to the method or function `m`.
pub open spec fn forwards(m: MethodOrFunction, t: Trampoline) -> bool {
    &&& t.name@ == m.name@
    &&& t.kind == call_kind(m.is_mut, m.is_self)
    &&& adapts(views(m.args@), t.access@, t.decode)
}

pub open spec fn named_names(v: Seq<NamedField>) -> Seq<Seq<char>> {
    v.map_values(|f: NamedField| f.name@)
}

pub open spec fn unnamed_types(v: Seq<UnnamedField>) -> Seq<Seq<char>> {
    v.map_values(|f: UnnamedField| f.ty@)
}

/// `c` builds values of the given fields.
pub open spec fn constructs(fields: Fields, c: Constructor) -> bool {
    match fields {
        Fields::Named(v) => c matches Constructor::Named(ns) && views(ns@) == named_names(v@),
        Fields::Unnamed(v) => c matches Constructor::Positional(a, d) && adapts(
            unnamed_types(v@),
            a@,
            d,
        ),
        Fields::Unit => c is Unit,
    }
}

/// The bounds of the integers that a field of integer type `ty` holds, as
/// far as the runtime's 64-bit integers reach; `None` for other types.
pub open spec fn integer_bounds(ty: Seq<char>) -> Option<(i64, i64)> {
    if ty == "i8"@ {
        Some((-128i64, 127i64))
    } else if ty == "i16"@ {
        Some((-32768i64, 32767i64))
    } else if ty == "i32"@ {
        Some((-2147483648i64, 2147483647i64))
    } else if ty == "i64"@ || ty == "i128"@ || ty == "isize"@ {
        Some((i64::MIN, i64::MAX))
    } else if ty == "u8"@ {
        Some((0i64, 255i64))
    } else if ty == "u16"@ {
        Some((0i64, 65535i64))
    } else if ty == "u32"@ {
        Some((0i64, 4294967295i64))
    } else if ty == "u64"@ || ty == "u128"@ || ty == "usize"@ {
        Some((0i64, i64::MAX))
    } else {
        None
    }
}

/// What a field of the type written `ty` accepts, leaving `nil` aside: a
/// boolean for `bool`, a string for `String`, an integer within the type's
/// bounds for the integer types, any value but `nil` for other types.
pub open spec fn base_of(ty: Seq<char>) -> Base {
    if ty == "bool"@ {
        Base::Boolean
    } else if ty == "String"@ {
        Base::Str
    } else {
        match integer_bounds(ty) {
            Some((min, max)) => Base::Integer { min, max },
            None => Base::Other,
        }
    }
}

/// The type inside `Option<...>`, written `Option<T>` or, as the token
/// printer spaces it, `Option < T >`.
pub open spec fn option_inner(ty: Seq<char>) -> Option<Seq<char>> {
    if ty.len() >= 11 && ty.subrange(0, 9) == "Option < "@ && ty.subrange(ty.len() - 2, ty.len() as int)
        == " >"@ {
        Some(ty.subrange(9, ty.len() - 2))
    } else if ty.len() >= 8 && ty.subrange(0, 7) == "Option<"@ && ty.subrange(
        ty.len() - 1,
        ty.len() as int,
    ) == ">"@ {
        Some(ty.subrange(7, ty.len() - 1))
    } else {
        None
    }
}

/// The kind of runtime value that a field of the type written `ty` accepts:
/// `nil` only for an `Option`, whose inner type gives the base.
pub open spec fn kind_of(ty: Seq<char>) -> Kind {
    match option_inner(ty) {
        Some(inner) => Kind { base: base_of(inner), optional: true },
        None => Kind { base: base_of(ty), optional: false },
    }
}

/// The payload shape of the given fields, each field's kind taken from its type.
pub open spec fn shape_of(fields: Fields, s: Shape) -> bool {
    match fields {
        Fields::Named(v) => s matches Shape::Named(fs) && fs@.len() == v@.len() && forall|i: int|
            0 <= i < v@.len() ==> (#[trigger] fs@[i]).0@ == v@[i].name@ && fs@[i].1 == kind_of(
                v@[i].ty@,
            ),
        Fields::Unnamed(v) => s matches Shape::Positional(ks) && ks@.len() == v@.len() && forall|
            i: int,
        | 0 <= i < v@.len() ==> #[trigger] ks@[i] == kind_of(v@[i].ty@),
        Fields::Unit => s is Unit,
    }
}

/// The bounds of an integer type's values.
fn integer_bounds_of(ty: &String) -> (r: Option<(i64, i64)>)
    ensures
        r == integer_bounds(ty@),
{
    if string_eq(ty, "i8") {
        Some((-128i64, 127i64))
    } else if string_eq(ty, "i16") {
        Some((-32768i64, 32767i64))
    } else if string_eq(ty, "i32") {
        Some((-2147483648i64, 2147483647i64))
    } else if string_eq(ty, "i64") || string_eq(ty, "i128") || string_eq(ty, "isize") {
        Some((i64::MIN, i64::MAX))
    } else if string_eq(ty, "u8") {
        Some((0i64, 255i64))
    } else if string_eq(ty, "u16") {
        Some((0i64, 65535i64))
    } else if string_eq(ty, "u32") {
        Some((0i64, 4294967295i64))
    } else if string_eq(ty, "u64") || string_eq(ty, "u128") || string_eq(ty, "usize") {
        Some((0i64, i64::MAX))
    } else {
        None
    }
}

fn base_of_type(ty: &String) -> (r: Base)
    ensures
        r == base_of(ty@),
{
    if string_eq(ty, "bool") {
        Base::Boolean
    } else if string_eq(ty, "String") {
        Base::Str
    } else {
        match integer_bounds_of(ty) {
            Some((min, max)) => Base::Integer { min, max },
            None => Base::Other,
        }
    }
}

/// Characters `from` to `to` of `s`.
fn chars(s: &String, from: usize, to: usize) -> (r: String)
    requires
        from <= to <= s@.len(),
    ensures
        r@ == s@.subrange(from as int, to as int),
{
    s.as_str().substring_char(from, to).to_owned()
}

/// The type inside `Option<...>`, if `ty` is one.
fn option_inner_of(ty: &String) -> (r: Option<String>)
    ensures
        match r {
            Some(inner) => option_inner(ty@) == Some(inner@),
            None => option_inner(ty@) is None,
        },
{
    let n = ty.as_str().unicode_len();
    if n >= 11 {
        let head = chars(ty, 0, 9);
        let tail = chars(ty, n - 2, n);
        if string_eq(&head, "Option < ") && string_eq(&tail, " >") {
            return Some(chars(ty, 9, n - 2));
        }
    }
    if n >= 8 {
        let head = chars(ty, 0, 7);
        let tail = chars(ty, n - 1, n);
        if string_eq(&head, "Option<") && string_eq(&tail, ">") {
            return Some(chars(ty, 7, n - 1));
        }
    }
    None
}

/// The kind of runtime value that a field of type `ty` accepts.
pub fn kind_of_type(ty: &String) -> (r: Kind)
    ensures
        r == kind_of(ty@),
{
    match option_inner_of(ty) {
        Some(inner) => Kind { base: base_of_type(&inner), optional: true },
        None => Kind { base: base_of_type(ty), optional: false },
    }
}

/// A copy of an optional hook name.
pub fn copy_hook(s: &Option<String>) -> (r: Option<String>)
    ensures
        r == *s,
{
    match s {
        Some(x) => Some(x.clone()),
        None => None,
    }
}

/// The trampoline that forwards to `m`: registered as a method when `m` has
/// a receiver, as a function otherwise, mutable when the receiver is, its
/// arguments unpacked by the arity adapter.
pub fn trampoline(m: &MethodOrFunction) -> (r: Trampoline)
    ensures
        forwards(*m, r),
{
    let kind = match (m.is_mut, m.is_self) {
        (true, true) => CallKind::MethodMut,
        (false, true) => CallKind::Method,
        (true, false) => CallKind::FunctionMut,
        (false, false) => CallKind::Function,
    };
    let (access, decode) = generate_tuple_access(&m.args);
    Trampoline { name: m.name.clone(), kind, access, decode }
}

/// How values of the given fields are built.
pub fn constructor(fields: &Fields) -> (r: Constructor)
    ensures
        constructs(*fields, r),
{
    match fields {
        Fields::Named(v) => {
            let mut names: Vec<String> = Vec::new();
            let mut i: usize = 0;
            while i < v.len()
                invariant
                    i <= v@.len(),
                    names@.len() == i,
                    forall|j: int| 0 <= j < i ==> (#[trigger] names@[j])@ == v@[j].name@,
                decreases v@.len() - i,
            {
                names.push(v[i].name.clone());
                i += 1;
            }
            assert(views(names@) =~= named_names(v@));
            Constructor::Named(names)
        },
        Fields::Unnamed(v) => {
            let mut types: Vec<String> = Vec::new();
            let mut i: usize = 0;
            while i < v.len()
                invariant
                    i <= v@.len(),
                    types@.len() == i,
                    forall|j: int| 0 <= j < i ==> (#[trigger] types@[j])@ == v@[j].ty@,
                decreases v@.len() - i,
            {
                types.push(v[i].ty.clone());
                i += 1;
            }
            assert(views(types@) =~= unnamed_types(v@));
            let (access, decode) = generate_tuple_access(&types);
            Constructor::Positional(access, decode)
        },
        Fields::Unit => Constructor::Unit,
    }
}

/// The payload shape of the given fields, each field's kind taken from its type.
pub fn shape(fields: &Fields) -> (r: Shape)
    ensures
        shape_of(*fields, r),
{
    match fields {
        Fields::Named(v) => {
            let mut fs: Vec<(String, Kind)> = Vec::new();
            let mut i: usize = 0;
            while i < v.len()
                invariant
                    i <= v@.len(),
                    fs@.len() == i,
                    forall|j: int|
                        0 <= j < i ==> (#[trigger] fs@[j]).0@ == v@[j].name@ && fs@[j].1 == kind_of(
                            v@[j].ty@,
                        ),
                decreases v@.len() - i,
            {
                fs.push((v[i].name.clone(), kind_of_type(&v[i].ty)));
                i += 1;
            }
            Shape::Named(fs)
        },
        Fields::Unnamed(v) => {
            let mut ks: Vec<Kind> = Vec::new();
            let mut i: usize = 0;
            while i < v.len()
                invariant
                    i <= v@.len(),
                    ks@.len() == i,
                    forall|j: int| 0 <= j < i ==> #[trigger] ks@[j] == kind_of(v@[j].ty@),
                decreases v@.len() - i,
            {
                ks.push(kind_of_type(&v[i].ty));
                i += 1;
            }
            Shape::Positional(ks)
        },
        Fields::Unit => Shape::Unit,
    }
}

/// The receiverless methods among the first `n`, in order.
pub open spec fn statics(ms: Seq<MethodOrFunction>, n: nat) -> Seq<MethodOrFunction>
    decreases n,
{
    if n == 0 {
        Seq::empty()
    } else {
        let rest = statics(ms, (n - 1) as nat);
        if ms[n - 1].is_self {
            rest
        } else {
            rest.push(ms[n - 1])
        }
    }
}

/// `ts` forward, one for one and in order, to `ms`.
pub open spec fn all_forward(ms: Seq<MethodOrFunction>, ts: Seq<Trampoline>) -> bool {
    &&& ts.len() == ms.len()
    &&& forall|i: int| 0 <= i < ms.len() ==> forwards(ms[i], #[trigger] ts[i])
}

/// The trampolines of all the methods and functions, in order.
pub fn trampolines(ms: &Vec<MethodOrFunction>) -> (r: Vec<Trampoline>)
    ensures
        all_forward(ms@, r@),
{
    let mut out: Vec<Trampoline> = Vec::new();
    let mut i: usize = 0;
    while i < ms.len()
        invariant
            i <= ms@.len(),
            out@.len() == i,
            forall|j: int| 0 <= j < i ==> forwards(ms@[j], #[trigger] out@[j]),
        decreases ms@.len() - i,
    {
        out.push(trampoline(&ms[i]));
        i += 1;
    }
    out
}

/// The trampolines of the receiverless functions only, in order: those that
/// the type's namespace holds.
pub fn static_trampolines(ms: &Vec<MethodOrFunction>) -> (r: Vec<Trampoline>)
    ensures
        all_forward(statics(ms@, ms@.len()), r@),
{
    let mut out: Vec<Trampoline> = Vec::new();
    let mut i: usize = 0;
    while i < ms.len()
        invariant
            i <= ms@.len(),
            all_forward(statics(ms@, i as nat), out@),
        decreases ms@.len() - i,
    {
        if !ms[i].is_self {
            let t = trampoline(&ms[i]);
            out.push(t);
            assert(statics(ms@, (i + 1) as nat) == statics(ms@, i as nat).push(ms@[i as int]));
        }
        i += 1;
    }
    out
}

/// A field of integer type accepts no integer outside the type's bounds, and
/// a field that is not an `Option` does not accept `nil`.
pub proof fn lemma_field_kind_refuses(ty: Seq<char>, i: int)
    ensures
        integer_bounds(ty) matches Some((min, max)) && (i < min || i > max) ==> !conforms(
            ValueModel::Integer(i),
            kind_of(ty),
        ),
        option_inner(ty) is None ==> !conforms(ValueModel::Nil, kind_of(ty)),
{
    reveal_strlit("bool");
    reveal_strlit("String");
    reveal_strlit("i8");
    reveal_strlit("i16");
    reveal_strlit("i32");
    reveal_strlit("i64");
    reveal_strlit("i128");
    reveal_strlit("isize");
    reveal_strlit("u8");
    reveal_strlit("u16");
    reveal_strlit("u32");
    reveal_strlit("u64");
    reveal_strlit("u128");
    reveal_strlit("usize");
    if integer_bounds(ty) is Some {
        assert(ty.len() <= 5);
        assert(ty[0] == 'i' || ty[0] == 'u');
        assert(ty != "bool"@);
        assert(ty != "String"@);
        assert(option_inner(ty) is None);
    }
}

} // verus!
