use vstd::prelude::*;

use crate::attr::views;

verus! {

/// How one argument is reached in the decoded argument value.
#[derive(Clone, Copy, Debug, PartialEq, Eq, Structural)]
pub enum ArgAccess {
    /// The decoded value is the argument itself.
    Whole,
    /// The argument is the tuple element at this position.
    Index(usize),
}

/// The type that the runtime's argument list is decoded into.
#[derive(Clone, Debug)]
pub enum DecodeType {
    /// No argument: `()`.
    Unit,
    /// One argument: its type alone, never wrapped in a one-element tuple.
    Bare(String),
    /// Two or more arguments: the tuple of their types, in order.
    Tuple(Vec<String>),
}

/// `access` and `decode` are what `n = types.len()` parameters of the given
/// types are unpacked with.
pub open spec fn adapts(types: Seq<Seq<char>>, access: Seq<ArgAccess>, decode: DecodeType) -> bool {
    if types.len() == 0 {
        access.len() == 0 && decode is Unit
    } else if types.len() == 1 {
        access == seq![ArgAccess::Whole] && (decode matches DecodeType::Bare(t) && t@ == types[0])
    } else {
        &&& access.len() == types.len()
        &&& forall|i: int| 0 <= i < access.len() ==> #[trigger] access[i] == ArgAccess::Index(i as usize)
        &&& decode matches DecodeType::Tuple(ts) && views(ts@) == types
    }
}

fn copy_strings(v: &Vec<String>) -> (r: Vec<String>)
    ensures
        r@ == v@,
{
    let mut out: Vec<String> = Vec::new();
    let mut i: usize = 0;
    while i < v.len()
        invariant
            i <= v@.len(),
            out@ == v@.subrange(0, i as int),
        decreases v@.len() - i,
    {
        out.push(v[i].clone());
        i += 1;
    }
    assert(out@ =~= v@);
    out
}

/// The accesses and the decode type for parameters of the given types. The
/// three cases stay apart: no parameter decodes `()`, one decodes its type
/// alone and is reached whole, and two or more decode their tuple and are
/// reached by position.
pub fn generate_tuple_access(types: &Vec<String>) -> (r: (Vec<ArgAccess>, DecodeType))
    ensures
        adapts(views(types@), r.0@, r.1),
{
    let n = types.len();
    if n == 0 {
        (Vec::new(), DecodeType::Unit)
    } else if n == 1 {
        let access = vec![ArgAccess::Whole];
        assert(access@ =~= seq![ArgAccess::Whole]);
        (access, DecodeType::Bare(types[0].clone()))
    } else {
        let mut access: Vec<ArgAccess> = Vec::new();
        let mut i: usize = 0;
        while i < n
            invariant
                i <= n,
                n == types@.len(),
                access@.len() == i,
                forall|j: int| 0 <= j < i ==> #[trigger] access@[j] == ArgAccess::Index(j as usize),
            decreases n - i,
        {
            access.push(ArgAccess::Index(i));
            i += 1;
        }
        (access, DecodeType::Tuple(copy_strings(types)))
    }
}

} // verus!
