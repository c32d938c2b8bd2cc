use vstd::prelude::*;

use std::collections::{BTreeMap, BTreeSet, HashMap, HashSet};
use std::hash::Hash;
use vstd::laws_cmp::obeys_cmp;
use vstd::std_specs::hash::obeys_key_model;

verus! {

/// What generated code provides for a struct or an enum: its constructor,
/// its namespace of constructor functions, and its registration in the
/// runtime's global namespace.
///
/// `R` is what the constructor is (a callable, or the value itself for a unit
/// struct, a table of variant constructors for an enum), `Lua` the runtime
/// handle, `E` its error and `Table` its table type.
pub trait LuaBuilder<R, Lua, E, Table> {
    /// The constructor: `Unit`, `Named { key = value }`, `Unnamed(value)`, or
    /// for an enum `Enum.Unit`, `Enum.Named { ... }`, `Enum.Unnamed(...)`.
    fn lua_builder(lua: &Lua) -> Result<R, E>;

    /// The table of receiverless functions (`new`, `default`, ...), if any.
    fn lua_fn_builder(lua: &Lua) -> Result<Option<Table>, E>;

    /// Registers the type, its functions and its accessors under its own name.
    fn to_globals(lua: &Lua) -> Result<(), E>;

    /// Registers the type under the name `s` instead of its own.
    fn to_globals_as<S: AsRef<str>>(lua: &Lua, s: S) -> Result<(), E>;
}

/// A collection that a script can assign into by index (`c[k] = v`).
pub trait NewIndex {
    type Key;
    type Item;

    fn new_index(&mut self, index: Self::Key, item: Self::Item);
}

impl<T: Default> NewIndex for Vec<T> {
    type Key = usize;
    type Item = T;

    /// Stores `item` at `index`, first growing the vector with default values
    /// where `index` is past its end.
    fn new_index(&mut self, index: usize, item: T)
        ensures
            final(self)@.len() == if index < old(self)@.len() {
                old(self)@.len()
            } else {
                index as nat + 1
            },
            final(self)@[index as int] == item,
            forall|j: int|
                0 <= j < old(self)@.len() && j != index ==> #[trigger] final(self)@[j] == old(
                    self,
                )@[j],
    {
        while self.len() <= index
            invariant
                self@.len() >= old(self)@.len(),
                forall|j: int| 0 <= j < old(self)@.len() ==> #[trigger] self@[j] == old(self)@[j],
                old(self)@.len() <= index ==> self@.len() <= index as nat + 1,
                index < old(self)@.len() ==> self@ == old(self)@,
            decreases index as int + 1 - self@.len(),
        {
            self.push(T::default());
        }
        self[index] = item;
    }
}

impl<K: Eq + Hash, V> NewIndex for HashMap<K, V> {
    type Key = K;
    type Item = V;

    /// Stores `item` under `index`, in place of what was there.
    fn new_index(&mut self, index: K, item: V)
        ensures
            obeys_key_model::<K>() ==> final(self)@ == old(self)@.insert(index, item),
    {
        broadcast use vstd::std_specs::hash::axiom_random_state_builds_valid_hashers;

        self.insert(index, item);
    }
}

impl<K: Ord, V> NewIndex for BTreeMap<K, V> {
    type Key = K;
    type Item = V;

    /// Stores `item` under `index`, in place of what was there.
    fn new_index(&mut self, index: K, item: V)
        ensures
            obeys_cmp::<K>() ==> final(self)@ == old(self)@.insert(index, item),
    {
        self.insert(index, item);
    }
}

impl<T: Hash + Eq> NewIndex for HashSet<T> {
    type Key = usize;
    type Item = T;

    /// Adds `item`; a set has no positions, so the index is not used.
    fn new_index(&mut self, _index: usize, item: T)
        ensures
            obeys_key_model::<T>() ==> final(self)@ == old(self)@.insert(item),
    {
        broadcast use vstd::std_specs::hash::axiom_random_state_builds_valid_hashers;

        self.insert(item);
    }
}

impl<T: Ord> NewIndex for BTreeSet<T> {
    type Key = usize;
    type Item = T;

    /// Adds `item`; a set has no positions, so the index is not used.
    fn new_index(&mut self, _index: usize, item: T)
        ensures
            obeys_cmp::<T>() ==> final(self)@ == old(self)@.insert(item),
    {
        self.insert(item);
    }
}

} // verus!
