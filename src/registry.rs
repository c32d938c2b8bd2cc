use vstd::prelude::*;

use crate::attr::views;
use crate::binding::{Constructor, Trampoline};
use crate::entries::{first_under, lemma_first_under_push, lemma_first_under_update};
use crate::record::StructBinding;
use crate::sum::{EnumBinding, VariantBinding};

verus! {

/// What a global name of the runtime is bound to.
#[derive(Clone, Debug)]
pub enum Entry {
    /// A callable that builds a record from a table or from arguments.
    Constructor,
    /// The single value of a unit record.
    Singleton,
    /// A table of receiverless functions, itself callable as the record's
    /// constructor where the flag is set.
    Namespace(Vec<String>, bool),
    /// A tagged union's table: a constructor per variant, then its functions.
    Variants(Vec<String>, Vec<String>),
}

/// The mathematical value of an [`Entry`].
pub enum EntryModel {
    Constructor,
    Singleton,
    Namespace(Seq<Seq<char>>, bool),
    Variants(Seq<Seq<char>>, Seq<Seq<char>>),
}

impl View for Entry {
    type V = EntryModel;

    open spec fn view(&self) -> EntryModel {
        match self {
            Entry::Constructor => EntryModel::Constructor,
            Entry::Singleton => EntryModel::Singleton,
            Entry::Namespace(fs, c) => EntryModel::Namespace(views(fs@), *c),
            Entry::Variants(vs, fs) => EntryModel::Variants(views(vs@), views(fs@)),
        }
    }
}

/// The runtime's global namespace, held explicitly so that separate runtimes
/// never share registrations.
#[derive(Clone, Debug)]
pub struct Registry {
    pub globals: Vec<(String, Entry)>,
}

impl View for Registry {
    type V = Seq<(Seq<char>, EntryModel)>;

    open spec fn view(&self) -> Seq<(Seq<char>, EntryModel)> {
        Seq::new(self.globals@.len(), |i: int| (self.globals@[i].0@, self.globals@[i].1@))
    }
}

pub open spec fn trampoline_names(ts: Seq<Trampoline>) -> Seq<Seq<char>> {
    ts.map_values(|t: Trampoline| t.name@)
}

pub open spec fn variant_names(vs: Seq<VariantBinding>) -> Seq<Seq<char>> {
    vs.map_values(|v: VariantBinding| v.name@)
}

/// What registering the record binding `b` binds its own name to: the
/// namespace of its functions, callable as its constructor unless it is a
/// unit record, where it has functions; else its constructor, or its single
/// value.
pub open spec fn struct_entry(b: StructBinding) -> EntryModel {
    if b.functions@.len() > 0 {
        EntryModel::Namespace(trampoline_names(b.functions@), !(b.constructor is Unit))
    } else if b.constructor is Unit {
        EntryModel::Singleton
    } else {
        EntryModel::Constructor
    }
}

/// The companion name of a type's functions: its name followed by `_`.
pub open spec fn companion(name: Seq<char>) -> Seq<char> {
    name + "_"@
}

fn names_of_trampolines(ts: &Vec<Trampoline>) -> (r: Vec<String>)
    ensures
        views(r@) == trampoline_names(ts@),
{
    let mut out: Vec<String> = Vec::new();
    let mut i: usize = 0;
    while i < ts.len()
        invariant
            i <= ts@.len(),
            out@.len() == i,
            forall|j: int| 0 <= j < i ==> (#[trigger] out@[j])@ == ts@[j].name@,
        decreases ts@.len() - i,
    {
        out.push(ts[i].name.clone());
        i += 1;
    }
    assert(views(out@) =~= trampoline_names(ts@));
    out
}

fn names_of_variants(vs: &Vec<VariantBinding>) -> (r: Vec<String>)
    ensures
        views(r@) == variant_names(vs@),
{
    let mut out: Vec<String> = Vec::new();
    let mut i: usize = 0;
    while i < vs.len()
        invariant
            i <= vs@.len(),
            out@.len() == i,
            forall|j: int| 0 <= j < i ==> (#[trigger] out@[j])@ == vs@[j].name@,
        decreases vs@.len() - i,
    {
        out.push(vs[i].name.clone());
        i += 1;
    }
    assert(views(out@) =~= variant_names(vs@));
    out
}

impl Registry {
    /// What a global name is bound to, if anything.
    pub open spec fn lookup(&self, name: Seq<char>) -> Option<EntryModel> {
        first_under(self@, name)
    }

    /// An empty global namespace.
    pub fn new() -> (r: Registry)
        ensures
            forall|k: Seq<char>| #[trigger] r.lookup(k) is None,
    {
        let r = Registry { globals: Vec::new() };
        assert(r@ =~= Seq::<(Seq<char>, EntryModel)>::empty());
        r
    }

    /// Where a global name is bound, if it is.
    pub fn position(&self, name: &String) -> (r: Option<usize>)
        ensures
            match r {
                Some(i) => i < self.globals@.len() && self.lookup(name@) == Some(
                    self.globals@[i as int].1@,
                ),
                None => self.lookup(name@) is None,
            },
    {
        assert(self@.subrange(0, self@.len() as int) =~= self@);
        let mut i: usize = 0;
        while i < self.globals.len()
            invariant
                i <= self.globals@.len(),
                first_under(self@, name@) == first_under(
                    self@.subrange(i as int, self@.len() as int),
                    name@,
                ),
            decreases self.globals@.len() - i,
        {
            let ghost rest = self@.subrange(i as int, self@.len() as int);
            assert(rest.drop_first() =~= self@.subrange(i + 1, self@.len() as int));
            if self.globals[i].0 == *name {
                return Some(i);
            }
            i += 1;
        }
        None
    }

    /// Binds a global name, in place of what it was bound to.
    pub fn bind(&mut self, name: String, e: Entry)
        ensures
            forall|k: Seq<char>| #[trigger]
                final(self).lookup(k) == if k == name@ {
                    Some(e@)
                } else {
                    old(self).lookup(k)
                },
    {
        let ghost entry = (name@, e@);
        let mut i: usize = 0;
        while i < self.globals.len()
            invariant
                *self == *old(self),
                entry == (name@, e@),
                i <= self.globals@.len(),
                forall|m: int| 0 <= m < i ==> self.globals@[m].0@ != name@,
            decreases self.globals@.len() - i,
        {
            if self.globals[i].0 == name {
                proof {
                    assert forall|k: Seq<char>| #[trigger]
                        first_under(self@.update(i as int, entry), k) == if k == name@ {
                            Some(e@)
                        } else {
                            self.lookup(k)
                        } by {
                        lemma_first_under_update(self@, i as int, entry, k);
                    }
                }
                self.globals[i] = (name, e);
                assert(self@ =~= old(self)@.update(i as int, entry));
                return;
            }
            i += 1;
        }
        proof {
            assert forall|k: Seq<char>| #[trigger]
                first_under(self@.push(entry), k) == if k == name@ {
                    Some(e@)
                } else {
                    self.lookup(k)
                } by {
                lemma_first_under_push(self@, entry, k);
            }
        }
        self.globals.push((name, e));
        assert(self@ =~= old(self)@.push(entry));
    }

    /// Registers a record under `alias`: its functions' namespace, callable as
    /// its constructor, where it has functions, and then also under the
    /// companion name `alias_`; its constructor, or its single value, where it
    /// has none. No other name changes.
    pub fn register_struct(&mut self, alias: &String, b: &StructBinding)
        ensures
            final(self).lookup(alias@) == Some(struct_entry(*b)),
            b.functions@.len() > 0 ==> final(self).lookup(companion(alias@)) == Some(
                EntryModel::Namespace(trampoline_names(b.functions@), false),
            ),
            forall|k: Seq<char>|
                k != alias@ && (b.functions@.len() > 0 ==> k != companion(alias@))
                    ==> #[trigger] final(self).lookup(k) == old(self).lookup(k),
    {
        proof {
            reveal_strlit("_");
            assert(companion(alias@).len() == alias@.len() + 1);
        }
        if b.functions.len() > 0 {
            let callable = !matches!(b.constructor, Constructor::Unit);
            let companion_name = alias.clone().concat("_");
            self.bind(companion_name, Entry::Namespace(names_of_trampolines(&b.functions), false));
            self.bind(alias.clone(), Entry::Namespace(names_of_trampolines(&b.functions), callable));
        } else if matches!(b.constructor, Constructor::Unit) {
            self.bind(alias.clone(), Entry::Singleton);
        } else {
            self.bind(alias.clone(), Entry::Constructor);
        }
    }

    /// Registers a tagged union under `alias`: a table of its variants'
    /// constructors and of its functions. No other name changes.
    pub fn register_enum(&mut self, alias: &String, b: &EnumBinding)
        ensures
            final(self).lookup(alias@) == Some(
                EntryModel::Variants(variant_names(b.variants@), trampoline_names(b.functions@)),
            ),
            forall|k: Seq<char>| k != alias@ ==> #[trigger] final(self).lookup(k) == old(self).lookup(k),
    {
        let e = Entry::Variants(names_of_variants(&b.variants), names_of_trampolines(&b.functions));
        self.bind(alias.clone(), e);
    }
}

} // verus!
