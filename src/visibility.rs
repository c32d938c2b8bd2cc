use vstd::prelude::*;

use crate::error::GenError;

verus! {

/// Access level as written on a field declaration.
#[derive(Clone, Debug)]
pub enum Visibility {
    /// `pub`
    Public,
    /// `pub(<path>)`, holding the path text (`crate`, `super`, ...).
    Restricted(String),
    /// No access keyword: private to the module.
    Inherited,
}

/// Identifies a field: by name in a record, by position in a tuple record.
#[derive(Clone, Debug)]
pub enum FieldId {
    Name(String),
    Position(usize),
}

/// The mathematical value of a [`FieldId`].
pub enum FieldKey {
    Name(Seq<char>),
    Position(nat),
}

impl View for FieldId {
    type V = FieldKey;

    open spec fn view(&self) -> FieldKey {
        match self {
            FieldId::Name(s) => FieldKey::Name(s@),
            FieldId::Position(i) => FieldKey::Position(*i as nat),
        }
    }
}

pub open spec fn keys_of(ids: Seq<FieldId>) -> Seq<FieldKey> {
    ids.map_values(|id: FieldId| id@)
}

/// A field of a record with named fields.
#[derive(Clone, Debug)]
pub struct NamedField {
    pub name: String,
    pub vis: Visibility,
    pub ty: String,
}

/// A field of a tuple record.
#[derive(Clone, Debug)]
pub struct UnnamedField {
    pub vis: Visibility,
    pub ty: String,
}

/// The three field shapes of a record or of a variant.
#[derive(Clone, Debug)]
pub enum Fields {
    Named(Vec<NamedField>),
    Unnamed(Vec<UnnamedField>),
    Unit,
}

/// Which fields get an accessor (or a mutator).
///
/// `Nothing` < `Pub` < `PubCrate` < `PubSuper` < `All` is a total order of
/// thresholds; `Custom` is an exact allow-list.
#[derive(Clone, Debug)]
pub enum FieldsVisibility {
    Nothing,
    Pub,
    PubCrate,
    PubSuper,
    All,
    Custom(Vec<FieldId>),
}

impl FieldsVisibility {
    /// The level of a threshold in the total order.
    pub open spec fn rank(&self) -> int {
        match self {
            FieldsVisibility::Nothing => 0,
            FieldsVisibility::Pub => 1,
            FieldsVisibility::PubCrate => 2,
            FieldsVisibility::PubSuper => 3,
            FieldsVisibility::All => 4,
            FieldsVisibility::Custom(_) => 0,
        }
    }

    pub open spec fn is_threshold(&self) -> bool {
        !(self is Custom)
    }

    /// The levels that need the fields' own access levels to be read.
    pub open spec fn reads_access(&self) -> bool {
        self is Pub || self is PubCrate || self is PubSuper
    }
}

/// The rank of a field's own access level: a threshold of rank `t` selects
/// the field iff its rank is at most `t`. `None` for a path that is not
/// understood.
pub open spec fn access_rank(vis: Visibility) -> Option<int> {
    match vis {
        Visibility::Public => Some(1),
        Visibility::Restricted(p) => if p@ == "crate"@ {
            Some(2)
        } else if p@ == "super"@ {
            Some(3)
        } else {
            None
        },
        Visibility::Inherited => Some(4),
    }
}

impl Fields {
    pub open spec fn len(&self) -> nat {
        match self {
            Fields::Named(v) => v@.len(),
            Fields::Unnamed(v) => v@.len(),
            Fields::Unit => 0,
        }
    }

    pub open spec fn vis_at(&self, i: int) -> Visibility {
        match self {
            Fields::Named(v) => v@[i].vis,
            Fields::Unnamed(v) => v@[i].vis,
            Fields::Unit => Visibility::Inherited,
        }
    }

    pub open spec fn ty_at(&self, i: int) -> Seq<char> {
        match self {
            Fields::Named(v) => v@[i].ty@,
            Fields::Unnamed(v) => v@[i].ty@,
            Fields::Unit => Seq::empty(),
        }
    }

    pub open spec fn key_at(&self, i: int) -> FieldKey {
        match self {
            Fields::Named(v) => FieldKey::Name(v@[i].name@),
            _ => FieldKey::Position(i as nat),
        }
    }

    /// Some field has an access level that is not understood.
    pub open spec fn has_unknown_access(&self) -> bool {
        exists|i: int| 0 <= i < self.len() && (#[trigger] access_rank(self.vis_at(i))) is None
    }
}

/// Whether `spec` selects field `i` of `fields`.
pub open spec fn selects(spec: FieldsVisibility, fields: Fields, i: int) -> bool {
    match spec {
        FieldsVisibility::Custom(list) => keys_of(list@).contains(fields.key_at(i)),
        FieldsVisibility::Nothing => false,
        FieldsVisibility::All => true,
        _ => match access_rank(fields.vis_at(i)) {
            Some(r) => r <= spec.rank(),
            Option::None => false,
        },
    }
}

/// The keys of the fields among the first `n` that `spec` selects, in
/// declaration order.
pub open spec fn selection(spec: FieldsVisibility, fields: Fields, n: nat) -> Seq<FieldKey>
    decreases n,
{
    if n == 0 {
        Seq::empty()
    } else {
        let rest = selection(spec, fields, (n - 1) as nat);
        if selects(spec, fields, n - 1) {
            rest.push(fields.key_at(n - 1))
        } else {
            rest
        }
    }
}

/// The allow-list names the wrong kind of key for the fields.
pub open spec fn list_mismatch(spec: FieldsVisibility, fields: Fields) -> Option<GenError> {
    match (spec, fields) {
        (FieldsVisibility::Custom(list), Fields::Named(_)) => if exists|k: int|
            0 <= k < list@.len() && #[trigger] list@[k] is Position {
            Some(GenError::PositionalOnNamed)
        } else {
            None
        },
        (FieldsVisibility::Custom(list), Fields::Unnamed(_)) => if exists|k: int|
            0 <= k < list@.len() && #[trigger] list@[k] is Name {
            Some(GenError::NamedOnPositional)
        } else {
            None
        },
        _ => None,
    }
}

/// What resolving `spec` against `fields` gives: the error, or the selected keys.
pub open spec fn resolution(spec: FieldsVisibility, fields: Fields) -> Result<
    Seq<FieldKey>,
    GenError,
> {
    if let Some(e) = list_mismatch(spec, fields) {
        Err(e)
    } else if spec.reads_access() && fields.has_unknown_access() {
        Err(GenError::UnexpectedVisibility)
    } else {
        Ok(selection(spec, fields, fields.len()))
    }
}

fn string_eq(a: &String, b: &String) -> (r: bool)
    ensures
        r == (a@ == b@),
{
    *a == *b
}

pub(crate) fn field_id_eq(a: &FieldId, b: &FieldId) -> (r: bool)
    ensures
        r == (a@ == b@),
{
    match (a, b) {
        (FieldId::Name(x), FieldId::Name(y)) => string_eq(x, y),
        (FieldId::Position(x), FieldId::Position(y)) => *x == *y,
        _ => false,
    }
}

/// Whether `id` is one of `list`.
pub fn list_contains(list: &Vec<FieldId>, id: &FieldId) -> (r: bool)
    ensures
        r == keys_of(list@).contains(id@),
{
    let mut i: usize = 0;
    while i < list.len()
        invariant
            i <= list@.len(),
            forall|k: int| 0 <= k < i ==> list@[k]@ != id@,
        decreases list@.len() - i,
    {
        if field_id_eq(&list[i], id) {
            assert(keys_of(list@)[i as int] == id@);
            return true;
        }
        i += 1;
    }
    proof {
        if keys_of(list@).contains(id@) {
            let k = choose|k: int| 0 <= k < keys_of(list@).len() && keys_of(list@)[k] == id@;
            assert(list@[k]@ == id@);
        }
    }
    false
}

impl FieldsVisibility {
    /// The access level written on a field, as the threshold it stands for:
    /// `pub` is `Pub`, `pub(crate)` is `PubCrate`, `pub(super)` is `PubSuper`,
    /// no keyword is `Nothing`. Any other path is an error.
    pub fn try_from_visibility(vis: &Visibility) -> (r: Result<FieldsVisibility, GenError>)
        ensures
            match access_rank(*vis) {
                Some(k) => r matches Ok(v) && (if k == 4 {
                    v is Nothing
                } else {
                    v.rank() == k && v.reads_access()
                }),
                Option::None => r == Err::<FieldsVisibility, GenError>(
                    GenError::UnexpectedVisibility,
                ),
            },
    {
        match vis {
            Visibility::Public => Ok(FieldsVisibility::Pub),
            Visibility::Restricted(path) => {
                let krate = "crate".to_owned();
                let sup = "super".to_owned();
                if string_eq(path, &krate) {
                    Ok(FieldsVisibility::PubCrate)
                } else if string_eq(path, &sup) {
                    Ok(FieldsVisibility::PubSuper)
                } else {
                    Err(GenError::UnexpectedVisibility)
                }
            },
            Visibility::Inherited => Ok(FieldsVisibility::Nothing),
        }
    }
}

impl FieldsVisibility {
    /// The rank of a threshold, as a number.
    fn rank_exec(&self) -> (r: u8)
        ensures
            r as int == self.rank(),
    {
        match self {
            FieldsVisibility::Nothing => 0,
            FieldsVisibility::Pub => 1,
            FieldsVisibility::PubCrate => 2,
            FieldsVisibility::PubSuper => 3,
            FieldsVisibility::All => 4,
            FieldsVisibility::Custom(_) => 0,
        }
    }

    /// Whether this threshold selects a field of access level `vis`;
    /// `None` for an access level that is not understood.
    fn selects_access(&self, vis: &Visibility) -> (r: Option<bool>)
        requires
            self.reads_access(),
        ensures
            match access_rank(*vis) {
                Some(k) => r == Some(k <= self.rank()),
                Option::None => r is None,
            },
    {
        match FieldsVisibility::try_from_visibility(vis) {
            Ok(level) => {
                let k: u8 = match level {
                    FieldsVisibility::Nothing => 4,
                    _ => level.rank_exec(),
                };
                Some(k <= self.rank_exec())
            },
            Err(_) => None,
        }
    }

    /// `selects_access` on the access level of field `i`.
    fn selects_access_at(&self, fields: &Fields, i: usize) -> (r: Option<bool>)
        requires
            self.reads_access(),
            i < fields.len(),
        ensures
            match access_rank(fields.vis_at(i as int)) {
                Some(k) => r == Some(k <= self.rank()),
                Option::None => r is None,
            },
    {
        match fields {
            Fields::Named(v) => self.selects_access(&v[i].vis),
            Fields::Unnamed(v) => self.selects_access(&v[i].vis),
            Fields::Unit => None,
        }
    }

    /// The first error that resolving against `fields` meets, if any.
    fn check(&self, fields: &Fields) -> (r: Option<GenError>)
        ensures
            match resolution(*self, *fields) {
                Ok(_) => r is None,
                Err(e) => r == Some(e),
            },
    {
        if let FieldsVisibility::Custom(list) = self {
            let mut k: usize = 0;
            while k < list.len()
                invariant
                    k <= list@.len(),
                    *self == FieldsVisibility::Custom(*list),
                    forall|j: int|
                        0 <= j < k ==> match fields {
                            Fields::Named(_) => !(#[trigger] list@[j] is Position),
                            Fields::Unnamed(_) => !(list@[j] is Name),
                            Fields::Unit => true,
                        },
                decreases list@.len() - k,
            {
                match (&list[k], fields) {
                    (FieldId::Position(_), Fields::Named(_)) => {
                        return Some(GenError::PositionalOnNamed);
                    },
                    (FieldId::Name(_), Fields::Unnamed(_)) => {
                        return Some(GenError::NamedOnPositional);
                    },
                    _ => {},
                }
                k += 1;
            }
            return None;
        }
        if !(matches!(self, FieldsVisibility::Pub) || matches!(self, FieldsVisibility::PubCrate)
            || matches!(self, FieldsVisibility::PubSuper)) {
            return None;
        }
        let n = fields_len(fields);
        let mut i: usize = 0;
        while i < n
            invariant
                i <= n,
                n == fields.len(),
                self.reads_access(),
                forall|j: int| 0 <= j < i ==> (#[trigger] access_rank(fields.vis_at(j))) is Some,
            decreases n - i,
        {
            if self.selects_access_at(fields, i).is_none() {
                return Some(GenError::UnexpectedVisibility);
            }
            i += 1;
        }
        None
    }

    /// Whether field `i` of `fields` is selected, once resolving met no error.
    pub fn selects_exec(&self, fields: &Fields, i: usize) -> (r: bool)
        requires
            i < fields.len(),
            resolution(*self, *fields) is Ok,
        ensures
            r == selects(*self, *fields, i as int),
    {
        match self {
            FieldsVisibility::Custom(list) => {
                let id = field_id_at(fields, i);
                list_contains(list, &id)
            },
            FieldsVisibility::Nothing => false,
            FieldsVisibility::All => true,
            _ => {
                match self.selects_access_at(fields, i) {
                    Some(b) => b,
                    Option::None => false,
                }
            },
        }
    }

    /// The fields that this specification selects, in declaration order: by
    /// name for named fields, by position for a tuple record, none for a unit
    /// record.
    ///
    /// Fails where the allow-list names positions for named fields (or names
    /// for positional ones), and where a threshold meets an access level it
    /// does not understand.
    pub fn fields_from_visibility(&self, fields: &Fields) -> (r: Result<Vec<FieldId>, GenError>)
        ensures
            match r {
                Ok(v) => resolution(*self, *fields) == Ok::<Seq<FieldKey>, GenError>(keys_of(v@)),
                Err(e) => resolution(*self, *fields) == Err::<Seq<FieldKey>, GenError>(e),
            },
    {
        if let Some(e) = self.check(fields) {
            return Err(e);
        }
        let n = fields_len(fields);
        let mut out: Vec<FieldId> = Vec::new();
        let mut i: usize = 0;
        while i < n
            invariant
                i <= n,
                n == fields.len(),
                resolution(*self, *fields) is Ok,
                keys_of(out@) == selection(*self, *fields, i as nat),
            decreases n - i,
        {
            if self.selects_exec(fields, i) {
                let id = field_id_at(fields, i);
                let ghost before = out@;
                out.push(id);
                assert(keys_of(out@) =~= keys_of(before).push(fields.key_at(i as int)));
            }
            i += 1;
        }
        Ok(out)
    }
}

/// The identifier of field `i`: its name, or its position.
pub fn field_id_at(fields: &Fields, i: usize) -> (r: FieldId)
    requires
        i < fields.len(),
    ensures
        r@ == fields.key_at(i as int),
{
    match fields {
        Fields::Named(v) => FieldId::Name(v[i].name.clone()),
        _ => FieldId::Position(i),
    }
}

/// The type of field `i`, as written.
pub fn field_ty_at(fields: &Fields, i: usize) -> (r: String)
    requires
        i < fields.len(),
    ensures
        r@ == fields.ty_at(i as int),
{
    match fields {
        Fields::Named(v) => v[i].ty.clone(),
        Fields::Unnamed(v) => v[i].ty.clone(),
        Fields::Unit => String::new(),
    }
}

/// How many fields there are.
pub fn fields_len(fields: &Fields) -> (n: usize)
    ensures
        n == fields.len(),
{
    match fields {
        Fields::Named(v) => v.len(),
        Fields::Unnamed(v) => v.len(),
        Fields::Unit => 0,
    }
}

/// Raising the threshold never drops a field: for thresholds `t1 < t2`, every
/// field that `t1` selects among the first `n`, `t2` selects too.
pub proof fn lemma_threshold_monotone(t1: FieldsVisibility, t2: FieldsVisibility, fields: Fields, n: nat)
    requires
        t1.is_threshold(),
        t2.is_threshold(),
        t1.rank() < t2.rank(),
    ensures
        forall|k: FieldKey|
            #[trigger] selection(t1, fields, n).contains(k) ==> selection(t2, fields, n).contains(k),
    decreases n,
{
    if n > 0 {
        lemma_threshold_monotone(t1, t2, fields, (n - 1) as nat);
        let before1 = selection(t1, fields, (n - 1) as nat);
        let before2 = selection(t2, fields, (n - 1) as nat);
        assert(selects(t1, fields, n - 1) ==> selects(t2, fields, n - 1));
        assert forall|k: FieldKey| #[trigger] selection(t1, fields, n).contains(k) implies selection(
            t2,
            fields,
            n,
        ).contains(k) by {
            if before1.contains(k) {
                let j = choose|j: int| 0 <= j < before2.len() && before2[j] == k;
                if selects(t2, fields, n - 1) {
                    assert(selection(t2, fields, n)[j] == k);
                }
            } else {
                assert(k == fields.key_at(n - 1));
                assert(selection(t2, fields, n).last() == k);
            }
        }
    }
}

/// Resolving two thresholds `t1 < t2` against one field list: where both
/// succeed, the fields selected under `t1` are among those under `t2`.
pub proof fn lemma_resolution_monotone(t1: FieldsVisibility, t2: FieldsVisibility, fields: Fields)
    requires
        t1.is_threshold(),
        t2.is_threshold(),
        t1.rank() < t2.rank(),
    ensures
        resolution(t1, fields) matches Ok(s1) ==> (resolution(t2, fields) matches Ok(s2) ==> forall|
            k: FieldKey,
        | #[trigger] s1.contains(k) ==> s2.contains(k)),
{
    lemma_threshold_monotone(t1, t2, fields, fields.len());
}

} // verus!
