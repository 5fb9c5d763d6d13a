//! The entity store: persons and family units, each kept in insertion order
//! and indexed by identifier, with identifiers unique per kind.

use vstd::prelude::*;
use vstd::hash_map::StringHashMap;
use crate::model::{
    Family, FamilyView, GedcomData, GedcomDataView, Individual, IndividualView, families_view,
    individuals_view,
};

verus! {

/// The last position in `s` of a person with identifier `id`, or -1.
pub open spec fn individual_position(s: Seq<IndividualView>, id: Seq<char>) -> int
    decreases s.len(),
{
    if s.len() == 0 {
        -1
    } else if s.last().id == id {
        s.len() - 1
    } else {
        individual_position(s.drop_last(), id)
    }
}

/// The last position in `s` of a family unit with identifier `id`, or -1.
pub open spec fn family_position(s: Seq<FamilyView>, id: Seq<char>) -> int
    decreases s.len(),
{
    if s.len() == 0 {
        -1
    } else if s.last().id == id {
        s.len() - 1
    } else {
        family_position(s.drop_last(), id)
    }
}

/// The person of `s` with identifier `id`, if any.
pub open spec fn individual_at(s: Seq<IndividualView>, id: Seq<char>) -> Option<IndividualView> {
    let k = individual_position(s, id);
    if k >= 0 {
        Some(s[k])
    } else {
        None
    }
}

/// The family unit of `s` with identifier `id`, if any.
pub open spec fn family_at(s: Seq<FamilyView>, id: Seq<char>) -> Option<FamilyView> {
    let k = family_position(s, id);
    if k >= 0 {
        Some(s[k])
    } else {
        None
    }
}

pub open spec fn individual_ids_unique(s: Seq<IndividualView>) -> bool {
    forall|i: int, j: int|
        0 <= i < s.len() && 0 <= j < s.len() && #[trigger] s[i].id == #[trigger] s[j].id ==> i == j
}

pub open spec fn family_ids_unique(s: Seq<FamilyView>) -> bool {
    forall|i: int, j: int|
        0 <= i < s.len() && 0 <= j < s.len() && #[trigger] s[i].id == #[trigger] s[j].id ==> i == j
}

/// `s` with `p` put in: it replaces the person with the same identifier
/// in place, or is appended.
pub open spec fn put_individual(s: Seq<IndividualView>, p: IndividualView) -> Seq<IndividualView> {
    let k = individual_position(s, p.id);
    if k >= 0 {
        s.update(k, p)
    } else {
        s.push(p)
    }
}

pub open spec fn put_family(s: Seq<FamilyView>, f: FamilyView) -> Seq<FamilyView> {
    let k = family_position(s, f.id);
    if k >= 0 {
        s.update(k, f)
    } else {
        s.push(f)
    }
}

/// The persons indexed from `s`: each identifier once, at its first
/// position, holding its last entry.
pub open spec fn index_individuals(s: Seq<IndividualView>) -> Seq<IndividualView>
    decreases s.len(),
{
    if s.len() == 0 {
        Seq::empty()
    } else {
        put_individual(index_individuals(s.drop_last()), s.last())
    }
}

pub open spec fn index_families(s: Seq<FamilyView>) -> Seq<FamilyView>
    decreases s.len(),
{
    if s.len() == 0 {
        Seq::empty()
    } else {
        put_family(index_families(s.drop_last()), s.last())
    }
}

/// What inserting `p` into `s` gives: `None` when the identifier is taken.
pub open spec fn insert_individual_outcome(s: Seq<IndividualView>, p: IndividualView) -> Option<
    Seq<IndividualView>,
> {
    if individual_at(s, p.id) is Some {
        None
    } else {
        Some(s.push(p))
    }
}

pub open spec fn insert_family_outcome(s: Seq<FamilyView>, f: FamilyView) -> Option<
    Seq<FamilyView>,
> {
    if family_at(s, f.id) is Some {
        None
    } else {
        Some(s.push(f))
    }
}

pub proof fn lemma_individual_position(s: Seq<IndividualView>, id: Seq<char>)
    ensures
        -1 <= individual_position(s, id) < s.len(),
        individual_position(s, id) >= 0 ==> s[individual_position(s, id)].id == id,
        individual_position(s, id) == -1 ==> forall|i: int| 0 <= i < s.len() ==> s[i].id != id,
        forall|i: int| 0 <= i < s.len() && s[i].id == id ==> i <= individual_position(s, id),
    decreases s.len(),
{
    if s.len() > 0 {
        lemma_individual_position(s.drop_last(), id);
        if s.last().id != id {
            assert forall|i: int| 0 <= i < s.len() - 1 implies s.drop_last()[i] == s[i] by {}
        }
    }
}

pub proof fn lemma_family_position(s: Seq<FamilyView>, id: Seq<char>)
    ensures
        -1 <= family_position(s, id) < s.len(),
        family_position(s, id) >= 0 ==> s[family_position(s, id)].id == id,
        family_position(s, id) == -1 ==> forall|i: int| 0 <= i < s.len() ==> s[i].id != id,
        forall|i: int| 0 <= i < s.len() && s[i].id == id ==> i <= family_position(s, id),
    decreases s.len(),
{
    if s.len() > 0 {
        lemma_family_position(s.drop_last(), id);
        if s.last().id != id {
            assert forall|i: int| 0 <= i < s.len() - 1 implies s.drop_last()[i] == s[i] by {}
        }
    }
}

/// Inserting a person under a free identifier succeeds; inserting another
/// person under the same identifier then fails, and the store still holds
/// exactly the first person under that identifier.
pub proof fn law_insert_individual_twice(s: Seq<IndividualView>, p: IndividualView, q: IndividualView)
    requires
        individual_at(s, p.id) is None,
        q.id == p.id,
    ensures
        insert_individual_outcome(s, p) == Some(s.push(p)),
        insert_individual_outcome(s.push(p), q) is None,
        individual_at(s.push(p), p.id) == Some(p),
{
    assert(s.push(p).drop_last() =~= s);
}

proof fn lemma_index_individuals_unique(s: Seq<IndividualView>)
    requires
        individual_ids_unique(s),
    ensures
        index_individuals(s) == s,
    decreases s.len(),
{
    if s.len() > 0 {
        let init = s.drop_last();
        assert forall|i: int, j: int|
            0 <= i < init.len() && 0 <= j < init.len() && #[trigger] init[i].id == #[trigger] init[j].id implies i == j by {
            assert(s[i] == init[i] && s[j] == init[j]);
        }
        lemma_index_individuals_unique(init);
        lemma_individual_position(init, s.last().id);
        if individual_position(init, s.last().id) >= 0 {
            let k = individual_position(init, s.last().id);
            assert(s[k].id == s[s.len() - 1].id);
        }
        assert(init.push(s.last()) =~= s);
    }
}

proof fn lemma_index_families_unique(s: Seq<FamilyView>)
    requires
        family_ids_unique(s),
    ensures
        index_families(s) == s,
    decreases s.len(),
{
    if s.len() > 0 {
        let init = s.drop_last();
        assert forall|i: int, j: int|
            0 <= i < init.len() && 0 <= j < init.len() && #[trigger] init[i].id == #[trigger] init[j].id implies i == j by {
            assert(s[i] == init[i] && s[j] == init[j]);
        }
        lemma_index_families_unique(init);
        lemma_family_position(init, s.last().id);
        if family_position(init, s.last().id) >= 0 {
            let k = family_position(init, s.last().id);
            assert(s[k].id == s[s.len() - 1].id);
        }
        assert(init.push(s.last()) =~= s);
    }
}

/// Building a store from the export of a store gives the same store:
/// `from_data(store.to_data())` holds what `store` holds, in the same order.
pub proof fn law_export_reload(v: StoreView)
    requires
        individual_ids_unique(v.individuals),
        family_ids_unique(v.families),
    ensures
        index_individuals(v.individuals) == v.individuals,
        index_families(v.families) == v.families,
{
    lemma_index_individuals_unique(v.individuals);
    lemma_index_families_unique(v.families);
}

/// `m` maps exactly the identifiers of the persons in `v` to their positions.
spec fn individuals_indexed(v: Seq<Individual>, m: Map<Seq<char>, usize>) -> bool {
    &&& forall|i: int| 0 <= i < v.len() ==> m.contains_key(#[trigger] v[i].id@) && m[v[i].id@] == i
    &&& forall|id: Seq<char>|
        #[trigger] m.contains_key(id) ==> m[id] < v.len() && v[m[id] as int].id@ == id
}

/// `m` maps exactly the identifiers of the family units in `v` to their positions.
spec fn families_indexed(v: Seq<Family>, m: Map<Seq<char>, usize>) -> bool {
    &&& forall|i: int| 0 <= i < v.len() ==> m.contains_key(#[trigger] v[i].id@) && m[v[i].id@] == i
    &&& forall|id: Seq<char>|
        #[trigger] m.contains_key(id) ==> m[id] < v.len() && v[m[id] as int].id@ == id
}

proof fn lemma_individuals_unique(v: Seq<Individual>, m: Map<Seq<char>, usize>)
    requires
        individuals_indexed(v, m),
    ensures
        individual_ids_unique(individuals_view(v)),
{
    assert forall|i: int, j: int|
        0 <= i < v.len() && 0 <= j < v.len() && #[trigger] individuals_view(v)[i].id
            == #[trigger] individuals_view(v)[j].id implies i == j by {
        assert(m[v[i].id@] == i);
        assert(m[v[j].id@] == j);
    }
}

proof fn lemma_families_unique(v: Seq<Family>, m: Map<Seq<char>, usize>)
    requires
        families_indexed(v, m),
    ensures
        family_ids_unique(families_view(v)),
{
    assert forall|i: int, j: int|
        0 <= i < v.len() && 0 <= j < v.len() && #[trigger] families_view(v)[i].id
            == #[trigger] families_view(v)[j].id implies i == j by {
        assert(m[v[i].id@] == i);
        assert(m[v[j].id@] == j);
    }
}

fn find_individual<'a>(v: &'a Vec<Individual>, m: &StringHashMap<usize>, id: &str) -> (r: Option<
    &'a Individual,
>)
    requires
        individuals_indexed(v@, m@),
    ensures
        match r {
            Some(p) => individual_at(individuals_view(v@), id@) == Some(p@),
            None => individual_at(individuals_view(v@), id@) is None,
        },
{
    let ghost s = individuals_view(v@);
    proof {
        lemma_individual_position(s, id@);
    }
    match m.get(id) {
        Some(k) => {
            proof {
                assert(s[*k as int].id == id@);
                assert forall|i: int| 0 <= i < s.len() && s[i].id == id@ implies i == *k by {
                    assert(v@[i].id@ == id@);
                }
            }
            Some(&v[*k])
        },
        None => {
            proof {
                assert forall|i: int| 0 <= i < s.len() implies s[i].id != id@ by {
                    assert(v@[i].id@ == s[i].id);
                }
            }
            None
        },
    }
}

fn find_family<'a>(v: &'a Vec<Family>, m: &StringHashMap<usize>, id: &str) -> (r: Option<
    &'a Family,
>)
    requires
        families_indexed(v@, m@),
    ensures
        match r {
            Some(f) => family_at(families_view(v@), id@) == Some(f@),
            None => family_at(families_view(v@), id@) is None,
        },
{
    let ghost s = families_view(v@);
    proof {
        lemma_family_position(s, id@);
    }
    match m.get(id) {
        Some(k) => {
            proof {
                assert(s[*k as int].id == id@);
                assert forall|i: int| 0 <= i < s.len() && s[i].id == id@ implies i == *k by {
                    assert(v@[i].id@ == id@);
                }
            }
            Some(&v[*k])
        },
        None => {
            proof {
                assert forall|i: int| 0 <= i < s.len() implies s[i].id != id@ by {
                    assert(v@[i].id@ == s[i].id);
                }
            }
            None
        },
    }
}

/// Puts a person in: it replaces the one with the same identifier, in
/// place, or is appended.
fn put_individual_in(v: &mut Vec<Individual>, m: &mut StringHashMap<usize>, p: Individual)
    requires
        individuals_indexed(old(v)@, old(m)@),
    ensures
        individuals_indexed(final(v)@, final(m)@),
        individuals_view(final(v)@) == put_individual(individuals_view(old(v)@), p@),
{
    let ghost s = individuals_view(v@);
    let ghost v0 = v@;
    let ghost m0 = m@;
    proof {
        lemma_individual_position(s, p@.id);
        lemma_individuals_unique(v@, m@);
    }
    let found = match m.get(p.id.as_str()) {
        Some(k) => Some(*k),
        None => None,
    };
    match found {
        Some(k) => {
            proof {
                assert(s[k as int].id == p@.id);
            }
            v.set(k, p);
            proof {
                assert(individuals_view(v@) =~= put_individual(s, p@));
                assert forall|i: int| 0 <= i < v@.len() implies #[trigger] v@[i].id@ == v0[i].id@ by {}
            }
        },
        None => {
            proof {
                assert forall|i: int| 0 <= i < s.len() implies s[i].id != p@.id by {}
                if m0.contains_key(p.id@) {
                    assert(s[m0[p.id@] as int].id == p@.id);
                }
            }
            let n = v.len();
            m.insert(p.id.clone(), n);
            v.push(p);
            proof {
                assert(individuals_view(v@) =~= s.push(p@));
                assert forall|i: int| 0 <= i < v@.len() implies m@.contains_key(#[trigger] v@[i].id@)
                    && m@[v@[i].id@] == i by {
                    if i < n {
                        assert(v@[i] == v0[i]);
                        assert(s[i].id == v0[i].id@);
                    }
                }
                assert forall|id: Seq<char>| #[trigger] m@.contains_key(id) implies m@[id] < v@.len()
                    && v@[m@[id] as int].id@ == id by {
                    if id != p.id@ {
                        assert(m0.contains_key(id));
                    }
                }
            }
        },
    }
}

/// Puts a family unit in: it replaces the one with the same identifier, in
/// place, or is appended.
fn put_family_in(v: &mut Vec<Family>, m: &mut StringHashMap<usize>, f: Family)
    requires
        families_indexed(old(v)@, old(m)@),
    ensures
        families_indexed(final(v)@, final(m)@),
        families_view(final(v)@) == put_family(families_view(old(v)@), f@),
{
    let ghost s = families_view(v@);
    let ghost v0 = v@;
    let ghost m0 = m@;
    proof {
        lemma_family_position(s, f@.id);
        lemma_families_unique(v@, m@);
    }
    let found = match m.get(f.id.as_str()) {
        Some(k) => Some(*k),
        None => None,
    };
    match found {
        Some(k) => {
            proof {
                assert(s[k as int].id == f@.id);
            }
            v.set(k, f);
            proof {
                assert(families_view(v@) =~= put_family(s, f@));
                assert forall|i: int| 0 <= i < v@.len() implies #[trigger] v@[i].id@ == v0[i].id@ by {}
            }
        },
        None => {
            proof {
                assert forall|i: int| 0 <= i < s.len() implies s[i].id != f@.id by {}
                if m0.contains_key(f.id@) {
                    assert(s[m0[f.id@] as int].id == f@.id);
                }
            }
            let n = v.len();
            m.insert(f.id.clone(), n);
            v.push(f);
            proof {
                assert(families_view(v@) =~= s.push(f@));
                assert forall|i: int| 0 <= i < v@.len() implies m@.contains_key(#[trigger] v@[i].id@)
                    && m@[v@[i].id@] == i by {
                    if i < n {
                        assert(v@[i] == v0[i]);
                        assert(s[i].id == v0[i].id@);
                    }
                }
                assert forall|id: Seq<char>| #[trigger] m@.contains_key(id) implies m@[id] < v@.len()
                    && v@[m@[id] as int].id@ == id by {
                    if id != f.id@ {
                        assert(m0.contains_key(id));
                    }
                }
            }
        },
    }
}

/// A duplicate identifier on insert; the store is left unchanged.
#[derive(Debug)]
pub enum StoreError {
    DuplicateIndividual(String),
    DuplicateFamily(String),
}

/// The abstract store: both kinds in insertion order.
pub struct StoreView {
    pub individuals: Seq<IndividualView>,
    pub families: Seq<FamilyView>,
}

/// Persons and family units indexed by identifier.
pub struct GedcomStore {
    individuals: Vec<Individual>,
    individual_index: StringHashMap<usize>,
    families: Vec<Family>,
    family_index: StringHashMap<usize>,
}

impl View for GedcomStore {
    type V = StoreView;

    closed spec fn view(&self) -> StoreView {
        StoreView {
            individuals: individuals_view(self.individuals@),
            families: families_view(self.families@),
        }
    }
}

impl GedcomStore {
    /// Each index maps exactly the identifiers in its list to their positions.
    #[verifier::type_invariant]
    spec fn indexed(&self) -> bool {
        &&& individuals_indexed(self.individuals@, self.individual_index@)
        &&& families_indexed(self.families@, self.family_index@)
    }

    fn empty() -> (r: Self)
        ensures
            r@.individuals == Seq::<IndividualView>::empty(),
            r@.families == Seq::<FamilyView>::empty(),
    {
        let r = GedcomStore {
            individuals: Vec::new(),
            individual_index: StringHashMap::new(),
            families: Vec::new(),
            family_index: StringHashMap::new(),
        };
        assert(r@.individuals =~= Seq::<IndividualView>::empty());
        assert(r@.families =~= Seq::<FamilyView>::empty());
        r
    }

    /// Looks a person up by identifier.
    pub fn get_individual(&self, id: &str) -> (r: Option<&Individual>)
        ensures
            match r {
                Some(p) => individual_at(self@.individuals, id@) == Some(p@),
                None => individual_at(self@.individuals, id@) is None,
            },
    {
        proof {
            use_type_invariant(self);
        }
        find_individual(&self.individuals, &self.individual_index, id)
    }

    /// Looks a family unit up by identifier.
    pub fn get_family(&self, id: &str) -> (r: Option<&Family>)
        ensures
            match r {
                Some(f) => family_at(self@.families, id@) == Some(f@),
                None => family_at(self@.families, id@) is None,
            },
    {
        proof {
            use_type_invariant(self);
        }
        find_family(&self.families, &self.family_index, id)
    }

    /// Adds a person; fails, leaving the store unchanged, when the
    /// identifier is already taken.
    pub fn insert_individual(&mut self, individual: Individual) -> (r: Result<(), StoreError>)
        ensures
            final(self)@.families == old(self)@.families,
            individual_ids_unique(final(self)@.individuals),
            match r {
                Ok(_) => insert_individual_outcome(old(self)@.individuals, individual@) == Some(
                    final(self)@.individuals,
                ),
                Err(StoreError::DuplicateIndividual(id)) => insert_individual_outcome(
                    old(self)@.individuals,
                    individual@,
                ) is None && id@ == individual@.id && final(self)@ == old(self)@,
                Err(_) => false,
            },
    {
        proof {
            use_type_invariant(&*self);
            lemma_individuals_unique(self.individuals@, self.individual_index@);
            lemma_individual_position(self@.individuals, individual@.id);
        }
        if self.get_individual(individual.id.as_str()).is_some() {
            return Err(StoreError::DuplicateIndividual(individual.id));
        }
        let mut parts = GedcomStore::empty();
        std::mem::swap(self, &mut parts);
        proof {
            use_type_invariant(&parts);
        }
        let GedcomStore { mut individuals, mut individual_index, families, family_index } = parts;
        put_individual_in(&mut individuals, &mut individual_index, individual);
        proof {
            lemma_individuals_unique(individuals@, individual_index@);
        }
        *self = GedcomStore { individuals, individual_index, families, family_index };
        Ok(())
    }

    /// Adds a family unit; fails, leaving the store unchanged, when the
    /// identifier is already taken.
    pub fn insert_family(&mut self, family: Family) -> (r: Result<(), StoreError>)
        ensures
            final(self)@.individuals == old(self)@.individuals,
            family_ids_unique(final(self)@.families),
            match r {
                Ok(_) => insert_family_outcome(old(self)@.families, family@) == Some(
                    final(self)@.families,
                ),
                Err(StoreError::DuplicateFamily(id)) => insert_family_outcome(
                    old(self)@.families,
                    family@,
                ) is None && id@ == family@.id && final(self)@ == old(self)@,
                Err(_) => false,
            },
    {
        proof {
            use_type_invariant(&*self);
            lemma_families_unique(self.families@, self.family_index@);
            lemma_family_position(self@.families, family@.id);
        }
        if self.get_family(family.id.as_str()).is_some() {
            return Err(StoreError::DuplicateFamily(family.id));
        }
        let mut parts = GedcomStore::empty();
        std::mem::swap(self, &mut parts);
        proof {
            use_type_invariant(&parts);
        }
        let GedcomStore { individuals, individual_index, mut families, mut family_index } = parts;
        put_family_in(&mut families, &mut family_index, family);
        proof {
            lemma_families_unique(families@, family_index@);
        }
        *self = GedcomStore { individuals, individual_index, families, family_index };
        Ok(())
    }

    /// Builds a store from an entity collection without rejecting repeated
    /// identifiers: each identifier keeps its first position and its last
    /// entry.
    pub fn from_data(data: GedcomData) -> (r: Self)
        ensures
            r@.individuals == index_individuals(data@.individuals),
            r@.families == index_families(data@.families),
            individual_ids_unique(r@.individuals),
            family_ids_unique(r@.families),
    {
        let mut individuals: Vec<Individual> = Vec::new();
        let mut individual_index: StringHashMap<usize> = StringHashMap::new();
        let mut families: Vec<Family> = Vec::new();
        let mut family_index: StringHashMap<usize> = StringHashMap::new();
        proof {
            assert(individuals_view(individuals@) =~= index_individuals(Seq::empty()));
            assert(families_view(families@) =~= index_families(Seq::empty()));
        }
        let ghost all_i = data.individuals@;
        let ghost all_f = data.families@;
        for p in it: data.individuals
            invariant
                individuals_indexed(individuals@, individual_index@),
                it.seq() == all_i,
                individuals_view(individuals@) == index_individuals(
                    individuals_view(all_i.subrange(0, it.index() as int)),
                ),
        {
            let ghost before = individuals_view(all_i.subrange(0, it.index() as int));
            let ghost after = individuals_view(all_i.subrange(0, it.index() + 1));
            proof {
                assert(after.drop_last() =~= before);
            }
            put_individual_in(&mut individuals, &mut individual_index, p);
        }
        proof {
            assert(all_i.subrange(0, all_i.len() as int) =~= all_i);
        }
        for f in it: data.families
            invariant
                families_indexed(families@, family_index@),
                it.seq() == all_f,
                families_view(families@) == index_families(
                    families_view(all_f.subrange(0, it.index() as int)),
                ),
        {
            let ghost before = families_view(all_f.subrange(0, it.index() as int));
            let ghost after = families_view(all_f.subrange(0, it.index() + 1));
            proof {
                assert(after.drop_last() =~= before);
            }
            put_family_in(&mut families, &mut family_index, f);
        }
        proof {
            assert(all_f.subrange(0, all_f.len() as int) =~= all_f);
            lemma_individuals_unique(individuals@, individual_index@);
            lemma_families_unique(families@, family_index@);
        }
        GedcomStore { individuals, individual_index, families, family_index }
    }

    /// Every person, each identifier once, in insertion order.
    pub fn individuals(&self) -> (r: &[Individual])
        ensures
            individuals_view(r@) == self@.individuals,
            individual_ids_unique(self@.individuals),
    {
        proof {
            use_type_invariant(self);
            lemma_individuals_unique(self.individuals@, self.individual_index@);
        }
        self.individuals.as_slice()
    }

    /// Every family unit, each identifier once, in insertion order.
    pub fn families(&self) -> (r: &[Family])
        ensures
            families_view(r@) == self@.families,
            family_ids_unique(self@.families),
    {
        proof {
            use_type_invariant(self);
            lemma_families_unique(self.families@, self.family_index@);
        }
        self.families.as_slice()
    }

    /// The store's contents as an entity collection, in insertion order.
    pub fn to_data(&self) -> (d: GedcomData)
        ensures
            d@ == (GedcomDataView { individuals: self@.individuals, families: self@.families }),
            individual_ids_unique(d@.individuals),
            family_ids_unique(d@.families),
    {
        proof {
            use_type_invariant(self);
            lemma_individuals_unique(self.individuals@, self.individual_index@);
            lemma_families_unique(self.families@, self.family_index@);
        }
        let mut individuals: Vec<Individual> = Vec::new();
        for i in 0..self.individuals.len()
            invariant
                individuals@.len() == i,
                forall|j: int| 0 <= j < i ==> #[trigger] individuals@[j]@ == self.individuals@[j]@,
        {
            individuals.push(self.individuals[i].duplicate());
        }
        let mut families: Vec<Family> = Vec::new();
        for i in 0..self.families.len()
            invariant
                families@.len() == i,
                forall|j: int| 0 <= j < i ==> #[trigger] families@[j]@ == self.families@[j]@,
        {
            families.push(self.families[i].duplicate());
        }
        let d = GedcomData { individuals, families };
        assert(d@.individuals =~= self@.individuals);
        assert(d@.families =~= self@.families);
        d
    }
}

} // verus!
