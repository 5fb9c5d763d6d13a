//! The entities of a genealogical document and their mathematical views.

use vstd::prelude::*;

verus! {

/// Abstract view of an optional string.
pub open spec fn opt_str_view(o: Option<String>) -> Option<Seq<char>> {
    match o {
        Some(s) => Some(s@),
        None => None,
    }
}

/// Abstract view of a sequence of strings.
pub open spec fn strs_view(v: Seq<String>) -> Seq<Seq<char>> {
    v.map_values(|s: String| s@)
}

/// A dated, placed occurrence in a person's life (a birth or a death).
#[derive(Debug, Clone, PartialEq, Eq)]
pub struct Event {
    pub date: Option<String>,
    pub place: Option<String>,
}

pub struct EventView {
    pub date: Option<Seq<char>>,
    pub place: Option<Seq<char>>,
}

impl View for Event {
    type V = EventView;

    open spec fn view(&self) -> EventView {
        EventView { date: opt_str_view(self.date), place: opt_str_view(self.place) }
    }
}

pub open spec fn opt_event_view(o: Option<Event>) -> Option<EventView> {
    match o {
        Some(e) => Some(e@),
        None => None,
    }
}

/// A person record.
#[derive(Debug, Clone, PartialEq, Eq)]
pub struct Individual {
    pub id: String,
    pub name: Option<String>,
    pub birth: Option<Event>,
    pub death: Option<Event>,
}

pub struct IndividualView {
    pub id: Seq<char>,
    pub name: Option<Seq<char>>,
    pub birth: Option<EventView>,
    pub death: Option<EventView>,
}

impl View for Individual {
    type V = IndividualView;

    open spec fn view(&self) -> IndividualView {
        IndividualView {
            id: self.id@,
            name: opt_str_view(self.name),
            birth: opt_event_view(self.birth),
            death: opt_event_view(self.death),
        }
    }
}

/// A family unit: references to its partners and children by identifier.
#[derive(Debug, Clone, PartialEq, Eq)]
pub struct Family {
    pub id: String,
    pub husband: Option<String>,
    pub wife: Option<String>,
    pub children: Vec<String>,
}

pub struct FamilyView {
    pub id: Seq<char>,
    pub husband: Option<Seq<char>>,
    pub wife: Option<Seq<char>>,
    pub children: Seq<Seq<char>>,
}

impl View for Family {
    type V = FamilyView;

    open spec fn view(&self) -> FamilyView {
        FamilyView {
            id: self.id@,
            husband: opt_str_view(self.husband),
            wife: opt_str_view(self.wife),
            children: strs_view(self.children@),
        }
    }
}

/// An entity collection: persons and family units, each in a fixed order.
#[derive(Debug, Clone, PartialEq, Eq)]
pub struct GedcomData {
    pub individuals: Vec<Individual>,
    pub families: Vec<Family>,
}

pub struct GedcomDataView {
    pub individuals: Seq<IndividualView>,
    pub families: Seq<FamilyView>,
}

pub open spec fn individuals_view(v: Seq<Individual>) -> Seq<IndividualView> {
    v.map_values(|i: Individual| i@)
}

pub open spec fn families_view(v: Seq<Family>) -> Seq<FamilyView> {
    v.map_values(|f: Family| f@)
}

impl View for GedcomData {
    type V = GedcomDataView;

    open spec fn view(&self) -> GedcomDataView {
        GedcomDataView {
            individuals: individuals_view(self.individuals@),
            families: families_view(self.families@),
        }
    }
}

pub fn clone_opt_string(o: &Option<String>) -> (r: Option<String>)
    ensures
        opt_str_view(r) == opt_str_view(*o),
{
    match o {
        Some(s) => Some(s.clone()),
        None => None,
    }
}

pub fn clone_strings(v: &Vec<String>) -> (r: Vec<String>)
    ensures
        strs_view(r@) == strs_view(v@),
{
    let mut r: Vec<String> = Vec::new();
    for i in 0..v.len()
        invariant
            r@.len() == i,
            forall|j: int| 0 <= j < i ==> #[trigger] r@[j]@ == v@[j]@,
    {
        r.push(v[i].clone());
    }
    assert(strs_view(r@) =~= strs_view(v@));
    r
}

impl Event {
    /// A copy with the same view.
    pub fn duplicate(&self) -> (r: Event)
        ensures
            r@ == self@,
    {
        Event { date: clone_opt_string(&self.date), place: clone_opt_string(&self.place) }
    }
}

pub fn clone_opt_event(o: &Option<Event>) -> (r: Option<Event>)
    ensures
        opt_event_view(r) == opt_event_view(*o),
{
    match o {
        Some(e) => Some(e.duplicate()),
        None => None,
    }
}

impl Individual {
    /// A copy with the same view.
    pub fn duplicate(&self) -> (r: Individual)
        ensures
            r@ == self@,
    {
        Individual {
            id: self.id.clone(),
            name: clone_opt_string(&self.name),
            birth: clone_opt_event(&self.birth),
            death: clone_opt_event(&self.death),
        }
    }
}

impl Family {
    /// A copy with the same view.
    pub fn duplicate(&self) -> (r: Family)
        ensures
            r@ == self@,
    {
        Family {
            id: self.id.clone(),
            husband: clone_opt_string(&self.husband),
            wife: clone_opt_string(&self.wife),
            children: clone_strings(&self.children),
        }
    }
}

} // verus!
