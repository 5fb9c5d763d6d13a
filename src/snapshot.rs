//! The snapshot form of an entity collection: a JSON value holding the
//! persons and family units with every field, absent ones as `null`.

use vstd::prelude::*;
use crate::model::{
    Event, EventView, Family, FamilyView, GedcomData, GedcomDataView, Individual, IndividualView,
};

verus! {

/// A JSON value.
#[derive(Debug)]
pub enum Json {
    Null,
    Bool(bool),
    /// A number, as its literal text.
    Num(String),
    Str(String),
    Arr(Vec<Json>),
    /// An object's members in order.
    Obj(Vec<(String, Json)>),
}

pub enum JsonView {
    Null,
    Bool(bool),
    Num(Seq<char>),
    Str(Seq<char>),
    Arr(Seq<JsonView>),
    Obj(Seq<(Seq<char>, JsonView)>),
}

pub open spec fn json_view(j: Json) -> JsonView
    decreases j,
{
    match j {
        Json::Null => JsonView::Null,
        Json::Bool(b) => JsonView::Bool(b),
        Json::Num(s) => JsonView::Num(s@),
        Json::Str(s) => JsonView::Str(s@),
        Json::Arr(items) => JsonView::Arr(
            Seq::new(
                items@.len(),
                |i: int|
                    if 0 <= i < items@.len() {
                        json_view(items@[i])
                    } else {
                        JsonView::Null
                    },
            ),
        ),
        Json::Obj(members) => JsonView::Obj(
            Seq::new(
                members@.len(),
                |i: int|
                    if 0 <= i < members@.len() {
                        (members@[i].0@, json_view(members@[i].1))
                    } else {
                        (Seq::empty(), JsonView::Null)
                    },
            ),
        ),
    }
}

impl View for Json {
    type V = JsonView;

    open spec fn view(&self) -> JsonView {
        json_view(*self)
    }
}

pub open spec fn opt_str_json(o: Option<Seq<char>>) -> JsonView {
    match o {
        Some(s) => JsonView::Str(s),
        None => JsonView::Null,
    }
}

pub open spec fn event_json(e: EventView) -> JsonView {
    JsonView::Obj(seq![("date"@, opt_str_json(e.date)), ("place"@, opt_str_json(e.place))])
}

pub open spec fn opt_event_json(o: Option<EventView>) -> JsonView {
    match o {
        Some(e) => event_json(e),
        None => JsonView::Null,
    }
}

pub open spec fn individual_json(p: IndividualView) -> JsonView {
    JsonView::Obj(
        seq![
            ("id"@, JsonView::Str(p.id)),
            ("name"@, opt_str_json(p.name)),
            ("birth"@, opt_event_json(p.birth)),
            ("death"@, opt_event_json(p.death)),
        ],
    )
}

pub open spec fn strs_json(s: Seq<Seq<char>>) -> Seq<JsonView> {
    s.map_values(|c: Seq<char>| JsonView::Str(c))
}

pub open spec fn family_json(f: FamilyView) -> JsonView {
    JsonView::Obj(
        seq![
            ("id"@, JsonView::Str(f.id)),
            ("husband"@, opt_str_json(f.husband)),
            ("wife"@, opt_str_json(f.wife)),
            ("children"@, JsonView::Arr(strs_json(f.children))),
        ],
    )
}

/// The snapshot form of an entity collection.
pub open spec fn data_json(d: GedcomDataView) -> JsonView {
    JsonView::Obj(
        seq![
            ("individuals"@, JsonView::Arr(d.individuals.map_values(|p| individual_json(p)))),
            ("families"@, JsonView::Arr(d.families.map_values(|f| family_json(f)))),
        ],
    )
}

/// The value of the first member of `members` named `key`.
pub open spec fn member(members: Seq<(Seq<char>, JsonView)>, key: Seq<char>) -> Option<JsonView>
    decreases members.len(),
{
    if members.len() == 0 {
        None
    } else if members[0].0 == key {
        Some(members[0].1)
    } else {
        member(members.drop_first(), key)
    }
}

/// A required string.
pub open spec fn decode_str(v: Option<JsonView>) -> Option<Seq<char>> {
    match v {
        Some(JsonView::Str(s)) => Some(s),
        _ => None,
    }
}

/// An optional string: absent and `null` both mean none.
pub open spec fn decode_opt_str(v: Option<JsonView>) -> Option<Option<Seq<char>>> {
    match v {
        None => Some(None),
        Some(JsonView::Null) => Some(None),
        Some(JsonView::Str(s)) => Some(Some(s)),
        _ => None,
    }
}

pub open spec fn decode_event(j: JsonView) -> Option<EventView> {
    match j {
        JsonView::Obj(m) => {
            let date = decode_opt_str(member(m, "date"@));
            let place = decode_opt_str(member(m, "place"@));
            if date is Some && place is Some {
                Some(EventView { date: date->0, place: place->0 })
            } else {
                None
            }
        },
        _ => None,
    }
}

pub open spec fn decode_opt_event(v: Option<JsonView>) -> Option<Option<EventView>> {
    match v {
        None => Some(None),
        Some(JsonView::Null) => Some(None),
        Some(j) => match decode_event(j) {
            Some(e) => Some(Some(e)),
            None => None,
        },
    }
}

pub open spec fn decode_individual(j: JsonView) -> Option<IndividualView> {
    match j {
        JsonView::Obj(m) => {
            let id = decode_str(member(m, "id"@));
            let name = decode_opt_str(member(m, "name"@));
            let birth = decode_opt_event(member(m, "birth"@));
            let death = decode_opt_event(member(m, "death"@));
            if id is Some && name is Some && birth is Some && death is Some {
                Some(
                    IndividualView { id: id->0, name: name->0, birth: birth->0, death: death->0 },
                )
            } else {
                None
            }
        },
        _ => None,
    }
}

/// Every item a string.
pub open spec fn decode_strs(items: Seq<JsonView>) -> Option<Seq<Seq<char>>>
    decreases items.len(),
{
    if items.len() == 0 {
        Some(Seq::empty())
    } else {
        match (decode_strs(items.drop_last()), items.last()) {
            (Some(prev), JsonView::Str(s)) => Some(prev.push(s)),
            _ => None,
        }
    }
}

pub open spec fn decode_family(j: JsonView) -> Option<FamilyView> {
    match j {
        JsonView::Obj(m) => {
            let id = decode_str(member(m, "id"@));
            let husband = decode_opt_str(member(m, "husband"@));
            let wife = decode_opt_str(member(m, "wife"@));
            let children = match member(m, "children"@) {
                Some(JsonView::Arr(items)) => decode_strs(items),
                _ => None,
            };
            if id is Some && husband is Some && wife is Some && children is Some {
                Some(
                    FamilyView {
                        id: id->0,
                        husband: husband->0,
                        wife: wife->0,
                        children: children->0,
                    },
                )
            } else {
                None
            }
        },
        _ => None,
    }
}

pub open spec fn decode_individuals(items: Seq<JsonView>) -> Option<Seq<IndividualView>>
    decreases items.len(),
{
    if items.len() == 0 {
        Some(Seq::empty())
    } else {
        match (decode_individuals(items.drop_last()), decode_individual(items.last())) {
            (Some(prev), Some(p)) => Some(prev.push(p)),
            _ => None,
        }
    }
}

pub open spec fn decode_families(items: Seq<JsonView>) -> Option<Seq<FamilyView>>
    decreases items.len(),
{
    if items.len() == 0 {
        Some(Seq::empty())
    } else {
        match (decode_families(items.drop_last()), decode_family(items.last())) {
            (Some(prev), Some(f)) => Some(prev.push(f)),
            _ => None,
        }
    }
}

/// The entity collection that a snapshot value holds, if it is one: an
/// object with arrays `individuals` and `families`; members it does not
/// know are ignored.
pub open spec fn decode_data(j: JsonView) -> Option<GedcomDataView> {
    match j {
        JsonView::Obj(m) => match (member(m, "individuals"@), member(m, "families"@)) {
            (Some(JsonView::Arr(is)), Some(JsonView::Arr(fs))) => match (
                decode_individuals(is),
                decode_families(fs),
            ) {
                (Some(individuals), Some(families)) => Some(
                    GedcomDataView { individuals, families },
                ),
                _ => None,
            },
            _ => None,
        },
        _ => None,
    }
}

proof fn lemma_member_at(m: Seq<(Seq<char>, JsonView)>, key: Seq<char>, j: int)
    requires
        0 <= j < m.len(),
        m[j].0 == key,
        forall|i: int| 0 <= i < j ==> m[i].0 != key,
    ensures
        member(m, key) == Some(m[j].1),
    decreases j,
{
    if j > 0 {
        lemma_member_at(m.drop_first(), key, j - 1);
    }
}

proof fn lemma_keys_distinct()
    ensures
        "id"@ != "name"@,
        "id"@ != "birth"@,
        "id"@ != "death"@,
        "name"@ != "birth"@,
        "name"@ != "death"@,
        "birth"@ != "death"@,
        "date"@ != "place"@,
        "id"@ != "husband"@,
        "id"@ != "wife"@,
        "id"@ != "children"@,
        "husband"@ != "wife"@,
        "husband"@ != "children"@,
        "wife"@ != "children"@,
        "individuals"@ != "families"@,
{
    reveal_strlit("id");
    reveal_strlit("name");
    reveal_strlit("birth");
    reveal_strlit("death");
    reveal_strlit("date");
    reveal_strlit("place");
    reveal_strlit("husband");
    reveal_strlit("wife");
    reveal_strlit("children");
    reveal_strlit("individuals");
    reveal_strlit("families");
    assert("id"@.len() != "name"@.len());
    assert("id"@.len() != "birth"@.len());
    assert("id"@.len() != "death"@.len());
    assert("name"@[0] != "birth"@[0]);
    assert("name"@[0] != "death"@[0]);
    assert("birth"@[0] != "death"@[0]);
    assert("date"@[0] != "place"@[0]);
    assert("id"@.len() != "husband"@.len());
    assert("id"@.len() != "wife"@.len());
    assert("id"@.len() != "children"@.len());
    assert("husband"@.len() != "wife"@.len());
    assert("husband"@[0] != "children"@[0]);
    assert("wife"@.len() != "children"@.len());
    assert("individuals"@.len() != "families"@.len());
}

proof fn lemma_event_round_trip(o: Option<EventView>)
    ensures
        decode_opt_event(Some(opt_event_json(o))) == Some(o),
{
    lemma_keys_distinct();
    if let Some(e) = o {
        let m = seq![("date"@, opt_str_json(e.date)), ("place"@, opt_str_json(e.place))];
        lemma_member_at(m, "date"@, 0);
        lemma_member_at(m, "place"@, 1);
    }
}

proof fn lemma_individual_round_trip(p: IndividualView)
    ensures
        decode_individual(individual_json(p)) == Some(p),
{
    lemma_keys_distinct();
    lemma_event_round_trip(p.birth);
    lemma_event_round_trip(p.death);
    let m = seq![
        ("id"@, JsonView::Str(p.id)),
        ("name"@, opt_str_json(p.name)),
        ("birth"@, opt_event_json(p.birth)),
        ("death"@, opt_event_json(p.death)),
    ];
    lemma_member_at(m, "id"@, 0);
    lemma_member_at(m, "name"@, 1);
    lemma_member_at(m, "birth"@, 2);
    lemma_member_at(m, "death"@, 3);
}

proof fn lemma_strs_round_trip(s: Seq<Seq<char>>)
    ensures
        decode_strs(strs_json(s)) == Some(s),
    decreases s.len(),
{
    if s.len() > 0 {
        lemma_strs_round_trip(s.drop_last());
        assert(strs_json(s).drop_last() =~= strs_json(s.drop_last()));
        assert(s.drop_last().push(s.last()) =~= s);
    } else {
        assert(strs_json(s) =~= Seq::<JsonView>::empty());
        assert(s =~= Seq::<Seq<char>>::empty());
    }
}

proof fn lemma_family_round_trip(f: FamilyView)
    ensures
        decode_family(family_json(f)) == Some(f),
{
    lemma_keys_distinct();
    lemma_strs_round_trip(f.children);
    let m = seq![
        ("id"@, JsonView::Str(f.id)),
        ("husband"@, opt_str_json(f.husband)),
        ("wife"@, opt_str_json(f.wife)),
        ("children"@, JsonView::Arr(strs_json(f.children))),
    ];
    lemma_member_at(m, "id"@, 0);
    lemma_member_at(m, "husband"@, 1);
    lemma_member_at(m, "wife"@, 2);
    lemma_member_at(m, "children"@, 3);
}

proof fn lemma_individuals_round_trip(s: Seq<IndividualView>)
    ensures
        decode_individuals(s.map_values(|p| individual_json(p))) == Some(s),
    decreases s.len(),
{
    let items = s.map_values(|p| individual_json(p));
    if s.len() > 0 {
        lemma_individuals_round_trip(s.drop_last());
        lemma_individual_round_trip(s.last());
        assert(items.drop_last() =~= s.drop_last().map_values(|p| individual_json(p)));
        assert(s.drop_last().push(s.last()) =~= s);
    } else {
        assert(s =~= Seq::<IndividualView>::empty());
    }
}

proof fn lemma_families_round_trip(s: Seq<FamilyView>)
    ensures
        decode_families(s.map_values(|f| family_json(f))) == Some(s),
    decreases s.len(),
{
    let items = s.map_values(|f| family_json(f));
    if s.len() > 0 {
        lemma_families_round_trip(s.drop_last());
        lemma_family_round_trip(s.last());
        assert(items.drop_last() =~= s.drop_last().map_values(|f| family_json(f)));
        assert(s.drop_last().push(s.last()) =~= s);
    } else {
        assert(s =~= Seq::<FamilyView>::empty());
    }
}

/// Reading back the snapshot form of any entity collection gives that
/// collection: `decode_snapshot(encode_snapshot(d))` is `d`.
pub proof fn law_snapshot_round_trip(d: GedcomDataView)
    ensures
        decode_data(data_json(d)) == Some(d),
{
    lemma_keys_distinct();
    lemma_individuals_round_trip(d.individuals);
    lemma_families_round_trip(d.families);
    let m = seq![
        ("individuals"@, JsonView::Arr(d.individuals.map_values(|p| individual_json(p)))),
        ("families"@, JsonView::Arr(d.families.map_values(|f| family_json(f)))),
    ];
    lemma_member_at(m, "individuals"@, 0);
    lemma_member_at(m, "families"@, 1);
}

pub(crate) fn text(s: &str) -> (r: Json)
    ensures
        r@ == JsonView::Str(s@),
{
    Json::Str(s.to_owned())
}

fn text_of(s: &String) -> (r: Json)
    ensures
        r@ == JsonView::Str(s@),
{
    Json::Str(s.clone())
}

fn opt_str_to_json(o: &Option<String>) -> (r: Json)
    ensures
        r@ == opt_str_json(crate::model::opt_str_view(*o)),
{
    match o {
        Some(s) => Json::Str(s.clone()),
        None => Json::Null,
    }
}

fn opt_event_to_json(o: &Option<Event>) -> (r: Json)
    ensures
        r@ == opt_event_json(crate::model::opt_event_view(*o)),
{
    match o {
        Some(e) => {
            let date = opt_str_to_json(&e.date);
            let place = opt_str_to_json(&e.place);
            let r = Json::Obj(vec![("date".to_owned(), date), ("place".to_owned(), place)]);
            proof {
                assert(r@->Obj_0 =~= event_json(e@)->Obj_0);
            }
            r
        },
        None => Json::Null,
    }
}

pub(crate) fn individual_to_json(p: &Individual) -> (r: Json)
    ensures
        r@ == individual_json(p@),
{
    let id = text_of(&p.id);
    let name = opt_str_to_json(&p.name);
    let birth = opt_event_to_json(&p.birth);
    let death = opt_event_to_json(&p.death);
    let r = Json::Obj(
        vec![
            ("id".to_owned(), id),
            ("name".to_owned(), name),
            ("birth".to_owned(), birth),
            ("death".to_owned(), death),
        ],
    );
    proof {
        assert(r@->Obj_0 =~= individual_json(p@)->Obj_0);
    }
    r
}

pub(crate) fn family_to_json(f: &Family) -> (r: Json)
    ensures
        r@ == family_json(f@),
{
    let id = text_of(&f.id);
    let husband = opt_str_to_json(&f.husband);
    let wife = opt_str_to_json(&f.wife);
    let mut children: Vec<Json> = Vec::new();
    for i in 0..f.children.len()
        invariant
            children@.len() == i,
            forall|k: int| 0 <= k < i ==> #[trigger] json_view(children@[k]) == JsonView::Str(
                f.children@[k]@,
            ),
    {
        children.push(text_of(&f.children[i]));
    }
    let ghost items = children@;
    let children = Json::Arr(children);
    proof {
        assert forall|k: int| 0 <= k < items.len() implies #[trigger] children@->Arr_0[k]
            == strs_json(f@.children)[k] by {
            assert(json_view(items[k]) == JsonView::Str(f.children@[k]@));
        }
        assert(children@->Arr_0 =~= strs_json(f@.children));
    }
    let r = Json::Obj(
        vec![
            ("id".to_owned(), id),
            ("husband".to_owned(), husband),
            ("wife".to_owned(), wife),
            ("children".to_owned(), children),
        ],
    );
    proof {
        assert(r@->Obj_0 =~= family_json(f@)->Obj_0);
    }
    r
}

/// The snapshot form of an entity collection.
pub fn encode_snapshot(d: &GedcomData) -> (r: Json)
    ensures
        r@ == data_json(d@),
{
    let mut individuals: Vec<Json> = Vec::new();
    for i in 0..d.individuals.len()
        invariant
            individuals@.len() == i,
            forall|k: int| 0 <= k < i ==> #[trigger] json_view(individuals@[k]) == individual_json(
                d.individuals@[k]@,
            ),
    {
        individuals.push(individual_to_json(&d.individuals[i]));
    }
    let mut families: Vec<Json> = Vec::new();
    for i in 0..d.families.len()
        invariant
            families@.len() == i,
            forall|k: int| 0 <= k < i ==> #[trigger] json_view(families@[k]) == family_json(
                d.families@[k]@,
            ),
    {
        families.push(family_to_json(&d.families[i]));
    }
    let ghost is = individuals@;
    let ghost fs = families@;
    let individuals = Json::Arr(individuals);
    let families = Json::Arr(families);
    proof {
        assert forall|k: int| 0 <= k < is.len() implies #[trigger] individuals@->Arr_0[k]
            == d@.individuals.map_values(|p| individual_json(p))[k] by {
            assert(json_view(is[k]) == individual_json(d.individuals@[k]@));
        }
        assert forall|k: int| 0 <= k < fs.len() implies #[trigger] families@->Arr_0[k]
            == d@.families.map_values(|f| family_json(f))[k] by {
            assert(json_view(fs[k]) == family_json(d.families@[k]@));
        }
        assert(individuals@->Arr_0 =~= d@.individuals.map_values(|p| individual_json(p)));
        assert(families@->Arr_0 =~= d@.families.map_values(|f| family_json(f)));
    }
    let r = Json::Obj(
        vec![("individuals".to_owned(), individuals), ("families".to_owned(), families)],
    );
    proof {
        assert(r@->Obj_0 =~= data_json(d@)->Obj_0);
    }
    r
}

pub open spec fn opt_json_view(o: Option<&Json>) -> Option<JsonView> {
    match o {
        Some(j) => Some(j@),
        None => None,
    }
}

/// The first member of the object `j` named `key`.
pub(crate) fn member_of<'a>(j: &'a Json, key: &str) -> (r: Option<&'a Json>)
    requires
        j@ is Obj,
    ensures
        opt_json_view(r) == member(j@->Obj_0, key@),
{
    match j {
        Json::Obj(members) => {
            let k = key.to_owned();
            let ghost m = j@->Obj_0;
            let mut i: usize = 0;
            assert(m.subrange(0, m.len() as int) =~= m);
            while i < members.len()
                invariant
                    m == j@->Obj_0,
                    i <= members@.len(),
                    m.len() == members@.len(),
                    forall|x: int| 0 <= x < m.len() ==> #[trigger] m[x] == (members@[x].0@, json_view(members@[x].1)),
                    member(m, key@) == member(m.subrange(i as int, m.len() as int), key@),
                    k@ == key@,
                decreases members@.len() - i,
            {
                if members[i].0 == k {
                    assert(m.subrange(i as int, m.len() as int)[0] == m[i as int]);
                    assert(member(m.subrange(i as int, m.len() as int), key@) == Some(m[i as int].1));
                    assert(m[i as int].1 == json_view(members@[i as int].1));

                    return Some(&members[i].1);
                }
                assert(m.subrange(i as int, m.len() as int).drop_first() =~= m.subrange(
                    i + 1,
                    m.len() as int,
                ));
                i = i + 1;
            }
            assert(m.subrange(i as int, m.len() as int) =~= Seq::<(Seq<char>, JsonView)>::empty());
            None
        },
        _ => None,
    }
}

fn decode_str_of(v: Option<&Json>) -> (r: Option<String>)
    ensures
        crate::model::opt_str_view(r) == decode_str(opt_json_view(v)),
{
    match v {
        Some(Json::Str(s)) => Some(s.clone()),
        _ => None,
    }
}

fn decode_opt_str_of(v: Option<&Json>) -> (r: Option<Option<String>>)
    ensures
        match r {
            Some(o) => decode_opt_str(opt_json_view(v)) == Some(crate::model::opt_str_view(o)),
            None => decode_opt_str(opt_json_view(v)) is None,
        },
{
    match v {
        None => Some(None),
        Some(Json::Null) => Some(None),
        Some(Json::Str(s)) => Some(Some(s.clone())),
        _ => None,
    }
}

fn decode_event_of(j: &Json) -> (r: Option<Event>)
    ensures
        match r {
            Some(e) => decode_event(j@) == Some(e@),
            None => decode_event(j@) is None,
        },
{
    match j {
        Json::Obj(_) => {
            let date = decode_opt_str_of(member_of(j, "date"));
            let place = decode_opt_str_of(member_of(j, "place"));
            match (date, place) {
                (Some(date), Some(place)) => Some(Event { date, place }),
                _ => None,
            }
        },
        _ => None,
    }
}

fn decode_opt_event_of(v: Option<&Json>) -> (r: Option<Option<Event>>)
    ensures
        match r {
            Some(o) => decode_opt_event(opt_json_view(v)) == Some(crate::model::opt_event_view(o)),
            None => decode_opt_event(opt_json_view(v)) is None,
        },
{
    match v {
        None => Some(None),
        Some(Json::Null) => Some(None),
        Some(j) => match decode_event_of(j) {
            Some(e) => Some(Some(e)),
            None => None,
        },
    }
}

fn decode_individual_of(j: &Json) -> (r: Option<Individual>)
    ensures
        match r {
            Some(p) => decode_individual(j@) == Some(p@),
            None => decode_individual(j@) is None,
        },
{
    match j {
        Json::Obj(_) => {
            let id = decode_str_of(member_of(j, "id"));
            let name = decode_opt_str_of(member_of(j, "name"));
            let birth = decode_opt_event_of(member_of(j, "birth"));
            let death = decode_opt_event_of(member_of(j, "death"));
            match (id, name, birth, death) {
                (Some(id), Some(name), Some(birth), Some(death)) => Some(
                    Individual { id, name, birth, death },
                ),
                _ => None,
            }
        },
        _ => None,
    }
}

proof fn lemma_strs_prefix_fails(s: Seq<JsonView>, i: int)
    requires
        0 <= i <= s.len(),
        decode_strs(s.subrange(0, i)) is None,
    ensures
        decode_strs(s) is None,
    decreases s.len() - i,
{
    if i < s.len() {
        assert(s.subrange(0, i + 1).drop_last() =~= s.subrange(0, i));
        lemma_strs_prefix_fails(s, i + 1);
    } else {
        assert(s.subrange(0, i) =~= s);
    }
}

proof fn lemma_individuals_prefix_fails(s: Seq<JsonView>, i: int)
    requires
        0 <= i <= s.len(),
        decode_individuals(s.subrange(0, i)) is None,
    ensures
        decode_individuals(s) is None,
    decreases s.len() - i,
{
    if i < s.len() {
        assert(s.subrange(0, i + 1).drop_last() =~= s.subrange(0, i));
        lemma_individuals_prefix_fails(s, i + 1);
    } else {
        assert(s.subrange(0, i) =~= s);
    }
}

proof fn lemma_families_prefix_fails(s: Seq<JsonView>, i: int)
    requires
        0 <= i <= s.len(),
        decode_families(s.subrange(0, i)) is None,
    ensures
        decode_families(s) is None,
    decreases s.len() - i,
{
    if i < s.len() {
        assert(s.subrange(0, i + 1).drop_last() =~= s.subrange(0, i));
        lemma_families_prefix_fails(s, i + 1);
    } else {
        assert(s.subrange(0, i) =~= s);
    }
}

/// The strings of the array `j`.
pub(crate) fn decode_strs_of(j: &Json) -> (r: Option<Vec<String>>)
    requires
        j@ is Arr,
    ensures
        match r {
            Some(c) => decode_strs(j@->Arr_0) == Some(crate::model::strs_view(c@)),
            None => decode_strs(j@->Arr_0) is None,
        },
{
    match j {
        Json::Arr(items) => {
            let ghost s = j@->Arr_0;
            let mut out: Vec<String> = Vec::new();
            assert(s.subrange(0, 0) =~= Seq::<JsonView>::empty());
            assert(crate::model::strs_view(out@) =~= Seq::<Seq<char>>::empty());
            for i in 0..items.len()
                invariant
                    s == j@->Arr_0,
                    s.len() == items@.len(),
                    forall|x: int| 0 <= x < s.len() ==> #[trigger] s[x] == json_view(items@[x]),
                    decode_strs(s.subrange(0, i as int)) == Some(crate::model::strs_view(out@)),
            {
                assert(s.subrange(0, i + 1).drop_last() =~= s.subrange(0, i as int));
                assert(s.subrange(0, i + 1).last() == json_view(items@[i as int]));
                match &items[i] {
                    Json::Str(c) => {
                        let ghost before = out@;
                        out.push(c.clone());
                        assert(crate::model::strs_view(out@) =~= crate::model::strs_view(
                            before,
                        ).push(c@));
                    },
                    _ => {
                        proof {
                            lemma_strs_prefix_fails(s, i + 1);
                        }
                        return None;
                    },
                }
            }
            assert(s.subrange(0, s.len() as int) =~= s);
            assert(decode_strs(s) == Some(crate::model::strs_view(out@)));
            Some(out)
        },
        _ => None,
    }
}

fn decode_family_of(j: &Json) -> (r: Option<Family>)
    ensures
        match r {
            Some(f) => decode_family(j@) == Some(f@),
            None => decode_family(j@) is None,
        },
{
    match j {
        Json::Obj(_) => {
            let id = decode_str_of(member_of(j, "id"));
            let husband = decode_opt_str_of(member_of(j, "husband"));
            let wife = decode_opt_str_of(member_of(j, "wife"));
            let children = match member_of(j, "children") {
                Some(c) => match c {
                    Json::Arr(_) => decode_strs_of(c),
                    _ => None,
                },
                None => None,
            };
            match (id, husband, wife, children) {
                (Some(id), Some(husband), Some(wife), Some(children)) => Some(
                    Family { id, husband, wife, children },
                ),
                _ => None,
            }
        },
        _ => None,
    }
}

fn decode_individuals_of(j: &Json) -> (r: Option<Vec<Individual>>)
    requires
        j@ is Arr,
    ensures
        match r {
            Some(v) => decode_individuals(j@->Arr_0) == Some(crate::model::individuals_view(v@)),
            None => decode_individuals(j@->Arr_0) is None,
        },
{
    match j {
        Json::Arr(items) => {
            let ghost s = j@->Arr_0;
            let mut out: Vec<Individual> = Vec::new();
            assert(s.subrange(0, 0) =~= Seq::<JsonView>::empty());
            assert(crate::model::individuals_view(out@) =~= Seq::<IndividualView>::empty());
            for i in 0..items.len()
                invariant
                    s == j@->Arr_0,
                    s.len() == items@.len(),
                    forall|x: int| 0 <= x < s.len() ==> #[trigger] s[x] == json_view(items@[x]),
                    decode_individuals(s.subrange(0, i as int)) == Some(
                        crate::model::individuals_view(out@),
                    ),
            {
                assert(s.subrange(0, i + 1).drop_last() =~= s.subrange(0, i as int));
                assert(s.subrange(0, i + 1).last() == json_view(items@[i as int]));
                match decode_individual_of(&items[i]) {
                    Some(p) => {
                        let ghost before = out@;
                        out.push(p);
                        assert(crate::model::individuals_view(out@) =~= crate::model::individuals_view(
                            before,
                        ).push(p@));
                    },
                    None => {
                        proof {
                            lemma_individuals_prefix_fails(s, i + 1);
                        }
                        return None;
                    },
                }
            }
            assert(s.subrange(0, s.len() as int) =~= s);
            assert(decode_individuals(s) == Some(crate::model::individuals_view(out@)));
            Some(out)
        },
        _ => None,
    }
}

fn decode_families_of(j: &Json) -> (r: Option<Vec<Family>>)
    requires
        j@ is Arr,
    ensures
        match r {
            Some(v) => decode_families(j@->Arr_0) == Some(crate::model::families_view(v@)),
            None => decode_families(j@->Arr_0) is None,
        },
{
    match j {
        Json::Arr(items) => {
            let ghost s = j@->Arr_0;
            let mut out: Vec<Family> = Vec::new();
            assert(s.subrange(0, 0) =~= Seq::<JsonView>::empty());
            assert(crate::model::families_view(out@) =~= Seq::<FamilyView>::empty());
            for i in 0..items.len()
                invariant
                    s == j@->Arr_0,
                    s.len() == items@.len(),
                    forall|x: int| 0 <= x < s.len() ==> #[trigger] s[x] == json_view(items@[x]),
                    decode_families(s.subrange(0, i as int)) == Some(
                        crate::model::families_view(out@),
                    ),
            {
                assert(s.subrange(0, i + 1).drop_last() =~= s.subrange(0, i as int));
                assert(s.subrange(0, i + 1).last() == json_view(items@[i as int]));
                match decode_family_of(&items[i]) {
                    Some(f) => {
                        let ghost before = out@;
                        out.push(f);
                        assert(crate::model::families_view(out@) =~= crate::model::families_view(
                            before,
                        ).push(f@));
                    },
                    None => {
                        proof {
                            lemma_families_prefix_fails(s, i + 1);
                        }
                        return None;
                    },
                }
            }
            assert(s.subrange(0, s.len() as int) =~= s);
            assert(decode_families(s) == Some(crate::model::families_view(out@)));
            Some(out)
        },
        _ => None,
    }
}

/// The entity collection that the snapshot value `j` holds, or `None` when
/// `j` does not have the snapshot's shape.
pub fn decode_snapshot(j: &Json) -> (r: Option<GedcomData>)
    ensures
        match r {
            Some(d) => decode_data(j@) == Some(d@),
            None => decode_data(j@) is None,
        },
{
    match j {
        Json::Obj(_) => {
            let individuals = match member_of(j, "individuals") {
                Some(a) => match a {
                    Json::Arr(_) => decode_individuals_of(a),
                    _ => None,
                },
                None => None,
            };
            let families = match member_of(j, "families") {
                Some(a) => match a {
                    Json::Arr(_) => decode_families_of(a),
                    _ => None,
                },
                None => None,
            };
            match (individuals, families) {
                (Some(individuals), Some(families)) => Some(GedcomData { individuals, families }),
                _ => None,
            }
        },
        _ => None,
    }
}

} // verus!
