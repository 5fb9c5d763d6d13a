//! The decisions behind each request: which method runs, which parameters
//! it needs, what it does to the store and what it replies. Locking the
//! store, persisting it and the wire format are left to the caller.

use vstd::prelude::*;
use crate::model::{Event, EventView, Family, FamilyView, Individual, IndividualView};
use crate::snapshot::{
    Json, JsonView, decode_strs, decode_strs_of, family_json, individual_json, member, member_of,
    text,
};
use crate::store::{
    GedcomStore, StoreError, StoreView, family_at, individual_at, insert_family_outcome,
    insert_individual_outcome,
};
use crate::text::{chars_of, word_is};

verus! {

/// The request could not be parsed.
pub const PARSE_ERROR: i32 = -32700;

/// No such method.
pub const METHOD_NOT_FOUND: i32 = -32601;

/// A required parameter is missing or has the wrong type.
pub const INVALID_PARAMS: i32 = -32602;

/// The server cannot serve the request (no store, or the store failed).
pub const SERVER_ERROR: i32 = -32000;

/// The requested entity does not exist.
pub const NOT_FOUND: i32 = -32004;

/// The identifier is already taken.
pub const CONFLICT: i32 = -32001;

/// What a request is answered with.
#[derive(Debug)]
pub enum Reply {
    Result(Json),
    Error { code: i32, message: String },
}

pub enum ReplyView {
    Result(JsonView),
    Error { code: i32, message: Seq<char> },
}

impl View for Reply {
    type V = ReplyView;

    open spec fn view(&self) -> ReplyView {
        match self {
            Reply::Result(j) => ReplyView::Result(j@),
            Reply::Error { code, message } => ReplyView::Error { code: *code, message: message@ },
        }
    }
}

/// The string member `key` of the parameter object, if there is one.
pub open spec fn str_param(params: JsonView, key: Seq<char>) -> Option<Seq<char>> {
    match params {
        JsonView::Obj(m) => match member(m, key) {
            Some(JsonView::Str(s)) => Some(s),
            _ => None,
        },
        _ => None,
    }
}

/// The event given as member `key`: an object with a string `date` or a
/// string `place`; anything else gives no event.
pub open spec fn event_param(params: JsonView, key: Seq<char>) -> Option<EventView> {
    match params {
        JsonView::Obj(m) => match member(m, key) {
            Some(e) => {
                let date = str_param(e, "date"@);
                let place = str_param(e, "place"@);
                if e is Obj && (date is Some || place is Some) {
                    Some(EventView { date, place })
                } else {
                    None
                }
            },
            None => None,
        },
        _ => None,
    }
}

/// The children given: none when absent, else an array of strings;
/// `None` when the member is there but not such an array.
pub open spec fn children_param(params: JsonView) -> Option<Seq<Seq<char>>> {
    match params {
        JsonView::Obj(m) => match member(m, "children"@) {
            None => Some(Seq::empty()),
            Some(JsonView::Arr(items)) => decode_strs(items),
            Some(_) => None,
        },
        _ => Some(Seq::empty()),
    }
}

pub open spec fn status_ok() -> JsonView {
    JsonView::Obj(seq![("status"@, JsonView::Str("ok"@))])
}

pub open spec fn missing_id() -> ReplyView {
    ReplyView::Error { code: INVALID_PARAMS, message: "missing required param: id"@ }
}

pub open spec fn unknown_method(method: Seq<char>) -> ReplyView {
    ReplyView::Error { code: METHOD_NOT_FOUND, message: "method not found: "@ + method }
}

/// The reply when no store can be used, `reason` saying why.
pub open spec fn reply_without_store_spec(method: Seq<char>, params: JsonView, reason: Seq<char>) -> ReplyView {
    if method == "ping"@ {
        ReplyView::Result(status_ok())
    } else if method == "get_individual"@ || method == "get_family"@ {
        if str_param(params, "id"@) is None {
            missing_id()
        } else {
            ReplyView::Error { code: SERVER_ERROR, message: reason }
        }
    } else if method == "list_individuals"@ || method == "list_families"@ || method
        == "create_individual"@ || method == "create_family"@ {
        ReplyView::Error { code: SERVER_ERROR, message: reason }
    } else {
        unknown_method(method)
    }
}

/// What a request does with a store.
pub struct Outcome {
    pub reply: ReplyView,
    pub store: StoreView,
    /// The store changed and its snapshot is due.
    pub changed: bool,
}

pub open spec fn unchanged(reply: ReplyView, s: StoreView) -> Outcome {
    Outcome { reply, store: s, changed: false }
}

/// The person described by the parameters, given its identifier.
pub open spec fn individual_param(params: JsonView, id: Seq<char>) -> IndividualView {
    IndividualView {
        id,
        name: str_param(params, "name"@),
        birth: event_param(params, "birth"@),
        death: event_param(params, "death"@),
    }
}

pub open spec fn create_individual_spec(s: StoreView, params: JsonView) -> Outcome {
    match str_param(params, "id"@) {
        None => unchanged(missing_id(), s),
        Some(id) => {
            let p = individual_param(params, id);
            match insert_individual_outcome(s.individuals, p) {
                Some(individuals) => Outcome {
                    reply: ReplyView::Result(individual_json(p)),
                    store: StoreView { individuals, families: s.families },
                    changed: true,
                },
                None => unchanged(
                    ReplyView::Error {
                        code: CONFLICT,
                        message: "individual "@ + id + " already exists"@,
                    },
                    s,
                ),
            }
        },
    }
}

pub open spec fn create_family_spec(s: StoreView, params: JsonView) -> Outcome {
    match str_param(params, "id"@) {
        None => unchanged(missing_id(), s),
        Some(id) => match children_param(params) {
            None => unchanged(
                ReplyView::Error {
                    code: INVALID_PARAMS,
                    message: "children must be an array of strings"@,
                },
                s,
            ),
            Some(children) => {
                let f = FamilyView {
                    id,
                    husband: str_param(params, "husband"@),
                    wife: str_param(params, "wife"@),
                    children,
                };
                match insert_family_outcome(s.families, f) {
                    Some(families) => Outcome {
                        reply: ReplyView::Result(family_json(f)),
                        store: StoreView { individuals: s.individuals, families },
                        changed: true,
                    },
                    None => unchanged(
                        ReplyView::Error {
                            code: CONFLICT,
                            message: "family "@ + id + " already exists"@,
                        },
                        s,
                    ),
                }
            },
        },
    }
}

/// What a request does with the store `s`.
pub open spec fn reply_with_store_spec(s: StoreView, method: Seq<char>, params: JsonView) -> Outcome {
    if method == "ping"@ {
        unchanged(ReplyView::Result(status_ok()), s)
    } else if method == "get_individual"@ {
        match str_param(params, "id"@) {
            None => unchanged(missing_id(), s),
            Some(id) => match individual_at(s.individuals, id) {
                Some(p) => unchanged(ReplyView::Result(individual_json(p)), s),
                None => unchanged(
                    ReplyView::Error {
                        code: NOT_FOUND,
                        message: "individual "@ + id + " not found"@,
                    },
                    s,
                ),
            },
        }
    } else if method == "get_family"@ {
        match str_param(params, "id"@) {
            None => unchanged(missing_id(), s),
            Some(id) => match family_at(s.families, id) {
                Some(f) => unchanged(ReplyView::Result(family_json(f)), s),
                None => unchanged(
                    ReplyView::Error { code: NOT_FOUND, message: "family "@ + id + " not found"@ },
                    s,
                ),
            },
        }
    } else if method == "list_individuals"@ {
        unchanged(
            ReplyView::Result(JsonView::Arr(s.individuals.map_values(|p| individual_json(p)))),
            s,
        )
    } else if method == "list_families"@ {
        unchanged(ReplyView::Result(JsonView::Arr(s.families.map_values(|f| family_json(f)))), s)
    } else if method == "create_individual"@ {
        create_individual_spec(s, params)
    } else if method == "create_family"@ {
        create_family_spec(s, params)
    } else {
        unchanged(unknown_method(method), s)
    }
}

fn method_is(m: &Vec<char>, name: &str) -> (r: bool)
    ensures
        r == (m@ == name@),
{
    let r = word_is(m, 0, m.len(), name);
    assert(m@.subrange(0, m@.len() as int) =~= m@);
    r
}

fn error(code: i32, message: &str) -> (r: Reply)
    ensures
        r@ == (ReplyView::Error { code, message: message@ }),
{
    Reply::Error { code, message: message.to_owned() }
}

/// `prefix`, then `s`, then `suffix`.
fn framed(prefix: &str, s: &str, suffix: &str) -> (r: String)
    ensures
        r@ == prefix@ + s@ + suffix@,
{
    let mut r = prefix.to_owned();
    r.append(s);
    r.append(suffix);
    r
}

fn status_ok_json() -> (r: Json)
    ensures
        r@ == status_ok(),
{
    let r = Json::Obj(vec![("status".to_owned(), text("ok"))]);
    assert(r@->Obj_0 =~= status_ok()->Obj_0);
    r
}

fn str_param_of<'a>(params: &'a Json, key: &str) -> (r: Option<&'a String>)
    ensures
        match r {
            Some(s) => str_param(params@, key@) == Some(s@),
            None => str_param(params@, key@) is None,
        },
{
    match params {
        Json::Obj(_) => match member_of(params, key) {
            Some(Json::Str(s)) => Some(s),
            _ => None,
        },
        _ => None,
    }
}

fn opt_string(o: Option<&String>) -> (r: Option<String>)
    ensures
        crate::model::opt_str_view(r) == match o {
            Some(s) => Some(s@),
            None => None::<Seq<char>>,
        },
{
    match o {
        Some(s) => Some(s.clone()),
        None => None,
    }
}

fn event_param_of(params: &Json, key: &str) -> (r: Option<Event>)
    ensures
        crate::model::opt_event_view(r) == event_param(params@, key@),
{
    match params {
        Json::Obj(_) => match member_of(params, key) {
            Some(e) => {
                let date = opt_string(str_param_of(e, "date"));
                let place = opt_string(str_param_of(e, "place"));
                let is_obj = match e {
                    Json::Obj(_) => true,
                    _ => false,
                };
                if is_obj && (date.is_some() || place.is_some()) {
                    Some(Event { date, place })
                } else {
                    None
                }
            },
            None => None,
        },
        _ => None,
    }
}

/// The reply when no store can be used, `reason` saying why.
pub fn reply_without_store(method: &str, params: &Json, reason: &str) -> (r: Reply)
    ensures
        r@ == reply_without_store_spec(method@, params@, reason@),
{
    let m = chars_of(method);
    if method_is(&m, "ping") {
        Reply::Result(status_ok_json())
    } else if method_is(&m, "get_individual") || method_is(&m, "get_family") {
        if str_param_of(params, "id").is_none() {
            error(INVALID_PARAMS, "missing required param: id")
        } else {
            error(SERVER_ERROR, reason)
        }
    } else if method_is(&m, "list_individuals") || method_is(&m, "list_families") || method_is(
        &m,
        "create_individual",
    ) || method_is(&m, "create_family") {
        error(SERVER_ERROR, reason)
    } else {
        let mut message = "method not found: ".to_owned();
        message.append(method);
        Reply::Error { code: METHOD_NOT_FOUND, message }
    }
}

fn individuals_json(s: &[Individual]) -> (r: Json)
    ensures
        r@ == JsonView::Arr(crate::model::individuals_view(s@).map_values(|p| individual_json(p))),
{
    let mut items: Vec<Json> = Vec::new();
    for i in 0..s.len()
        invariant
            items@.len() == i,
            forall|k: int| 0 <= k < i ==> #[trigger] items@[k]@ == individual_json(s@[k]@),
    {
        items.push(crate::snapshot::individual_to_json(&s[i]));
    }
    let ghost v = items@;
    let r = Json::Arr(items);
    proof {
        let want = crate::model::individuals_view(s@).map_values(|p| individual_json(p));
        assert forall|k: int| 0 <= k < v.len() implies #[trigger] r@->Arr_0[k] == want[k] by {
            assert(v[k]@ == individual_json(s@[k]@));
        }
        assert(r@->Arr_0 =~= want);
    }
    r
}

fn families_json(s: &[Family]) -> (r: Json)
    ensures
        r@ == JsonView::Arr(crate::model::families_view(s@).map_values(|f| family_json(f))),
{
    let mut items: Vec<Json> = Vec::new();
    for i in 0..s.len()
        invariant
            items@.len() == i,
            forall|k: int| 0 <= k < i ==> #[trigger] items@[k]@ == family_json(s@[k]@),
    {
        items.push(crate::snapshot::family_to_json(&s[i]));
    }
    let ghost v = items@;
    let r = Json::Arr(items);
    proof {
        let want = crate::model::families_view(s@).map_values(|f| family_json(f));
        assert forall|k: int| 0 <= k < v.len() implies #[trigger] r@->Arr_0[k] == want[k] by {
            assert(v[k]@ == family_json(s@[k]@));
        }
        assert(r@->Arr_0 =~= want);
    }
    r
}

fn create_individual(store: &mut GedcomStore, params: &Json) -> (r: (Reply, bool))
    ensures
        (Outcome { reply: r.0@, store: final(store)@, changed: r.1 }) == create_individual_spec(
            old(store)@,
            params@,
        ),
{
    let id = match str_param_of(params, "id") {
        Some(id) => id,
        None => {
            return (error(INVALID_PARAMS, "missing required param: id"), false);
        },
    };
    let p = Individual {
        id: id.clone(),
        name: opt_string(str_param_of(params, "name")),
        birth: event_param_of(params, "birth"),
        death: event_param_of(params, "death"),
    };
    let result = crate::snapshot::individual_to_json(&p);
    match store.insert_individual(p) {
        Ok(_) => (Reply::Result(result), true),
        Err(StoreError::DuplicateIndividual(existing)) => (
            Reply::Error {
                code: CONFLICT,
                message: framed("individual ", existing.as_str(), " already exists"),
            },
            false,
        ),
        Err(_) => (error(SERVER_ERROR, "failed to insert individual"), false),
    }
}

fn create_family(store: &mut GedcomStore, params: &Json) -> (r: (Reply, bool))
    ensures
        (Outcome { reply: r.0@, store: final(store)@, changed: r.1 }) == create_family_spec(
            old(store)@,
            params@,
        ),
{
    let id = match str_param_of(params, "id") {
        Some(id) => id,
        None => {
            return (error(INVALID_PARAMS, "missing required param: id"), false);
        },
    };
    let husband = opt_string(str_param_of(params, "husband"));
    let wife = opt_string(str_param_of(params, "wife"));
    let children = match params {
        Json::Obj(_) => match member_of(params, "children") {
            None => Some(Vec::new()),
            Some(c) => match c {
                Json::Arr(_) => decode_strs_of(c),
                _ => None,
            },
        },
        _ => Some(Vec::new()),
    };
    let children = match children {
        Some(c) => c,
        None => {
            return (error(INVALID_PARAMS, "children must be an array of strings"), false);
        },
    };
    proof {
        if children@.len() == 0 {
            assert(crate::model::strs_view(children@) =~= Seq::<Seq<char>>::empty());
        }
    }
    let f = Family { id: id.clone(), husband, wife, children };
    let result = crate::snapshot::family_to_json(&f);
    match store.insert_family(f) {
        Ok(_) => (Reply::Result(result), true),
        Err(StoreError::DuplicateFamily(existing)) => (
            Reply::Error {
                code: CONFLICT,
                message: framed("family ", existing.as_str(), " already exists"),
            },
            false,
        ),
        Err(_) => (error(SERVER_ERROR, "failed to insert family"), false),
    }
}

/// Serves one request with the store: the reply, and whether the store
/// changed (so that its snapshot is due).
pub fn reply_with_store(store: &mut GedcomStore, method: &str, params: &Json) -> (r: (Reply, bool))
    ensures
        (Outcome { reply: r.0@, store: final(store)@, changed: r.1 }) == reply_with_store_spec(
            old(store)@,
            method@,
            params@,
        ),
{
    let m = chars_of(method);
    if method_is(&m, "ping") {
        (Reply::Result(status_ok_json()), false)
    } else if method_is(&m, "get_individual") {
        match str_param_of(params, "id") {
            None => (error(INVALID_PARAMS, "missing required param: id"), false),
            Some(id) => match store.get_individual(id.as_str()) {
                Some(p) => (Reply::Result(crate::snapshot::individual_to_json(p)), false),
                None => (
                    Reply::Error {
                        code: NOT_FOUND,
                        message: framed("individual ", id.as_str(), " not found"),
                    },
                    false,
                ),
            },
        }
    } else if method_is(&m, "get_family") {
        match str_param_of(params, "id") {
            None => (error(INVALID_PARAMS, "missing required param: id"), false),
            Some(id) => match store.get_family(id.as_str()) {
                Some(f) => (Reply::Result(crate::snapshot::family_to_json(f)), false),
                None => (
                    Reply::Error {
                        code: NOT_FOUND,
                        message: framed("family ", id.as_str(), " not found"),
                    },
                    false,
                ),
            },
        }
    } else if method_is(&m, "list_individuals") {
        (Reply::Result(individuals_json(store.individuals())), false)
    } else if method_is(&m, "list_families") {
        (Reply::Result(families_json(store.families())), false)
    } else if method_is(&m, "create_individual") {
        create_individual(store, params)
    } else if method_is(&m, "create_family") {
        create_family(store, params)
    } else {
        let mut message = "method not found: ".to_owned();
        message.append(method);
        (Reply::Error { code: METHOD_NOT_FOUND, message }, false)
    }
}

} // verus!
