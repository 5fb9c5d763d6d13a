use gedcom_mcp::handlers::{
    CONFLICT, INVALID_PARAMS, METHOD_NOT_FOUND, NOT_FOUND, SERVER_ERROR,
};
use gedcom_mcp::{
    reply_with_store, reply_without_store, Event, Family, GedcomData, GedcomStore, Individual,
    Json, Reply,
};

const NO_STORE: &str = "server not initialized with GEDCOM data";

fn obj(members: Vec<(&str, Json)>) -> Json {
    Json::Obj(members.into_iter().map(|(k, v)| (k.to_string(), v)).collect())
}

fn text(s: &str) -> Json {
    Json::Str(s.to_string())
}

fn same(a: &Json, b: &Json) -> bool {
    match (a, b) {
        (Json::Null, Json::Null) => true,
        (Json::Bool(x), Json::Bool(y)) => x == y,
        (Json::Num(x), Json::Num(y)) => x == y,
        (Json::Str(x), Json::Str(y)) => x == y,
        (Json::Arr(x), Json::Arr(y)) => {
            x.len() == y.len() && x.iter().zip(y.iter()).all(|(p, q)| same(p, q))
        }
        (Json::Obj(x), Json::Obj(y)) => {
            x.len() == y.len()
                && x.iter().zip(y.iter()).all(|(p, q)| p.0 == q.0 && same(&p.1, &q.1))
        }
        _ => false,
    }
}

fn get<'a>(j: &'a Json, key: &str) -> &'a Json {
    match j {
        Json::Obj(members) => {
            &members.iter().find(|(k, _)| k == key).expect("member present").1
        }
        other => panic!("expected object, got {other:?}"),
    }
}

fn build_store() -> GedcomStore {
    let data = GedcomData {
        individuals: vec![Individual {
            id: "I1".into(),
            name: Some("Indexed".into()),
            birth: Some(Event { date: Some("1 JAN 1900".into()), place: None }),
            death: None,
        }],
        families: vec![],
    };
    GedcomStore::from_data(data)
}

fn build_family_store() -> GedcomStore {
    let data = GedcomData {
        individuals: vec![],
        families: vec![Family {
            id: "F1".into(),
            husband: Some("I1".into()),
            wife: Some("I2".into()),
            children: vec!["I3".into()],
        }],
    };
    GedcomStore::from_data(data)
}

fn empty_store() -> GedcomStore {
    GedcomStore::from_data(GedcomData { individuals: vec![], families: vec![] })
}

fn code_of(reply: &Reply) -> i32 {
    match reply {
        Reply::Error { code, .. } => *code,
        other => panic!("expected error, got {other:?}"),
    }
}

fn result_of(reply: Reply) -> Json {
    match reply {
        Reply::Result(j) => j,
        other => panic!("expected response, got {other:?}"),
    }
}

#[test]
fn handles_ping_request() {
    let reply = reply_without_store("ping", &Json::Null, NO_STORE);
    assert!(same(&result_of(reply), &obj(vec![("status", text("ok"))])));
    let (reply, changed) = reply_with_store(&mut empty_store(), "ping", &Json::Null);
    assert!(!changed);
    assert!(same(&result_of(reply), &obj(vec![("status", text("ok"))])));
}

#[test]
fn returns_error_for_unknown_method() {
    match reply_without_store("unknown", &Json::Null, NO_STORE) {
        Reply::Error { code, message } => {
            assert_eq!(code, -32601);
            assert!(message.contains("method not found"));
            assert_eq!(message, "method not found: unknown");
        }
        other => panic!("expected error response, got {other:?}"),
    }
    let (reply, _) = reply_with_store(&mut empty_store(), "unknown", &Json::Null);
    assert_eq!(code_of(&reply), METHOD_NOT_FOUND);
}

#[test]
fn returns_individual_details() {
    let (reply, changed) =
        reply_with_store(&mut build_store(), "get_individual", &obj(vec![("id", text("I1"))]));
    assert!(!changed);
    let expected = obj(vec![
        ("id", text("I1")),
        ("name", text("Indexed")),
        ("birth", obj(vec![("date", text("1 JAN 1900")), ("place", Json::Null)])),
        ("death", Json::Null),
    ]);
    assert!(same(&result_of(reply), &expected));
}

#[test]
fn errors_when_id_missing() {
    let (reply, _) = reply_with_store(&mut build_store(), "get_individual", &obj(vec![]));
    assert_eq!(code_of(&reply), -32602);
}

#[test]
fn errors_when_individual_not_found() {
    let (reply, _) =
        reply_with_store(&mut build_store(), "get_individual", &obj(vec![("id", text("missing"))]));
    assert_eq!(code_of(&reply), -32004);
    match reply {
        Reply::Error { message, .. } => assert_eq!(message, "individual missing not found"),
        other => panic!("expected error, got {other:?}"),
    }
}

#[test]
fn errors_when_store_missing() {
    let reply = reply_without_store("get_individual", &obj(vec![("id", text("I1"))]), NO_STORE);
    assert_eq!(code_of(&reply), -32000);
}

#[test]
fn lists_individuals() {
    let (reply, _) = reply_with_store(&mut build_store(), "list_individuals", &Json::Null);
    match result_of(reply) {
        Json::Arr(items) => {
            assert_eq!(items.len(), 1);
            assert!(same(get(&items[0], "id"), &text("I1")));
        }
        other => panic!("expected response, got {other:?}"),
    }
}

#[test]
fn lists_families() {
    let (reply, _) = reply_with_store(&mut build_family_store(), "list_families", &Json::Null);
    match result_of(reply) {
        Json::Arr(items) => {
            assert_eq!(items.len(), 1);
            assert!(same(get(&items[0], "id"), &text("F1")));
        }
        other => panic!("expected response, got {other:?}"),
    }
}

#[test]
fn returns_family_details() {
    let (reply, _) =
        reply_with_store(&mut build_family_store(), "get_family", &obj(vec![("id", text("F1"))]));
    let expected = obj(vec![
        ("id", text("F1")),
        ("husband", text("I1")),
        ("wife", text("I2")),
        ("children", Json::Arr(vec![text("I3")])),
    ]);
    assert!(same(&result_of(reply), &expected));
}

#[test]
fn errors_when_family_missing() {
    let (reply, _) =
        reply_with_store(&mut build_family_store(), "get_family", &obj(vec![("id", text("missing"))]));
    assert_eq!(code_of(&reply), -32004);
}

#[test]
fn errors_when_family_param_missing() {
    let (reply, _) = reply_with_store(&mut build_family_store(), "get_family", &obj(vec![]));
    assert_eq!(code_of(&reply), -32602);
}

#[test]
fn errors_when_store_missing_for_family() {
    let reply = reply_without_store("get_family", &obj(vec![("id", text("F1"))]), NO_STORE);
    assert_eq!(code_of(&reply), -32000);
}

#[test]
fn creates_individual() {
    let mut store = empty_store();
    let params = obj(vec![
        ("id", text("I99")),
        ("name", text("New Person")),
        ("birth", obj(vec![("date", text("1 JAN 1990")), ("place", text("Town"))])),
    ]);
    let (reply, changed) = reply_with_store(&mut store, "create_individual", &params);
    assert!(changed);
    let result = result_of(reply);
    assert!(same(get(&result, "id"), &text("I99")));
    assert!(same(get(get(&result, "birth"), "date"), &text("1 JAN 1990")));
    assert!(same(get(get(&result, "birth"), "place"), &text("Town")));
    let stored = store.get_individual("I99").expect("stored");
    assert_eq!(stored.name.as_deref(), Some("New Person"));
    assert_eq!(stored.death, None);
}

#[test]
fn create_individual_conflict() {
    let mut base = empty_store();
    base.insert_individual(Individual { id: "I1".into(), name: None, birth: None, death: None })
        .unwrap();
    let params = obj(vec![("id", text("I1")), ("name", text("Dup"))]);
    let (reply, changed) = reply_with_store(&mut base, "create_individual", &params);
    assert!(!changed);
    assert_eq!(code_of(&reply), -32001);
    assert_eq!(base.get_individual("I1").and_then(|p| p.name.clone()), None);
}

#[test]
fn creates_family() {
    let mut store = empty_store();
    let params = obj(vec![
        ("id", text("F9")),
        ("husband", text("I1")),
        ("wife", text("I2")),
        ("children", Json::Arr(vec![text("I3"), text("I4")])),
    ]);
    let (reply, changed) = reply_with_store(&mut store, "create_family", &params);
    assert!(changed);
    let result = result_of(reply);
    assert!(same(get(&result, "id"), &text("F9")));
    assert!(same(get(&result, "children"), &Json::Arr(vec![text("I3"), text("I4")])));
}

#[test]
fn create_family_conflict() {
    let mut base = empty_store();
    base.insert_family(Family { id: "F1".into(), husband: None, wife: None, children: vec![] })
        .unwrap();
    let (reply, changed) =
        reply_with_store(&mut base, "create_family", &obj(vec![("id", text("F1"))]));
    assert!(!changed);
    assert_eq!(code_of(&reply), -32001);
}

#[test]
fn create_family_validates_children() {
    let params = obj(vec![
        ("id", text("F2")),
        ("children", Json::Arr(vec![text("I1"), Json::Num("2".into())])),
    ]);
    let mut store = empty_store();
    let (reply, changed) = reply_with_store(&mut store, "create_family", &params);
    assert!(!changed);
    assert_eq!(code_of(&reply), -32602);
    assert!(store.get_family("F2").is_none());
}

#[test]
fn create_handlers_require_store() {
    let reply = reply_without_store("create_individual", &obj(vec![("id", text("I1"))]), NO_STORE);
    assert_eq!(code_of(&reply), -32000);
    let reply = reply_without_store("create_family", &obj(vec![("id", text("F1"))]), NO_STORE);
    assert_eq!(code_of(&reply), -32000);
}

#[test]
fn reply_without_store_checks_params_first() {
    assert_eq!(code_of(&reply_without_store("get_family", &Json::Null, NO_STORE)), INVALID_PARAMS);
    match reply_without_store("list_individuals", &Json::Null, "store lock poisoned") {
        Reply::Error { code, message } => {
            assert_eq!(code, SERVER_ERROR);
            assert_eq!(message, "store lock poisoned");
        }
        other => panic!("expected error, got {other:?}"),
    }
}

#[test]
fn create_individual_reads_optional_fields() {
    let mut store = empty_store();
    let params = obj(vec![
        ("id", text("I5")),
        ("name", Json::Num("3".into())),
        ("birth", obj(vec![("note", text("x"))])),
        ("death", obj(vec![("place", text("Sea"))])),
    ]);
    let (reply, changed) = reply_with_store(&mut store, "create_individual", &params);
    assert!(changed);
    let expected = obj(vec![
        ("id", text("I5")),
        ("name", Json::Null),
        ("birth", Json::Null),
        ("death", obj(vec![("date", Json::Null), ("place", text("Sea"))])),
    ]);
    assert!(same(&result_of(reply), &expected));
}

#[test]
fn create_messages_name_the_identifier() {
    let mut store = empty_store();
    let params = obj(vec![("id", text("F3"))]);
    let (_, changed) = reply_with_store(&mut store, "create_family", &params);
    assert!(changed);
    match reply_with_store(&mut store, "create_family", &params).0 {
        Reply::Error { code, message } => {
            assert_eq!(code, CONFLICT);
            assert_eq!(message, "family F3 already exists");
        }
        other => panic!("expected error, got {other:?}"),
    }
    let (reply, _) = reply_with_store(&mut store, "get_family", &obj(vec![("id", text("F4"))]));
    assert_eq!(code_of(&reply), NOT_FOUND);
}
