use gedcom_mcp::{
    decode_snapshot, encode_snapshot, parse_gedcom, Event, Family, GedcomData, GedcomStore,
    Individual, Json, ParseError, StoreError,
};

fn person(id: &str, name: Option<&str>) -> Individual {
    Individual { id: id.into(), name: name.map(|n| n.into()), birth: None, death: None }
}

#[test]
fn parses_minimal_individuals_and_family() {
    let input = r#"
        0 @I1@ INDI
        1 NAME John /Doe/
        1 BIRT
        2 DATE 1 JAN 1900
        2 PLAC Springfield
        0 @I2@ INDI
        1 NAME Jane /Doe/
        1 DEAT
        2 DATE 2 FEB 2000
        0 @F1@ FAM
        1 HUSB @I1@
        1 WIFE @I2@
        1 CHIL @I3@
        "#;

    let data = parse_gedcom(input).expect("should parse");

    assert_eq!(
        data.individuals,
        vec![
            Individual {
                id: "I1".into(),
                name: Some("John /Doe/".into()),
                birth: Some(Event {
                    date: Some("1 JAN 1900".into()),
                    place: Some("Springfield".into())
                }),
                death: None
            },
            Individual {
                id: "I2".into(),
                name: Some("Jane /Doe/".into()),
                birth: None,
                death: Some(Event { date: Some("2 FEB 2000".into()), place: None })
            }
        ]
    );
    assert_eq!(
        data.families,
        vec![Family {
            id: "F1".into(),
            husband: Some("I1".into()),
            wife: Some("I2".into()),
            children: vec!["I3".into()]
        }]
    );
}

#[test]
fn errors_on_missing_individual_id() {
    let input = r#"
        0 INDI
        1 NAME Unknown
        "#;

    let err = parse_gedcom(input).expect_err("should fail");
    assert!(matches!(err, ParseError::MissingIndividualId { .. }));
}

#[test]
fn errors_on_orphan_tag() {
    let input = r#"
        1 NAME NoContext
        "#;

    let err = parse_gedcom(input).expect_err("should fail");
    assert!(matches!(err, ParseError::OrphanTag { .. }));
}

#[test]
fn errors_on_invalid_level() {
    let input = r#"
        x @I1@ INDI
        "#;

    let err = parse_gedcom(input).expect_err("should fail");
    assert!(matches!(err, ParseError::InvalidLevel { .. }));
}

#[test]
fn errors_on_date_without_birth_context() {
    let input = r#"
        0 @I1@ INDI
        1 NAME Test /User/
        2 DATE 1 JAN 2000
        "#;

    let err = parse_gedcom(input).expect_err("should fail");
    assert!(matches!(err, ParseError::OrphanTag { .. }));
}

#[test]
fn indexes_individuals_and_families() {
    let data = GedcomData {
        individuals: vec![Individual {
            id: "I1".into(),
            name: Some("Indexed".into()),
            birth: None,
            death: None,
        }],
        families: vec![Family {
            id: "F1".into(),
            husband: Some("I1".into()),
            wife: None,
            children: vec![],
        }],
    };

    let store = GedcomStore::from_data(data);
    let individual = store.get_individual("I1").expect("individual present");
    assert_eq!(individual.name.as_deref(), Some("Indexed"));
    let family = store.get_family("F1").expect("family present");
    assert_eq!(family.husband.as_deref(), Some("I1"));
    assert_eq!(store.individuals().iter().count(), 1);
    assert_eq!(store.families().iter().count(), 1);
}

#[test]
fn inserts_unique_individuals() {
    let mut store = GedcomStore::from_data(GedcomData { individuals: vec![], families: vec![] });

    store
        .insert_individual(Individual {
            id: "I1".into(),
            name: Some("First".into()),
            birth: None,
            death: None,
        })
        .expect("insert succeeds");

    let err = store
        .insert_individual(Individual {
            id: "I1".into(),
            name: Some("Duplicate".into()),
            birth: None,
            death: None,
        })
        .expect_err("should reject duplicate");
    assert!(matches!(err, StoreError::DuplicateIndividual(id) if id == "I1"));
}

#[test]
fn inserts_unique_families() {
    let mut store = GedcomStore::from_data(GedcomData { individuals: vec![], families: vec![] });

    store
        .insert_family(Family { id: "F1".into(), husband: None, wife: None, children: vec![] })
        .expect("insert succeeds");

    let err = store
        .insert_family(Family { id: "F1".into(), husband: None, wife: None, children: vec![] })
        .expect_err("should reject duplicate family");
    assert!(matches!(err, StoreError::DuplicateFamily(id) if id == "F1"));
}

#[test]
fn loads_store_from_snapshot() {
    let store = GedcomStore::from_data(GedcomData {
        individuals: vec![Individual {
            id: "I1".into(),
            name: Some("Saved".into()),
            birth: None,
            death: None,
        }],
        families: vec![Family {
            id: "F1".into(),
            husband: Some("I1".into()),
            wife: None,
            children: vec![],
        }],
    });

    let snapshot = encode_snapshot(&store.to_data());
    let loaded = GedcomStore::from_data(decode_snapshot(&snapshot).expect("load snapshot"));
    let indiv = loaded.get_individual("I1").expect("individual present");
    assert_eq!(indiv.name.as_deref(), Some("Saved"));
    let fam = loaded.get_family("F1").expect("family present");
    assert_eq!(fam.husband.as_deref(), Some("I1"));
}

#[test]
fn parses_the_documented_example() {
    let input = "0 @I1@ INDI\n1 NAME John /Doe/\n1 BIRT\n2 DATE 1 JAN 1900\n2 PLAC Springfield\n0 @F1@ FAM\n1 HUSB @I1@\n1 CHIL @I3@";
    let data = parse_gedcom(input).expect("should parse");
    assert_eq!(
        data.individuals,
        vec![Individual {
            id: "I1".into(),
            name: Some("John /Doe/".into()),
            birth: Some(Event {
                date: Some("1 JAN 1900".into()),
                place: Some("Springfield".into())
            }),
            death: None
        }]
    );
    assert_eq!(
        data.families,
        vec![Family {
            id: "F1".into(),
            husband: Some("I1".into()),
            wife: None,
            children: vec!["I3".into()]
        }]
    );
}

#[test]
fn parsing_twice_gives_the_same_collection() {
    let input = "0 @I1@ INDI\n1 NAME A\n1 DEAT\n2 PLAC X\n0 @F1@ FAM\n1 WIFE @I1@\n";
    assert_eq!(parse_gedcom(input), parse_gedcom(input));
    assert_eq!(parse_gedcom("x"), parse_gedcom("x"));
}

#[test]
fn invalid_level_names_its_line() {
    let err = parse_gedcom("\n0 @I1@ INDI\nx @I2@ INDI\n").expect_err("should fail");
    assert!(matches!(err, ParseError::InvalidLevel { line: 3, .. }));
}

#[test]
fn orphan_tag_names_line_and_tag() {
    let err = parse_gedcom("1 NAME NoContext").expect_err("should fail");
    assert_eq!(err, ParseError::OrphanTag { line: 1, tag: "NAME".into() });
    let err = parse_gedcom("0 @I1@ INDI\n1 HUSB @I2@").expect_err("should fail");
    assert_eq!(err, ParseError::OrphanTag { line: 2, tag: "HUSB".into() });
    let err = parse_gedcom("0 @F1@ FAM\n1 BIRT").expect_err("should fail");
    assert_eq!(err, ParseError::OrphanTag { line: 2, tag: "BIRT".into() });
}

#[test]
fn missing_tag_and_family_id() {
    assert_eq!(parse_gedcom("0").expect_err("no tag"), ParseError::MissingTag { line: 1 });
    assert_eq!(parse_gedcom("0 @I1@").expect_err("no tag"), ParseError::MissingTag { line: 1 });
    assert_eq!(
        parse_gedcom("0 @I1@ INDI\n\n0 FAM").expect_err("no id"),
        ParseError::MissingFamilyId { line: 3 }
    );
}

#[test]
fn level_follows_unsigned_parsing() {
    let data = parse_gedcom("+0 @I1@ INDI").expect("plus sign accepted");
    assert_eq!(data.individuals, vec![person("I1", None)]);
    assert!(matches!(
        parse_gedcom("4294967296 @I1@ INDI").expect_err("too large"),
        ParseError::InvalidLevel { line: 1, .. }
    ));
    assert!(matches!(
        parse_gedcom("-0 @I1@ INDI").expect_err("sign"),
        ParseError::InvalidLevel { line: 1, .. }
    ));
}

#[test]
fn unknown_tags_and_levels_are_ignored() {
    let input = "0 HEAD\n1 SOUR X\n0 @I1@ INDI\n1 SEX M\n3 NOTE deep\n0 @I2@ INDI extra\n0 TRLR";
    let data = parse_gedcom(input).expect("should parse");
    assert_eq!(data.individuals, vec![person("I1", None)]);
    assert!(data.families.is_empty());
}

#[test]
fn blank_and_crlf_lines() {
    let data = parse_gedcom("\r\n  0 @I1@ INDI  \r\n\t1 NAME   Ann  Lee \r\n\n").expect("parse");
    assert_eq!(data.individuals, vec![person("I1", Some("Ann  Lee"))]);
    assert_eq!(parse_gedcom("").expect("empty").individuals, vec![]);
}

#[test]
fn name_closes_the_event_section() {
    let err = parse_gedcom("0 @I1@ INDI\n1 BIRT\n1 NAME N\n2 DATE D").expect_err("should fail");
    assert_eq!(err, ParseError::OrphanTag { line: 4, tag: "DATE".into() });
}

#[test]
fn place_alone_creates_the_event() {
    let data = parse_gedcom("0 @I1@ INDI\n1 DEAT\n2 PLAC Here\n1 BIRT\n2 DATE Then").expect("parse");
    assert_eq!(
        data.individuals[0].death,
        Some(Event { date: None, place: Some("Here".into()) })
    );
    assert_eq!(
        data.individuals[0].birth,
        Some(Event { date: Some("Then".into()), place: None })
    );
}

#[test]
fn references_lose_their_delimiters() {
    let data = parse_gedcom("0 @@F1@@ FAM\n1 CHIL @@I1@\n1 CHIL I2\n1 HUSB @\n").expect("parse");
    assert_eq!(
        data.families,
        vec![Family {
            id: "F1".into(),
            husband: Some("".into()),
            wife: None,
            children: vec!["I1".into(), "I2".into()]
        }]
    );
}

#[test]
fn later_lines_refer_to_the_latest_entity() {
    let data = parse_gedcom("0 @I1@ INDI\n0 @I2@ INDI\n1 NAME Second\n0 @F1@ FAM\n0 @F2@ FAM\n1 CHIL @I1@")
        .expect("parse");
    assert_eq!(data.individuals, vec![person("I1", None), person("I2", Some("Second"))]);
    assert_eq!(data.families[0].children, Vec::<String>::new());
    assert_eq!(data.families[1].children, vec!["I1".to_string()]);
}

#[test]
fn duplicate_insert_keeps_the_first() {
    let mut store = GedcomStore::from_data(GedcomData { individuals: vec![], families: vec![] });
    assert!(store.insert_individual(person("I7", Some("First"))).is_ok());
    assert!(matches!(
        store.insert_individual(person("I7", Some("Second"))),
        Err(StoreError::DuplicateIndividual(id)) if id == "I7"
    ));
    assert_eq!(store.individuals(), &[person("I7", Some("First"))][..]);
    assert_eq!(store.get_individual("I7"), Some(&person("I7", Some("First"))));
}

#[test]
fn loading_keeps_last_entry_at_first_position() {
    let store = GedcomStore::from_data(GedcomData {
        individuals: vec![person("A", Some("1")), person("B", None), person("A", Some("2"))],
        families: vec![],
    });
    assert_eq!(store.individuals(), &[person("A", Some("2")), person("B", None)][..]);
    assert_eq!(store.get_individual("A").and_then(|p| p.name.clone()), Some("2".to_string()));
    assert!(store.get_individual("C").is_none());
    assert!(store.get_family("A").is_none());
}

#[test]
fn export_lists_in_insertion_order() {
    let mut store = GedcomStore::from_data(GedcomData {
        individuals: vec![person("B", None)],
        families: vec![],
    });
    store.insert_individual(person("A", None)).expect("insert");
    store
        .insert_family(Family { id: "F".into(), husband: None, wife: None, children: vec![] })
        .expect("insert");
    let data = store.to_data();
    assert_eq!(data.individuals, vec![person("B", None), person("A", None)]);
    assert_eq!(data.families.len(), 1);
    assert_eq!(store.to_data(), data);
}

#[test]
fn snapshot_round_trips() {
    let data = GedcomData {
        individuals: vec![
            Individual {
                id: "I1".into(),
                name: Some("N".into()),
                birth: Some(Event { date: None, place: Some("P".into()) }),
                death: Some(Event { date: Some("D".into()), place: None }),
            },
            person("I2", None),
        ],
        families: vec![Family {
            id: "F1".into(),
            husband: None,
            wife: Some("I2".into()),
            children: vec!["I1".into(), "I9".into()],
        }],
    };
    assert_eq!(decode_snapshot(&encode_snapshot(&data)), Some(data));
}

fn obj(members: Vec<(&str, Json)>) -> Json {
    Json::Obj(members.into_iter().map(|(k, v)| (k.to_string(), v)).collect())
}

fn text(s: &str) -> Json {
    Json::Str(s.to_string())
}

#[test]
fn snapshot_writes_every_field() {
    let data = GedcomData { individuals: vec![person("I1", None)], families: vec![] };
    match encode_snapshot(&data) {
        Json::Obj(members) => {
            assert_eq!(members.len(), 2);
            assert_eq!(members[0].0, "individuals");
            assert_eq!(members[1].0, "families");
            match &members[0].1 {
                Json::Arr(items) => match &items[0] {
                    Json::Obj(fields) => {
                        let keys: Vec<&str> = fields.iter().map(|(k, _)| k.as_str()).collect();
                        assert_eq!(keys, vec!["id", "name", "birth", "death"]);
                        assert!(matches!(&fields[0].1, Json::Str(s) if s == "I1"));
                        assert!(matches!(fields[1].1, Json::Null));
                    }
                    other => panic!("expected object, got {other:?}"),
                },
                other => panic!("expected array, got {other:?}"),
            }
        }
        other => panic!("expected object, got {other:?}"),
    }
}

#[test]
fn snapshot_reading_is_lenient_on_order_and_absence() {
    let j = obj(vec![
        ("families", Json::Arr(vec![obj(vec![
            ("children", Json::Arr(vec![text("I1")])),
            ("id", text("F1")),
        ])])),
        ("extra", Json::Bool(true)),
        ("individuals", Json::Arr(vec![obj(vec![("id", text("I1")), ("birth", Json::Null)])])),
    ]);
    let data = decode_snapshot(&j).expect("decodes");
    assert_eq!(data.individuals, vec![person("I1", None)]);
    assert_eq!(
        data.families,
        vec![Family { id: "F1".into(), husband: None, wife: None, children: vec!["I1".into()] }]
    );
}

#[test]
fn snapshot_reading_rejects_bad_shapes() {
    assert!(decode_snapshot(&Json::Null).is_none());
    assert!(decode_snapshot(&obj(vec![("individuals", Json::Arr(vec![]))])).is_none());
    let no_children = obj(vec![
        ("individuals", Json::Arr(vec![])),
        ("families", Json::Arr(vec![obj(vec![("id", text("F1"))])])),
    ]);
    assert!(decode_snapshot(&no_children).is_none());
    let numeric_id = obj(vec![
        ("individuals", Json::Arr(vec![obj(vec![("id", Json::Num("1".into()))])])),
        ("families", Json::Arr(vec![])),
    ]);
    assert!(decode_snapshot(&numeric_id).is_none());
}
