use tessera::schema::{register_ids, verdict, SchemaError, Violation};

fn violation(path: &str, message: &str) -> Violation {
    Violation { instance_path: path.to_string(), schema_path: "/type".to_string(), message: message.to_string() }
}

#[test]
fn an_instance_without_violations_passes() {
    assert_eq!(verdict("tessera:output/router.v1", Vec::new()), Ok(()));
}

#[test]
fn violations_are_attached_to_the_refusal() {
    let v = vec![violation("/depth", "\"deeper\" is not one of the three")];
    match verdict("tessera:output/router.v1", v.clone()) {
        Err(SchemaError::Invalid { id, violations }) => {
            assert_eq!(id, "tessera:output/router.v1");
            assert_eq!(violations, v);
        }
        other => panic!("{other:?}"),
    }
}

#[test]
fn a_refusal_lists_each_violation_by_path() {
    let e = SchemaError::Invalid {
        id: "x".to_string(),
        violations: vec![violation("", "root wrong"), violation("/a/0", "bad item")],
    };
    assert_eq!(e.message(), "`x` rejected the instance: /: root wrong; /a/0: bad item");
    assert_eq!(SchemaError::Unknown("y".to_string()).message(), "no schema registered under `y`");
}

#[test]
fn every_schema_must_carry_an_id() {
    let docs = vec![
        ("a.json".to_string(), Some("tessera:a.v1".to_string())),
        ("b.json".to_string(), None),
    ];
    match register_ids(&docs) {
        Err(SchemaError::Compile { id, message }) => {
            assert_eq!(id, "b.json");
            assert_eq!(message, "every schema must carry an $id");
        }
        other => panic!("{other:?}"),
    }
}

#[test]
fn two_schemas_may_not_claim_one_id() {
    let docs = vec![
        ("a.json".to_string(), Some("tessera:a.v1".to_string())),
        ("b.json".to_string(), Some("tessera:a.v1".to_string())),
    ];
    match register_ids(&docs) {
        Err(SchemaError::Compile { id, message }) => {
            assert_eq!(id, "tessera:a.v1");
            assert_eq!(message, "two schema files claim the same $id");
        }
        other => panic!("{other:?}"),
    }
}

#[test]
fn distinct_ids_register_in_order() {
    let docs = vec![
        ("a.json".to_string(), Some("tessera:a.v1".to_string())),
        ("b.json".to_string(), Some("tessera:b.v1".to_string())),
    ];
    assert_eq!(
        register_ids(&docs),
        Ok(vec!["tessera:a.v1".to_string(), "tessera:b.v1".to_string()])
    );
}
