use openapi_explorer::document::{Components, Info, OpenApiSpec};
use openapi_explorer::resolve::{extract_schema_name_from_ref, resolve_references};
use openapi_explorer::schema::Schema;

fn named(
    schemas: Vec<(&str, Schema)>,
) -> OpenApiSpec {
    OpenApiSpec {
        openapi: "3.0.0".to_string(),
        info: Info {
            title: "T".to_string(),
            version: "1".to_string(),
            description: None,
        },
        paths: vec![],
        components: Some(Components {
            schemas: Some(
                schemas
                    .into_iter()
                    .map(|(n, s)| (n.to_string(), s))
                    .collect(),
            ),
        }),
    }
}

fn schema_of<'a>(spec: &'a OpenApiSpec, name: &str) -> &'a Schema {
    spec.components
        .as_ref()
        .unwrap()
        .schemas
        .as_ref()
        .unwrap()
        .iter()
        .find(|p| p.0 == name)
        .map(|p| &p.1)
        .unwrap()
}

#[test]
fn test_extract_schema_name_from_ref_valid() {
    let result = extract_schema_name_from_ref("#/components/schemas/Pet");
    assert_eq!(result, Some("Pet"));
}

#[test]
fn test_extract_schema_name_from_ref_invalid() {
    let result = extract_schema_name_from_ref("invalid/ref");
    assert_eq!(result, None);
}

#[test]
fn test_extract_schema_name_from_ref_empty() {
    let result = extract_schema_name_from_ref("");
    assert_eq!(result, None);
}

#[test]
fn test_schema_get_field_names_simple() {
    let schema = Schema {
        schema_type: Some("object".to_string()),
        format: None,
        description: None,
        properties: Some(vec![
            (
                "name".to_string(),
                Schema {
                    schema_type: Some("string".to_string()),
                    ..Default::default()
                },
            ),
            (
                "age".to_string(),
                Schema {
                    schema_type: Some("integer".to_string()),
                    ..Default::default()
                },
            ),
        ]),
        items: None,
        required: None,
        all_of: None,
        one_of: None,
        any_of: None,
        not_schema: None,
        additional_properties: None,
        nullable: None,
        read_only: None,
        write_only: None,
        example: None,
        enum_: None,
        default: None,
        reference: None,
    };

    let field_names = schema.get_field_names();
    assert_eq!(field_names.len(), 2);
    assert!(field_names.contains(&"name".to_string()));
    assert!(field_names.contains(&"age".to_string()));
}

// The per-property getters: type, description, format, the required
// list, and the opaque enumeration payloads.
#[test]
fn test_schema_property_getters() {
    let schema = Schema {
        schema_type: Some("object".to_string()),
        properties: Some(vec![(
            "age".to_string(),
            Schema {
                schema_type: Some("integer".to_string()),
                format: Some("int64".to_string()),
                description: Some("years".to_string()),
                enum_: Some(vec![
                    serde_json::Value::from(1),
                    serde_json::Value::from(2),
                ]),
                ..Default::default()
            },
        )]),
        required: Some(vec!["age".to_string()]),
        ..Default::default()
    };
    assert_eq!(schema.get_field_type("age").as_deref(), Some("integer"));
    assert_eq!(schema.get_field_description("age").as_deref(), Some("years"));
    assert_eq!(schema.get_field_format("age").as_deref(), Some("int64"));
    assert!(schema.is_field_required("age"));
    assert!(!schema.is_field_required("name"));
    assert_eq!(schema.get_field_enum_values("age").map(|v| v.len()), Some(2));
    assert!(schema.get_field_enum_values("name").is_none());
    assert!(schema.get_field_type("name").is_none());
}

// A schema referencing a target inherits the target's fields: the
// resolved referrer reaches every field the target defines.
#[test]
fn test_reference_inherits_target_fields() {
    let target = Schema {
        schema_type: Some("object".to_string()),
        properties: Some(vec![
            (
                "x".to_string(),
                Schema {
                    schema_type: Some("integer".to_string()),
                    ..Default::default()
                },
            ),
            (
                "y".to_string(),
                Schema {
                    schema_type: Some("string".to_string()),
                    ..Default::default()
                },
            ),
        ]),
        ..Default::default()
    };
    let referrer = Schema {
        reference: Some("#/components/schemas/B".to_string()),
        ..Default::default()
    };
    let mut spec = named(vec![("A", referrer), ("B", target)]);
    resolve_references(&mut spec);

    let a = schema_of(&spec, "A");
    assert!(a.reference.is_none());
    let fields = a.get_field_names();
    assert!(fields.contains(&"x".to_string()));
    assert!(fields.contains(&"y".to_string()));
    assert_eq!(a.schema_type.as_deref(), Some("object"));
}

// A locally declared attribute wins over the referenced target's.
#[test]
fn test_local_attribute_wins_over_target() {
    let target = Schema {
        schema_type: Some("object".to_string()),
        description: Some("target".to_string()),
        ..Default::default()
    };
    let referrer = Schema {
        description: Some("local".to_string()),
        reference: Some("#/components/schemas/B".to_string()),
        ..Default::default()
    };
    let mut spec = named(vec![("A", referrer), ("B", target)]);
    resolve_references(&mut spec);
    let a = schema_of(&spec, "A");
    assert_eq!(a.description.as_deref(), Some("local"));
    assert_eq!(a.schema_type.as_deref(), Some("object"));
}

// Resolution is idempotent: a second pass changes nothing observable.
#[test]
fn test_resolution_idempotent() {
    let target = Schema {
        schema_type: Some("object".to_string()),
        properties: Some(vec![(
            "x".to_string(),
            Schema {
                schema_type: Some("integer".to_string()),
                ..Default::default()
            },
        )]),
        ..Default::default()
    };
    let referrer = Schema {
        reference: Some("#/components/schemas/B".to_string()),
        ..Default::default()
    };
    let mut spec = named(vec![("A", referrer), ("B", target)]);
    resolve_references(&mut spec);
    let once_a_fields = schema_of(&spec, "A").get_field_names();
    let once_a_type = schema_of(&spec, "A").schema_type.clone();
    resolve_references(&mut spec);
    assert_eq!(schema_of(&spec, "A").get_field_names(), once_a_fields);
    assert_eq!(schema_of(&spec, "A").schema_type, once_a_type);
    assert!(schema_of(&spec, "A").reference.is_none());
}

// A dangling pointer degrades silently: the pointer is cleared, nothing
// is copied, and resolution never fails.
#[test]
fn test_dangling_reference_degrades() {
    let referrer = Schema {
        reference: Some("#/components/schemas/Missing".to_string()),
        ..Default::default()
    };
    let mut spec = named(vec![("A", referrer)]);
    resolve_references(&mut spec);
    let a = schema_of(&spec, "A");
    assert!(a.reference.is_none());
    assert!(a.properties.is_none());
    assert!(a.get_field_names().is_empty());
}

// Inside an operation a dangling pointer degrades the same way as in
// the named map: cleared, nothing copied.
#[test]
fn test_operation_dangling_reference_cleared() {
    let mut spec = named(vec![]);
    spec.paths = vec![(
        "/things".to_string(),
        openapi_explorer::document::PathItem {
            operations: vec![(
                "post".to_string(),
                openapi_explorer::document::Operation {
                    operation_id: None,
                    summary: Some("s".to_string()),
                    description: None,
                    tags: None,
                    parameters: None,
                    request_body: Some(openapi_explorer::document::RequestBody {
                        description: None,
                        content: vec![(
                            "application/json".to_string(),
                            openapi_explorer::document::MediaType {
                                schema: Some(Schema {
                                    reference: Some(
                                        "#/components/schemas/Missing".to_string(),
                                    ),
                                    ..Default::default()
                                }),
                            },
                        )],
                    }),
                    responses: vec![],
                },
            )],
        },
    )];
    resolve_references(&mut spec);
    let body = &spec.paths[0].1.operations[0].1.request_body;
    let schema = body.as_ref().unwrap().content[0].1.schema.as_ref().unwrap();
    assert!(schema.reference.is_none());
    assert!(schema.properties.is_none());
}

// References inside the composition lists of an operation schema are
// resolved as well: a valid target is substituted, field names and all.
#[test]
fn test_operation_composition_reference_resolved() {
    let target = Schema {
        schema_type: Some("object".to_string()),
        properties: Some(vec![(
            "inner".to_string(),
            Schema {
                schema_type: Some("string".to_string()),
                ..Default::default()
            },
        )]),
        ..Default::default()
    };
    let mut spec = named(vec![("Target", target)]);
    spec.paths = vec![(
        "/things".to_string(),
        openapi_explorer::document::PathItem {
            operations: vec![(
                "post".to_string(),
                openapi_explorer::document::Operation {
                    operation_id: None,
                    summary: Some("s".to_string()),
                    description: None,
                    tags: None,
                    parameters: None,
                    request_body: Some(openapi_explorer::document::RequestBody {
                        description: None,
                        content: vec![(
                            "application/json".to_string(),
                            openapi_explorer::document::MediaType {
                                schema: Some(Schema {
                                    all_of: Some(vec![Schema {
                                        reference: Some(
                                            "#/components/schemas/Target".to_string(),
                                        ),
                                        ..Default::default()
                                    }]),
                                    ..Default::default()
                                }),
                            },
                        )],
                    }),
                    responses: vec![],
                },
            )],
        },
    )];
    resolve_references(&mut spec);
    let body = &spec.paths[0].1.operations[0].1.request_body;
    let schema = body.as_ref().unwrap().content[0].1.schema.as_ref().unwrap();
    let member = &schema.all_of.as_ref().unwrap()[0];
    assert!(member.reference.is_none());
    assert_eq!(schema.get_field_names(), vec!["inner".to_string()]);
}

// A mutually referential schema pair resolves without running forever;
// every pointer in the stored map ends up cleared.
#[test]
fn test_cyclic_references_terminate() {
    let a = Schema {
        properties: Some(vec![(
            "to_b".to_string(),
            Schema {
                reference: Some("#/components/schemas/B".to_string()),
                ..Default::default()
            },
        )]),
        ..Default::default()
    };
    let b = Schema {
        properties: Some(vec![(
            "to_a".to_string(),
            Schema {
                reference: Some("#/components/schemas/A".to_string()),
                ..Default::default()
            },
        )]),
        ..Default::default()
    };
    let mut spec = named(vec![("A", a), ("B", b)]);
    resolve_references(&mut spec);
    fn no_refs(s: &Schema) -> bool {
        s.reference.is_none()
            && s.properties
                .as_ref()
                .map_or(true, |ps| ps.iter().all(|p| no_refs(&p.1)))
            && s.items.as_ref().map_or(true, |b| no_refs(b))
            && s.all_of
                .as_ref()
                .map_or(true, |l| l.iter().all(no_refs))
            && s.one_of
                .as_ref()
                .map_or(true, |l| l.iter().all(no_refs))
            && s.any_of
                .as_ref()
                .map_or(true, |l| l.iter().all(no_refs))
    }
    assert!(no_refs(schema_of(&spec, "A")));
    assert!(no_refs(schema_of(&spec, "B")));
}

// Scenario: schema `Ref` holds a property `child` referencing
// `Target{value: string}`. After resolution the property name `child`
// is the extracted field of `Ref` (the extractor lists property names,
// not the nested object's own fields), and the resolved `child` node
// carries `Target`'s `value` property one level down.
#[test]
fn test_nested_reference_through_property() {
    let target = Schema {
        schema_type: Some("object".to_string()),
        properties: Some(vec![(
            "value".to_string(),
            Schema {
                schema_type: Some("string".to_string()),
                ..Default::default()
            },
        )]),
        ..Default::default()
    };
    let referrer = Schema {
        schema_type: Some("object".to_string()),
        properties: Some(vec![(
            "child".to_string(),
            Schema {
                reference: Some("#/components/schemas/Target".to_string()),
                ..Default::default()
            },
        )]),
        ..Default::default()
    };
    let mut spec = named(vec![("Ref", referrer), ("Target", target)]);
    resolve_references(&mut spec);

    let r = schema_of(&spec, "Ref");
    assert_eq!(r.get_field_names(), vec!["child".to_string()]);
    let child = &r
        .properties
        .as_ref()
        .unwrap()
        .iter()
        .find(|p| p.0 == "child")
        .unwrap()
        .1;
    assert!(child.reference.is_none());
    assert_eq!(child.get_field_names(), vec!["value".to_string()]);
    assert_eq!(child.get_field_type("value").as_deref(), Some("string"));
}
