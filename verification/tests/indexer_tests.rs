use openapi_explorer::document::{
    Components, Info, MediaType, OpenApiSpec, Operation, Parameter, PathItem, RequestBody,
};
use openapi_explorer::indexer::{build_field_index, FieldIndex};
use openapi_explorer::schema::Schema;

fn string_schema() -> Schema {
    Schema {
        schema_type: Some("string".to_string()),
        ..Default::default()
    }
}

fn create_test_spec() -> OpenApiSpec {
    OpenApiSpec {
        openapi: "3.0.0".to_string(),
        info: Info {
            title: "Test API".to_string(),
            version: "1.0.0".to_string(),
            description: None,
        },
        paths: vec![(
            "/users".to_string(),
            PathItem {
                operations: vec![
                    (
                        "get".to_string(),
                        Operation {
                            operation_id: Some("listUsers".to_string()),
                            summary: Some("List users".to_string()),
                            description: None,
                            tags: None,
                            // The parameter's schema declares `id` as a
                            // property: a bare scalar schema contributes no
                            // extracted field, so the endpoint assertions on
                            // `id` below need a property-bearing schema here.
                            parameters: Some(vec![Parameter {
                                name: "id".to_string(),
                                in_: "query".to_string(),
                                description: Some("User ID".to_string()),
                                required: Some(true),
                                schema: Some(Schema {
                                    schema_type: Some("object".to_string()),
                                    properties: Some(vec![(
                                        "id".to_string(),
                                        Schema {
                                            schema_type: Some("integer".to_string()),
                                            ..Default::default()
                                        },
                                    )]),
                                    ..Default::default()
                                }),
                            }]),
                            request_body: None,
                            responses: vec![],
                        },
                    ),
                    (
                        "post".to_string(),
                        Operation {
                            operation_id: Some("createUser".to_string()),
                            summary: Some("Create user".to_string()),
                            description: None,
                            tags: None,
                            parameters: None,
                            request_body: Some(RequestBody {
                                description: None,
                                content: vec![(
                                    "application/json".to_string(),
                                    MediaType {
                                        schema: Some(Schema {
                                            schema_type: Some("object".to_string()),
                                            properties: Some(vec![
                                                ("name".to_string(), string_schema()),
                                                (
                                                    "email".to_string(),
                                                    Schema {
                                                        schema_type: Some("string".to_string()),
                                                        format: Some("email".to_string()),
                                                        ..Default::default()
                                                    },
                                                ),
                                            ]),
                                            ..Default::default()
                                        }),
                                    },
                                )],
                            }),
                            responses: vec![],
                        },
                    ),
                ],
            },
        )],
        components: Some(Components {
            schemas: Some(vec![(
                "User".to_string(),
                Schema {
                    schema_type: Some("object".to_string()),
                    properties: Some(vec![
                        (
                            "id".to_string(),
                            Schema {
                                schema_type: Some("integer".to_string()),
                                description: Some("User ID".to_string()),
                                ..Default::default()
                            },
                        ),
                        (
                            "name".to_string(),
                            Schema {
                                schema_type: Some("string".to_string()),
                                description: Some("User name".to_string()),
                                ..Default::default()
                            },
                        ),
                    ]),
                    ..Default::default()
                },
            )]),
        }),
    }
}

fn field<'a>(
    index: &'a FieldIndex,
    name: &str,
) -> Option<&'a openapi_explorer::indexer::FieldData> {
    index
        .fields
        .iter()
        .find(|p| p.0 == name)
        .map(|p| &p.1)
}

#[test]
fn test_field_index_new() {
    let index = FieldIndex::new();
    assert!(index.fields.is_empty());
    assert!(index.schemas.is_empty());
    assert!(index.endpoint_fields.is_empty());
}

#[test]
fn test_build_field_index() {
    let spec = create_test_spec();
    let index = build_field_index(&spec);

    assert!(field(&index, "id").is_some());
    assert!(field(&index, "name").is_some());
    println!(
        "Available fields: {:?}",
        index.fields.iter().map(|p| &p.0).collect::<Vec<_>>()
    );

    assert!(index.schemas.iter().any(|p| p.0 == "User"));

    let id_field = field(&index, "id").unwrap();
    assert_eq!(id_field.field_type, "integer");
    assert!(id_field.schemas.contains(&"User".to_string()));
    assert!(!id_field.endpoints.is_empty());

    assert!(index.endpoint_fields.iter().any(|p| p.0 == "GET /users"));
    assert!(index.endpoint_fields.iter().any(|p| p.0 == "POST /users"));
}

#[test]
fn test_get_endpoints_for_field() {
    let spec = create_test_spec();
    let index = build_field_index(&spec);

    let endpoints = index.get_endpoints_for_field("name");
    assert!(!endpoints.is_empty());
    assert!(endpoints.iter().any(|e| e.contains("POST")));
}

#[test]
fn test_is_critical_field() {
    let spec = create_test_spec();
    let index = build_field_index(&spec);

    assert!(index.is_critical_field("name"));
    assert!(!index.is_critical_field("nonexistent"));
}

#[test]
fn test_get_schema_fields() {
    let spec = create_test_spec();
    let index = build_field_index(&spec);

    let user_fields = index.get_schema_fields("User");
    assert_eq!(user_fields.len(), 2);
    assert!(user_fields.contains(&"id".to_string()));
    assert!(user_fields.contains(&"name".to_string()));

    let empty_fields = index.get_schema_fields("NonExistent");
    assert!(empty_fields.is_empty());
}

#[test]
fn test_field_relationships() {
    let spec = OpenApiSpec {
        openapi: "3.0.0".to_string(),
        info: Info {
            title: "Test".to_string(),
            version: "1.0.0".to_string(),
            description: None,
        },
        paths: vec![],
        components: Some(Components {
            schemas: Some(vec![(
                "User".to_string(),
                Schema {
                    schema_type: Some("object".to_string()),
                    properties: Some(vec![
                        (
                            "id".to_string(),
                            Schema {
                                schema_type: Some("integer".to_string()),
                                ..Default::default()
                            },
                        ),
                        ("name".to_string(), string_schema()),
                    ]),
                    ..Default::default()
                },
            )]),
        }),
    };

    let index = build_field_index(&spec);
    let relationships = openapi_explorer::indexer::analyze_field_relationships(&index);

    assert!(relationships.iter().any(|p| p.0 == "id"));
    assert!(relationships.iter().any(|p| p.0 == "name"));

    let id_related = &relationships.iter().find(|p| p.0 == "id").unwrap().1;
    assert!(id_related.contains(&"name".to_string()));

    let name_related = &relationships.iter().find(|p| p.0 == "name").unwrap().1;
    assert!(name_related.contains(&"id".to_string()));
}

// Scenario: a schema `User{id, name}`, a request-body endpoint `POST
// /users` using it, and a bare `GET /users`. The index must hold exactly
// the two schema fields, attribute them to `User` and to the posting
// endpoint, classify `id` as critical, and record an empty field list
// for the bare endpoint.
#[test]
fn test_user_document_scenario() {
    let spec = OpenApiSpec {
        openapi: "3.0.0".to_string(),
        info: Info {
            title: "Users".to_string(),
            version: "1.0.0".to_string(),
            description: None,
        },
        paths: vec![(
            "/users".to_string(),
            PathItem {
                operations: vec![
                    (
                        "post".to_string(),
                        Operation {
                            operation_id: None,
                            summary: Some("Create".to_string()),
                            description: None,
                            tags: None,
                            parameters: None,
                            request_body: Some(RequestBody {
                                description: None,
                                content: vec![(
                                    "application/json".to_string(),
                                    MediaType {
                                        schema: Some(Schema {
                                            schema_type: Some("object".to_string()),
                                            properties: Some(vec![
                                                (
                                                    "id".to_string(),
                                                    Schema {
                                                        schema_type: Some("integer".to_string()),
                                                        ..Default::default()
                                                    },
                                                ),
                                                ("name".to_string(), string_schema()),
                                            ]),
                                            ..Default::default()
                                        }),
                                    },
                                )],
                            }),
                            responses: vec![],
                        },
                    ),
                    (
                        "get".to_string(),
                        Operation {
                            operation_id: None,
                            summary: Some("List".to_string()),
                            description: None,
                            tags: None,
                            parameters: None,
                            request_body: None,
                            responses: vec![],
                        },
                    ),
                ],
            },
        )],
        components: Some(Components {
            schemas: Some(vec![(
                "User".to_string(),
                Schema {
                    schema_type: Some("object".to_string()),
                    properties: Some(vec![
                        (
                            "id".to_string(),
                            Schema {
                                schema_type: Some("integer".to_string()),
                                ..Default::default()
                            },
                        ),
                        ("name".to_string(), string_schema()),
                    ]),
                    ..Default::default()
                },
            )]),
        }),
    };

    let index = build_field_index(&spec);

    let mut names: Vec<&str> = index.fields.iter().map(|p| p.0.as_str()).collect();
    names.sort();
    assert_eq!(names, vec!["id", "name"]);

    let id_field = field(&index, "id").unwrap();
    assert_eq!(id_field.schemas, vec!["User".to_string()]);
    assert_eq!(id_field.endpoints, vec!["POST /users".to_string()]);

    assert!(index.is_critical_field("id"));
    assert!(!index.is_critical_field("nonexistent"));

    let get_fields = &index
        .endpoint_fields
        .iter()
        .find(|p| p.0 == "GET /users")
        .unwrap()
        .1;
    assert!(get_fields.is_empty());
}

// The build is deterministic: two builds over one document agree on the
// key sets of all three maps.
#[test]
fn test_build_twice_same_key_sets() {
    let spec = create_test_spec();
    let a = build_field_index(&spec);
    let b = build_field_index(&spec);
    let keys = |v: &Vec<(String, openapi_explorer::indexer::FieldData)>| {
        v.iter().map(|p| p.0.clone()).collect::<Vec<_>>()
    };
    assert_eq!(keys(&a.fields), keys(&b.fields));
    assert_eq!(
        a.schemas.iter().map(|p| &p.0).collect::<Vec<_>>(),
        b.schemas.iter().map(|p| &p.0).collect::<Vec<_>>()
    );
    assert_eq!(
        a.endpoint_fields.iter().map(|p| &p.0).collect::<Vec<_>>(),
        b.endpoint_fields.iter().map(|p| &p.0).collect::<Vec<_>>()
    );
}

// The criticality test is a substring test on the whole key: a path
// containing `posts` marks its fields critical even under GET.
#[test]
fn test_critical_by_path_substring() {
    let spec = OpenApiSpec {
        openapi: "3.0.0".to_string(),
        info: Info {
            title: "Posts".to_string(),
            version: "1.0.0".to_string(),
            description: None,
        },
        paths: vec![(
            "/posts".to_string(),
            PathItem {
                operations: vec![(
                    "get".to_string(),
                    Operation {
                        operation_id: None,
                        summary: Some("List".to_string()),
                        description: None,
                        tags: None,
                        parameters: Some(vec![Parameter {
                            name: "title".to_string(),
                            in_: "query".to_string(),
                            description: None,
                            required: None,
                            schema: Some(Schema {
                                schema_type: Some("object".to_string()),
                                properties: Some(vec![("title".to_string(), string_schema())]),
                                ..Default::default()
                            }),
                        }]),
                        request_body: None,
                        responses: vec![],
                    },
                )],
            },
        )],
        components: Some(Components {
            schemas: Some(vec![(
                "Post".to_string(),
                Schema {
                    schema_type: Some("object".to_string()),
                    properties: Some(vec![("title".to_string(), string_schema())]),
                    ..Default::default()
                },
            )]),
        }),
    };
    let index = build_field_index(&spec);
    assert_eq!(
        index.get_endpoints_for_field("title"),
        vec!["GET /posts".to_string()]
    );
    assert!(index.is_critical_field("title"));
}

// The endpoint key renders the method upper-case with a single space.
#[test]
fn test_make_endpoint_key() {
    assert_eq!(
        openapi_explorer::indexer::make_endpoint_key("post", "/users"),
        "POST /users"
    );
    assert_eq!(
        openapi_explorer::indexer::make_endpoint_key("GeT", "/a b"),
        "GET /a b"
    );
}

// Two schemas defining the same field name: the first one's type and
// description stay canonical, while both appear as owners.
#[test]
fn test_first_write_wins_metadata() {
    let spec = OpenApiSpec {
        openapi: "3.0.0".to_string(),
        info: Info {
            title: "T".to_string(),
            version: "1".to_string(),
            description: None,
        },
        paths: vec![],
        components: Some(Components {
            schemas: Some(vec![
                (
                    "First".to_string(),
                    Schema {
                        properties: Some(vec![(
                            "shared".to_string(),
                            Schema {
                                schema_type: Some("integer".to_string()),
                                description: Some("first".to_string()),
                                ..Default::default()
                            },
                        )]),
                        ..Default::default()
                    },
                ),
                (
                    "Second".to_string(),
                    Schema {
                        properties: Some(vec![(
                            "shared".to_string(),
                            Schema {
                                schema_type: Some("string".to_string()),
                                description: Some("second".to_string()),
                                ..Default::default()
                            },
                        )]),
                        ..Default::default()
                    },
                ),
            ]),
        }),
    };
    let index = build_field_index(&spec);
    let shared = field(&index, "shared").unwrap();
    assert_eq!(shared.field_type, "integer");
    assert_eq!(shared.description.as_deref(), Some("first"));
    assert_eq!(
        shared.schemas,
        vec!["First".to_string(), "Second".to_string()]
    );
}

// Extraction walks array items and composition lists, keeping
// duplicates for the caller to handle.
#[test]
fn test_extract_fields_through_items_and_composition() {
    let schema = Schema {
        schema_type: Some("array".to_string()),
        items: Some(Box::new(Schema {
            properties: Some(vec![("inner".to_string(), string_schema())]),
            ..Default::default()
        })),
        all_of: Some(vec![Schema {
            properties: Some(vec![("inner".to_string(), string_schema())]),
            ..Default::default()
        }]),
        one_of: Some(vec![Schema {
            properties: Some(vec![("either".to_string(), string_schema())]),
            ..Default::default()
        }]),
        ..Default::default()
    };
    let fields = openapi_explorer::indexer::extract_fields_from_schema(&schema);
    assert_eq!(
        fields,
        vec![
            "inner".to_string(),
            "inner".to_string(),
            "either".to_string()
        ]
    );
}

// A field appearing only in an endpoint and never in a named schema gets
// no entry of its own, though it appears in the endpoint's field list.
#[test]
fn test_endpoint_only_field_invisible() {
    let spec = OpenApiSpec {
        openapi: "3.0.0".to_string(),
        info: Info {
            title: "T".to_string(),
            version: "1".to_string(),
            description: None,
        },
        paths: vec![(
            "/things".to_string(),
            PathItem {
                operations: vec![(
                    "post".to_string(),
                    Operation {
                        operation_id: None,
                        summary: None,
                        description: None,
                        tags: None,
                        parameters: None,
                        request_body: Some(RequestBody {
                            description: None,
                            content: vec![(
                                "application/json".to_string(),
                                MediaType {
                                    schema: Some(Schema {
                                        properties: Some(vec![(
                                            "ghostly".to_string(),
                                            string_schema(),
                                        )]),
                                        ..Default::default()
                                    }),
                                },
                            )],
                        }),
                        responses: vec![],
                    },
                )],
            },
        )],
        components: None,
    };
    let index = build_field_index(&spec);
    assert!(field(&index, "ghostly").is_none());
    let ep = &index
        .endpoint_fields
        .iter()
        .find(|p| p.0 == "POST /things")
        .unwrap()
        .1;
    assert_eq!(ep, &vec!["ghostly".to_string()]);
}
