use openapi_explorer::document::{Components, Info, OpenApiSpec, Operation, PathItem};
use openapi_explorer::indexer::build_field_index;
use openapi_explorer::schema::Schema;
use openapi_explorer::validate::compute_validation_warnings;

fn bare_operation() -> Operation {
    Operation {
        operation_id: None,
        summary: None,
        description: None,
        tags: None,
        parameters: None,
        request_body: None,
        responses: vec![],
    }
}

// An empty document draws the structural warnings for the missing
// components section and the missing paths.
#[test]
fn test_empty_document_warnings() {
    let spec = OpenApiSpec {
        openapi: "3.0.0".to_string(),
        info: Info {
            title: "T".to_string(),
            version: "1".to_string(),
            description: None,
        },
        paths: vec![],
        components: None,
    };
    let index = build_field_index(&spec);
    let warnings = compute_validation_warnings(&spec, &index);
    assert_eq!(
        warnings,
        vec![
            "No components section found in OpenAPI spec".to_string(),
            "No paths/endpoints defined in spec".to_string(),
        ]
    );
}

// A field without a declared type is reported by name, a path without
// operations by path, and undescribed operations by exact count.
#[test]
fn test_detailed_warnings() {
    let spec = OpenApiSpec {
        openapi: "3.0.0".to_string(),
        info: Info {
            title: "T".to_string(),
            version: "1".to_string(),
            description: None,
        },
        paths: vec![
            ("/empty".to_string(), PathItem { operations: vec![] }),
            (
                "/busy".to_string(),
                PathItem {
                    operations: vec![
                        ("get".to_string(), bare_operation()),
                        ("put".to_string(), bare_operation()),
                    ],
                },
            ),
        ],
        components: Some(Components {
            schemas: Some(vec![(
                "Thing".to_string(),
                Schema {
                    schema_type: Some("object".to_string()),
                    properties: Some(vec![("mystery".to_string(), Schema::default())]),
                    ..Default::default()
                },
            )]),
        }),
    };
    let index = build_field_index(&spec);
    let warnings = compute_validation_warnings(&spec, &index);
    assert!(warnings.contains(&"Field 'mystery' has unknown type".to_string()));
    assert!(warnings.contains(&"Path '/empty' has no operations defined".to_string()));
    assert!(warnings.contains(&"2 endpoint(s) missing description/summary".to_string()));
    assert!(warnings.contains(&"1 schema(s) not used in any endpoint".to_string()));
}

// The aggregate count renders multi-digit numbers exactly.
#[test]
fn test_multi_digit_count() {
    let ops: Vec<(String, Operation)> = (0..11)
        .map(|i| (format!("m{}", i), bare_operation()))
        .collect();
    let spec = OpenApiSpec {
        openapi: "3.0.0".to_string(),
        info: Info {
            title: "T".to_string(),
            version: "1".to_string(),
            description: None,
        },
        paths: vec![("/x".to_string(), PathItem { operations: ops })],
        components: None,
    };
    let index = build_field_index(&spec);
    let warnings = compute_validation_warnings(&spec, &index);
    assert!(warnings.contains(&"11 endpoint(s) missing description/summary".to_string()));
}

// A document whose schemas all feed endpoints and whose operations are
// described draws no warnings beyond none at all.
#[test]
fn test_clean_document_without_schema_warnings() {
    let spec = OpenApiSpec {
        openapi: "3.0.0".to_string(),
        info: Info {
            title: "T".to_string(),
            version: "1".to_string(),
            description: None,
        },
        paths: vec![(
            "/users".to_string(),
            PathItem {
                operations: vec![(
                    "post".to_string(),
                    Operation {
                        summary: Some("create".to_string()),
                        request_body: Some(openapi_explorer::document::RequestBody {
                            description: None,
                            content: vec![(
                                "application/json".to_string(),
                                openapi_explorer::document::MediaType {
                                    schema: Some(Schema {
                                        properties: Some(vec![(
                                            "id".to_string(),
                                            Schema {
                                                schema_type: Some("integer".to_string()),
                                                ..Default::default()
                                            },
                                        )]),
                                        ..Default::default()
                                    }),
                                },
                            )],
                        }),
                        ..bare_operation()
                    },
                )],
            },
        )],
        components: Some(Components {
            schemas: Some(vec![(
                "User".to_string(),
                Schema {
                    schema_type: Some("object".to_string()),
                    properties: Some(vec![(
                        "id".to_string(),
                        Schema {
                            schema_type: Some("integer".to_string()),
                            ..Default::default()
                        },
                    )]),
                    ..Default::default()
                },
            )]),
        }),
    };
    let index = build_field_index(&spec);
    let warnings = compute_validation_warnings(&spec, &index);
    assert!(warnings.is_empty());
}
