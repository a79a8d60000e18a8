use openapi_explorer::document::{Components, Info, OpenApiSpec, Operation, PathItem};
use openapi_explorer::events::{handle_key_event, AppEvent, Key, ViewMode};
use openapi_explorer::indexer::build_field_index;
use openapi_explorer::nav::{App, Panel};
use openapi_explorer::schema::Schema;

fn object_schema(fields: Vec<&str>) -> Schema {
    Schema {
        schema_type: Some("object".to_string()),
        properties: Some(
            fields
                .into_iter()
                .map(|f| {
                    (
                        f.to_string(),
                        Schema {
                            schema_type: Some("string".to_string()),
                            ..Default::default()
                        },
                    )
                })
                .collect(),
        ),
        ..Default::default()
    }
}

fn spec_with(schemas: Vec<(&str, Schema)>, paths: Vec<&str>) -> OpenApiSpec {
    OpenApiSpec {
        openapi: "3.0.0".to_string(),
        info: Info {
            title: "T".to_string(),
            version: "1".to_string(),
            description: None,
        },
        paths: paths
            .into_iter()
            .map(|p| {
                (
                    p.to_string(),
                    PathItem {
                        operations: vec![(
                            "get".to_string(),
                            Operation {
                                operation_id: None,
                                summary: Some("s".to_string()),
                                description: None,
                                tags: None,
                                parameters: None,
                                request_body: None,
                                responses: vec![],
                            },
                        )],
                    },
                )
            })
            .collect(),
        components: Some(Components {
            schemas: Some(
                schemas
                    .into_iter()
                    .map(|(n, s)| (n.to_string(), s))
                    .collect(),
            ),
        }),
    }
}

fn sample_app() -> App {
    let spec = spec_with(
        vec![
            ("User", object_schema(vec!["id", "name"])),
            ("Pet", object_schema(vec!["tag"])),
        ],
        vec!["/users", "/pets"],
    );
    let index = build_field_index(&spec);
    App::new(spec, index, Some("spec.json".to_string()))
}

// After any sequence of query edits that ends with an empty query, all
// three filtered lists equal their full name sets in ascending order.
#[test]
fn test_empty_query_restores_full_sorted_lists() {
    let mut app = sample_app();
    app.search_query = "zz".to_string();
    app.update_filters();
    app.search_query = "id".to_string();
    app.update_filters();
    app.search_query = String::new();
    app.update_filters();

    assert_eq!(
        app.filtered_fields,
        vec!["id".to_string(), "name".to_string(), "tag".to_string()]
    );
    assert_eq!(
        app.filtered_schemas,
        vec!["Pet".to_string(), "User".to_string()]
    );
    assert_eq!(
        app.filtered_endpoints,
        vec!["GET /pets".to_string(), "GET /users".to_string()]
    );
}

// A non-empty query keeps exactly the matching names: the ranking comes
// from the matcher, and names the pattern does not match disappear.
#[test]
fn test_query_filters_by_fuzzy_match() {
    let mut app = sample_app();
    app.search_query = "nm".to_string();
    app.update_filters();
    assert_eq!(app.filtered_fields, vec!["name".to_string()]);

    app.search_query = "zzz".to_string();
    app.update_filters();
    assert!(app.filtered_fields.is_empty());
    assert_eq!(app.field_list_state, 0);
}

// Cursors are clamped to their lists on every recomputation: within
// bounds they stay, past the end they move to the last entry, and an
// empty list resets them to zero.
#[test]
fn test_cursor_clamping() {
    let mut app = sample_app();
    app.field_list_state = 2;
    app.update_filters();
    assert_eq!(app.field_list_state, 2);

    app.search_query = "id".to_string();
    app.field_list_state = 2;
    app.update_filters();
    assert_eq!(app.filtered_fields, vec!["id".to_string()]);
    assert_eq!(app.field_list_state, 0);

    app.search_query = "zzz".to_string();
    app.field_list_state = 5;
    app.schema_list_state = 5;
    app.endpoint_list_state = 5;
    app.update_filters();
    assert_eq!(app.field_list_state, 0);
    assert_eq!(app.schema_list_state, 0);
    assert_eq!(app.endpoint_list_state, 0);
}

// Up and down saturate at the list bounds and never wrap.
#[test]
fn test_navigation_saturates() {
    let mut app = sample_app();
    assert_eq!(app.field_list_state, 0);
    app.navigate_up();
    assert_eq!(app.field_list_state, 0);
    app.navigate_down();
    assert_eq!(app.field_list_state, 1);
    app.navigate_down();
    assert_eq!(app.field_list_state, 2);
    app.navigate_down();
    assert_eq!(app.field_list_state, 2);
}

// Selecting a field sets the selected name and restarts the endpoint
// sub-navigation; changing the view clears the selected names.
#[test]
fn test_selection_and_view_change() {
    let mut app = sample_app();
    app.endpoint_list_state = 0;
    app.navigate_down();
    app.select_current_item();
    assert_eq!(app.selected_field.as_deref(), Some("name"));
    assert_eq!(app.endpoint_list_state, 0);

    app.set_view(ViewMode::Stats);
    assert!(app.selected_field.is_none());
    assert!(app.selected_schema.is_none());
    assert!(app.selected_endpoint.is_none());
    assert_eq!(app.filtered_fields.len(), 3);
}

// A reload failure leaves every piece of prior state untouched and
// records a non-empty message.
#[test]
fn test_reload_failure_preserves_state() {
    let mut app = sample_app();
    app.navigate_down();
    app.select_current_item();

    let fields_before = app.filtered_fields.clone();
    let schemas_before = app.filtered_schemas.clone();
    let endpoints_before = app.filtered_endpoints.clone();
    let selected_before = app.selected_field.clone();
    let cursor_before = app.field_list_state;
    let field_keys_before: Vec<String> =
        app.field_index.fields.iter().map(|p| p.0.clone()).collect();
    let warnings_before = app.validation_warnings.clone();

    app.apply_reload_failure("file vanished".to_string());

    assert_eq!(
        app.reload_error.as_deref(),
        Some("Failed to reload: file vanished")
    );
    assert!(!app.is_loading);
    assert_eq!(app.filtered_fields, fields_before);
    assert_eq!(app.filtered_schemas, schemas_before);
    assert_eq!(app.filtered_endpoints, endpoints_before);
    assert_eq!(app.selected_field, selected_before);
    assert_eq!(app.field_list_state, cursor_before);
    assert_eq!(
        app.field_index
            .fields
            .iter()
            .map(|p| p.0.clone())
            .collect::<Vec<String>>(),
        field_keys_before
    );
    assert_eq!(app.validation_warnings, warnings_before);
}

// Asking for a reload without a known source location fails immediately
// with a message and no state change.
#[test]
fn test_reload_without_source() {
    let spec = spec_with(vec![("User", object_schema(vec!["id"]))], vec![]);
    let index = build_field_index(&spec);
    let mut app = App::new(spec, index, None);
    let fields_before = app.filtered_fields.clone();
    let r = app.begin_reload();
    assert!(r.is_none());
    assert_eq!(
        app.reload_error.as_deref(),
        Some("No file path available for reload")
    );
    assert_eq!(app.filtered_fields, fields_before);
}

// A successful reload swaps the document and index wholesale and
// clears a previous error.
#[test]
fn test_reload_success_swaps_index() {
    let mut app = sample_app();
    app.apply_reload_failure("old failure".to_string());
    let new_spec = spec_with(vec![("Order", object_schema(vec!["total"]))], vec!["/orders"]);
    app.apply_reload_success(new_spec);
    assert!(app.reload_error.is_none());
    assert_eq!(app.filtered_fields, vec!["total".to_string()]);
    assert_eq!(app.filtered_schemas, vec!["Order".to_string()]);
    assert_eq!(app.filtered_endpoints, vec!["GET /orders".to_string()]);
}

// The key table: quit, panels, views, movement, search fragments.
#[test]
fn test_handle_key_event_table() {
    assert_eq!(handle_key_event(Key::Char('q')), Some(AppEvent::Quit));
    assert_eq!(handle_key_event(Key::Ctrl('c')), Some(AppEvent::Quit));
    assert_eq!(handle_key_event(Key::Tab), Some(AppEvent::NextPanel));
    assert_eq!(handle_key_event(Key::Char('/')), Some(AppEvent::ClearSearch));
    assert_eq!(
        handle_key_event(Key::Char('2')),
        Some(AppEvent::ChangeView(ViewMode::Schemas))
    );
    assert_eq!(handle_key_event(Key::Up), Some(AppEvent::NavigateUp));
    assert_eq!(
        handle_key_event(Key::Char('x')),
        Some(AppEvent::Search("x".to_string()))
    );
    assert_eq!(
        handle_key_event(Key::Backspace),
        Some(AppEvent::Search(String::new()))
    );
    assert_eq!(handle_key_event(Key::Other), None);
}

// Keys applied to the whole state: quitting, panel cycling, view
// digits, help toggling, and escape dismissing a reload error.
#[test]
fn test_apply_key_transitions() {
    let mut app = sample_app();
    app.apply_key(Key::Tab);
    assert_eq!(app.current_panel, Panel::Center);
    app.apply_key(Key::Tab);
    assert_eq!(app.current_panel, Panel::Right);
    app.apply_key(Key::Tab);
    assert_eq!(app.current_panel, Panel::Left);

    app.apply_key(Key::Char('3'));
    assert_eq!(app.current_view, ViewMode::Endpoints);

    app.apply_key(Key::Char('h'));
    assert!(app.show_help);
    app.apply_key(Key::Char('h'));
    assert!(!app.show_help);

    app.apply_reload_failure("x".to_string());
    app.apply_key(Key::Esc);
    assert!(app.reload_error.is_none());

    app.apply_key(Key::Char('q'));
    assert!(app.should_quit);
}

// Driving the query through key events: backspacing down to an empty
// query restores the full sorted lists.
#[test]
fn test_backspace_to_empty_restores_lists() {
    let mut app = sample_app();
    app.search_query = "na".to_string();
    app.update_filters();
    assert_eq!(app.filtered_fields, vec!["name".to_string()]);

    app.apply_key(Key::Char('m'));
    assert_eq!(app.search_query, "nam");

    app.apply_key(Key::Backspace);
    app.apply_key(Key::Backspace);
    app.apply_key(Key::Backspace);
    assert_eq!(app.search_query, "");
    assert_eq!(
        app.filtered_fields,
        vec!["id".to_string(), "name".to_string(), "tag".to_string()]
    );

    // with no query present, a plain character starts nothing
    app.apply_key(Key::Char('x'));
    assert_eq!(app.search_query, "");
}

// The right panel walks the selected field's endpoints and opens the
// details of the one under the cursor.
#[test]
fn test_right_panel_endpoint_details() {
    let spec = spec_with(
        vec![("User", object_schema(vec!["id"]))],
        vec![],
    );
    let mut spec = spec;
    spec.paths = vec![(
        "/users".to_string(),
        openapi_explorer::document::PathItem {
            operations: vec![(
                "post".to_string(),
                openapi_explorer::document::Operation {
                    operation_id: None,
                    summary: Some("create".to_string()),
                    description: None,
                    tags: None,
                    parameters: None,
                    request_body: Some(openapi_explorer::document::RequestBody {
                        description: None,
                        content: vec![(
                            "application/json".to_string(),
                            openapi_explorer::document::MediaType {
                                schema: Some(object_schema(vec!["id"])),
                            },
                        )],
                    }),
                    responses: vec![],
                },
            )],
        },
    )];
    let index = build_field_index(&spec);
    let mut app = App::new(spec, index, None);

    app.select_current_item();
    assert_eq!(app.selected_field.as_deref(), Some("id"));

    app.apply_key(Key::Tab);
    app.apply_key(Key::Tab);
    assert_eq!(app.current_panel, Panel::Right);
    app.apply_key(Key::Enter);
    assert!(app.show_endpoint_details);
    assert_eq!(
        app.selected_endpoint_for_details.as_deref(),
        Some("POST /users")
    );

    app.apply_key(Key::Esc);
    assert!(!app.show_endpoint_details);
    assert!(app.selected_endpoint_for_details.is_none());
}

// The statistics helpers over the index.
#[test]
fn test_graph_statistics() {
    let app = sample_app();
    assert_eq!(
        openapi_explorer::indexer::count_critical_fields(&app.field_index),
        0
    );
    let most = openapi_explorer::indexer::get_most_connected_field(&app.field_index);
    assert!(["id", "name", "tag"].contains(&most.as_str()));

    let empty = openapi_explorer::indexer::FieldIndex::new();
    assert_eq!(
        openapi_explorer::indexer::get_most_connected_field(&empty),
        "None"
    );
}
