//! The filter and navigation engine: the query string, the three
//! filtered and ranked name lists derived from the index, the three
//! selection cursors with their bounds invariant, and the reload
//! bookkeeping. All state transitions are plain functions of the state
//! and one event; everything that touches a terminal or a file stays
//! outside.

use vstd::prelude::*;
use vstd::string::StringExecFns;
use crate::document::OpenApiSpec;
use crate::indexer::{FieldIndex, spec_is_critical};
use crate::assoc::assoc_lookup;
use crate::schema::names_view;
use crate::text::{names_sorted, pair_names};
use crate::fuzzy::fuzzy_score;
use crate::events::{Key, ViewMode};

verus! {

/// The three panels of the layout.
#[derive(PartialEq, Eq, Structural, Clone, Copy, Debug)]
pub enum Panel {
    Left,
    Center,
    Right,
}

/// Everything the interface shows about one field.
pub struct FieldInfo {
    pub name: String,
    pub field_type: String,
    pub description: Option<String>,
    pub schemas: Vec<String>,
    pub endpoints: Vec<String>,
    pub is_critical: bool,
}

/// The whole navigable state: the document and its index, the current
/// view and panel, the query with its three filtered lists and cursors,
/// the selections, and the reload bookkeeping.
pub struct App {
    pub openapi_spec: OpenApiSpec,
    pub field_index: FieldIndex,
    pub current_view: ViewMode,
    pub current_panel: Panel,
    pub selected_field: Option<String>,
    pub selected_schema: Option<String>,
    pub selected_endpoint: Option<String>,
    pub search_query: String,
    pub filtered_fields: Vec<String>,
    pub filtered_schemas: Vec<String>,
    pub filtered_endpoints: Vec<String>,
    pub should_quit: bool,
    pub show_help: bool,
    pub show_endpoint_details: bool,
    pub selected_endpoint_for_details: Option<String>,
    pub field_list_state: usize,
    pub schema_list_state: usize,
    pub endpoint_list_state: usize,
    pub file_path: Option<String>,
    pub should_reload: bool,
    pub reload_error: Option<String>,
    pub is_loading: bool,
    pub loading_message: String,
    pub validation_warnings: Vec<String>,
}

/// The key strings of an association list, in order.
pub open spec fn key_strings<T>(s: Seq<(String, T)>) -> Seq<String> {
    s.map_values(|p: (String, T)| p.0)
}

/// The candidates the query matches, in candidate order.
pub open spec fn matching(cands: Seq<String>, q: Seq<char>) -> Seq<String>
    decreases cands,
{
    if cands.len() == 0 {
        Seq::empty()
    } else {
        matching(cands.drop_last(), q) + (if fuzzy_score(cands.last()@, q) is Some {
            seq![cands.last()]
        } else {
            Seq::empty()
        })
    }
}

/// A correctly filtered list for an empty query: the full candidate
/// list, in ascending name order.
pub open spec fn filtered_full(filtered: Seq<String>, cands: Seq<String>) -> bool {
    &&& names_sorted(filtered)
    &&& filtered.to_multiset() == cands.to_multiset()
}

/// A correctly filtered list for a non-empty query: exactly the
/// matching candidates, in descending score order.
pub open spec fn filtered_ranked(filtered: Seq<String>, cands: Seq<String>, q: Seq<char>) -> bool {
    &&& filtered.to_multiset() == matching(cands, q).to_multiset()
    &&& forall|i: int| 0 <= i < filtered.len() ==> fuzzy_score(#[trigger] filtered[i]@, q) is Some
    &&& forall|i: int, j: int|
        0 <= i < j < filtered.len() ==> fuzzy_score(filtered[i]@, q)->0 >= fuzzy_score(
            filtered[j]@,
            q,
        )->0
}

/// One filtered list fits the query: full and sorted when the query is
/// empty, ranked by score when it is not.
pub open spec fn filtered_fits(filtered: Seq<String>, cands: Seq<String>, q: Seq<char>) -> bool {
    if q.len() == 0 {
        filtered_full(filtered, cands)
    } else {
        filtered_ranked(filtered, cands, q)
    }
}

/// The three filtered lists fit the query, each drawn from the
/// cross-reference index: field names from the field map, schema names
/// from the schema map, endpoint names from the endpoint map's
/// `<METHOD> <path>` keys.
pub open spec fn filters_fit(a: App) -> bool {
    &&& filtered_fits(a.filtered_fields@, key_strings(a.field_index.fields@), a.search_query@)
    &&& filtered_fits(a.filtered_schemas@, key_strings(a.field_index.schemas@), a.search_query@)
    &&& filtered_fits(
        a.filtered_endpoints@,
        key_strings(a.field_index.endpoint_fields@),
        a.search_query@,
    )
}

/// Each cursor stays below the length of its list, and is zero when the
/// list is empty.
pub open spec fn cursors_ok(a: App) -> bool {
    &&& if a.filtered_fields@.len() == 0 {
        a.field_list_state == 0
    } else {
        a.field_list_state < a.filtered_fields@.len()
    }
    &&& if a.filtered_schemas@.len() == 0 {
        a.schema_list_state == 0
    } else {
        a.schema_list_state < a.filtered_schemas@.len()
    }
    &&& if a.filtered_endpoints@.len() == 0 {
        a.endpoint_list_state == 0
    } else {
        a.endpoint_list_state < a.filtered_endpoints@.len()
    }
}

/// A cursor clamped to its list after recomputation.
pub open spec fn clamped(cur: int, old_cur: int, len: int) -> bool {
    if len == 0 {
        cur == 0
    } else if old_cur < len {
        cur == old_cur
    } else {
        cur == len - 1
    }
}

/// The document, index, warnings and source location of two states agree.
pub open spec fn same_data(a: App, b: App) -> bool {
    &&& a.openapi_spec == b.openapi_spec
    &&& a.field_index == b.field_index
    &&& a.validation_warnings == b.validation_warnings
    &&& a.file_path == b.file_path
}

/// The query and the three filtered lists of two states agree.
pub open spec fn same_filters(a: App, b: App) -> bool {
    &&& a.search_query == b.search_query
    &&& a.filtered_fields == b.filtered_fields
    &&& a.filtered_schemas == b.filtered_schemas
    &&& a.filtered_endpoints == b.filtered_endpoints
}

pub open spec fn same_cursors(a: App, b: App) -> bool {
    &&& a.field_list_state == b.field_list_state
    &&& a.schema_list_state == b.schema_list_state
    &&& a.endpoint_list_state == b.endpoint_list_state
}

pub open spec fn same_selection(a: App, b: App) -> bool {
    &&& a.selected_field == b.selected_field
    &&& a.selected_schema == b.selected_schema
    &&& a.selected_endpoint == b.selected_endpoint
    &&& a.selected_endpoint_for_details == b.selected_endpoint_for_details
}

pub open spec fn same_view_flags(a: App, b: App) -> bool {
    &&& a.current_view == b.current_view
    &&& a.current_panel == b.current_panel
    &&& a.should_quit == b.should_quit
    &&& a.show_help == b.show_help
    &&& a.show_endpoint_details == b.show_endpoint_details
}

pub open spec fn same_reload_state(a: App, b: App) -> bool {
    &&& a.should_reload == b.should_reload
    &&& a.reload_error == b.reload_error
    &&& a.is_loading == b.is_loading
    &&& a.loading_message == b.loading_message
}

/// The key strings of an association list, cloned in order.
fn collect_keys_fields(v: &Vec<(String, crate::indexer::FieldData)>) -> (r: Vec<String>)
    ensures
        r@ == key_strings(v@),
{
    let mut r: Vec<String> = Vec::new();
    let mut i: usize = 0;
    while i < v.len()
        invariant
            i <= v@.len(),
            r@.len() == i,
            forall|k: int| 0 <= k < i ==> #[trigger] r@[k] == v@[k].0,
        decreases v@.len() - i,
    {
        r.push(v[i].0.clone());
        i = i + 1;
    }
    proof {
        assert(r@ =~= key_strings(v@));
    }
    r
}

fn collect_keys_schemas(v: &Vec<(String, crate::schema::Schema)>) -> (r: Vec<String>)
    ensures
        r@ == key_strings(v@),
{
    let mut r: Vec<String> = Vec::new();
    let mut i: usize = 0;
    while i < v.len()
        invariant
            i <= v@.len(),
            r@.len() == i,
            forall|k: int| 0 <= k < i ==> #[trigger] r@[k] == v@[k].0,
        decreases v@.len() - i,
    {
        r.push(v[i].0.clone());
        i = i + 1;
    }
    proof {
        assert(r@ =~= key_strings(v@));
    }
    r
}

fn collect_keys_endpoints(v: &Vec<(String, Vec<String>)>) -> (r: Vec<String>)
    ensures
        r@ == key_strings(v@),
{
    let mut r: Vec<String> = Vec::new();
    let mut i: usize = 0;
    while i < v.len()
        invariant
            i <= v@.len(),
            r@.len() == i,
            forall|k: int| 0 <= k < i ==> #[trigger] r@[k] == v@[k].0,
        decreases v@.len() - i,
    {
        r.push(v[i].0.clone());
        i = i + 1;
    }
    proof {
        assert(r@ =~= key_strings(v@));
    }
    r
}

/// The candidates the query matches, ranked by descending score.
fn filter_rank(cands: Vec<String>, query: &str) -> (r: Vec<String>)
    ensures
        filtered_ranked(r@, cands@, query@),
{
    let mut scored: Vec<(String, i64)> = Vec::new();
    let mut i: usize = 0;
    proof {
        assert(cands@.subrange(0, 0) =~= Seq::<String>::empty());
        assert(pair_names(scored@) =~= matching(cands@.subrange(0, 0), query@));
    }
    while i < cands.len()
        invariant
            i <= cands@.len(),
            pair_names(scored@) == matching(cands@.subrange(0, i as int), query@),
            forall|k: int|
                0 <= k < scored@.len() ==> fuzzy_score((#[trigger] scored@[k]).0@, query@)
                    == Option::Some(scored@[k].1),
        decreases cands@.len() - i,
    {
        proof {
            let sub1 = cands@.subrange(0, i + 1 as int);
            assert(sub1.drop_last() =~= cands@.subrange(0, i as int));
            assert(sub1.last() == cands@[i as int]);
        }
        match crate::fuzzy::fuzzy_match_score(cands[i].as_str(), query) {
            Option::Some(sc) => {
                scored.push((cands[i].clone(), sc));
                proof {
                    assert(pair_names(scored@) =~= matching(
                        cands@.subrange(0, i + 1 as int),
                        query@,
                    ));
                }
            },
            Option::None => {
                proof {
                    assert(pair_names(scored@) =~= matching(
                        cands@.subrange(0, i + 1 as int),
                        query@,
                    ));
                }
            },
        }
        i = i + 1;
    }
    proof {
        assert(cands@.subrange(0, cands@.len() as int) =~= cands@);
    }
    let ghost scored0 = scored@;
    let sorted = crate::text::sort_scored(scored);
    proof {
        crate::text::lemma_pairs_multiset_names(sorted@, scored0);
    }
    let mut r: Vec<String> = Vec::new();
    let mut k: usize = 0;
    while k < sorted.len()
        invariant
            k <= sorted@.len(),
            r@.len() == k,
            forall|t: int| 0 <= t < k ==> #[trigger] r@[t] == sorted@[t].0,
        decreases sorted@.len() - k,
    {
        r.push(sorted[k].0.clone());
        k = k + 1;
    }
    proof {
        assert(r@ =~= pair_names(sorted@));
        sorted@.to_multiset_ensures();
        scored0.to_multiset_ensures();
        assert forall|t: int| 0 <= t < sorted@.len() implies fuzzy_score(
            (#[trigger] sorted@[t]).0@,
            query@,
        ) == Option::Some(sorted@[t].1) by {
            assert(sorted@.contains(sorted@[t]));
            assert(sorted@.to_multiset().count(sorted@[t]) > 0);
            assert(scored0.to_multiset().count(sorted@[t]) > 0);
            assert(scored0.contains(sorted@[t]));
            let m = choose|m: int| 0 <= m < scored0.len() && scored0[m] == sorted@[t];
            assert(fuzzy_score(scored0[m].0@, query@) == Option::Some(scored0[m].1));
        }
        assert(filtered_ranked(r@, cands@, query@)) by {
            assert(r@.to_multiset() == matching(cands@, query@).to_multiset());
            assert forall|t: int| 0 <= t < r@.len() implies fuzzy_score(
                #[trigger] r@[t]@,
                query@,
            ) is Some by {
                assert(r@[t] == sorted@[t].0);
            }
            assert forall|x: int, y: int| 0 <= x < y < r@.len() implies fuzzy_score(
                r@[x]@,
                query@,
            )->0 >= fuzzy_score(r@[y]@, query@)->0 by {
                assert(sorted@[x].1 >= sorted@[y].1);
                assert(fuzzy_score(r@[x]@, query@) == Option::Some(sorted@[x].1));
                assert(fuzzy_score(r@[y]@, query@) == Option::Some(sorted@[y].1));
            }
        }
    }
    r
}

impl App {
    /// Filter recomputation: the three lists are rebuilt from the index
    /// for the current query, and each cursor is clamped to its list.
    /// Nothing else changes.
    pub fn update_filters(&mut self)
        ensures
            update_filters_rel(*old(self), *final(self)),
    {
        let field_keys = collect_keys_fields(&self.field_index.fields);
        let schema_keys = collect_keys_schemas(&self.field_index.schemas);
        let endpoint_keys = collect_keys_endpoints(&self.field_index.endpoint_fields);
        if self.search_query.as_str().is_empty() {
            self.filtered_fields = crate::text::sort_names(field_keys);
            self.filtered_schemas = crate::text::sort_names(schema_keys);
            self.filtered_endpoints = crate::text::sort_names(endpoint_keys);
        } else {
            let q = self.search_query.clone();
            self.filtered_fields = filter_rank(field_keys, q.as_str());
            self.filtered_schemas = filter_rank(schema_keys, q.as_str());
            self.filtered_endpoints = filter_rank(endpoint_keys, q.as_str());
        }
        if self.filtered_fields.len() > 0 {
            if self.field_list_state >= self.filtered_fields.len() {
                self.field_list_state = self.filtered_fields.len() - 1;
            }
        } else {
            self.field_list_state = 0;
        }
        if self.filtered_schemas.len() > 0 {
            if self.schema_list_state >= self.filtered_schemas.len() {
                self.schema_list_state = self.filtered_schemas.len() - 1;
            }
        } else {
            self.schema_list_state = 0;
        }
        if self.filtered_endpoints.len() > 0 {
            if self.endpoint_list_state >= self.filtered_endpoints.len() {
                self.endpoint_list_state = self.filtered_endpoints.len() - 1;
            }
        } else {
            self.endpoint_list_state = 0;
        }
    }

    /// A fresh state over a document and its index: fields view, left
    /// panel, empty query, filters computed, warnings computed, nothing
    /// selected, no reload pending.
    pub fn new(openapi_spec: OpenApiSpec, field_index: FieldIndex, file_path: Option<String>) -> (r:
        App)
        ensures
            r.openapi_spec == openapi_spec,
            r.field_index == field_index,
            r.file_path == file_path,
            r.current_view == ViewMode::Fields,
            r.current_panel == Panel::Left,
            r.selected_field is None,
            r.selected_schema is None,
            r.selected_endpoint is None,
            r.selected_endpoint_for_details is None,
            r.search_query@ == Seq::<char>::empty(),
            filters_fit(r),
            cursors_ok(r),
            r.field_list_state == 0,
            r.schema_list_state == 0,
            r.endpoint_list_state == 0,
            !r.should_quit,
            !r.show_help,
            !r.show_endpoint_details,
            !r.should_reload,
            r.reload_error is None,
            !r.is_loading,
            r.loading_message@ == Seq::<char>::empty(),
            names_view(r.validation_warnings@) == crate::validate::spec_warnings(
                openapi_spec.model(),
                field_index.model(),
            ),
    {
        let mut app = App {
            openapi_spec,
            field_index,
            current_view: ViewMode::Fields,
            current_panel: Panel::Left,
            selected_field: Option::None,
            selected_schema: Option::None,
            selected_endpoint: Option::None,
            search_query: String::new(),
            filtered_fields: Vec::new(),
            filtered_schemas: Vec::new(),
            filtered_endpoints: Vec::new(),
            should_quit: false,
            show_help: false,
            show_endpoint_details: false,
            selected_endpoint_for_details: Option::None,
            field_list_state: 0,
            schema_list_state: 0,
            endpoint_list_state: 0,
            file_path,
            should_reload: false,
            reload_error: Option::None,
            is_loading: false,
            loading_message: String::new(),
            validation_warnings: Vec::new(),
        };
        app.update_filters();
        app.validate_spec();
        app
    }

    /// The warnings recomputed from the current document and index;
    /// nothing else changes.
    pub fn validate_spec(&mut self)
        ensures
            names_view(final(self).validation_warnings@) == crate::validate::spec_warnings(
                old(self).openapi_spec.model(),
                old(self).field_index.model(),
            ),
            final(self).openapi_spec == old(self).openapi_spec,
            final(self).field_index == old(self).field_index,
            final(self).file_path == old(self).file_path,
            same_filters(*final(self), *old(self)),
            same_cursors(*final(self), *old(self)),
            same_selection(*final(self), *old(self)),
            same_view_flags(*final(self), *old(self)),
            same_reload_state(*final(self), *old(self)),
    {
        self.validation_warnings = crate::validate::compute_validation_warnings(
            &self.openapi_spec,
            &self.field_index,
        );
    }

    /// Everything shown about one field, or nothing for an unknown name.
    pub fn get_field_info(&self, field_name: &str) -> (r: Option<FieldInfo>)
        ensures
            match assoc_lookup(self.field_index.model().fields, field_name@) {
                Option::Some(fd) => r matches Option::Some(info) && info.name@ == field_name@
                    && info.field_type@ == fd.field_type && crate::schema::opt_view(
                    info.description,
                ) == fd.description && names_view(info.schemas@) == fd.schemas && names_view(
                    info.endpoints@,
                ) == fd.endpoints && info.is_critical == spec_is_critical(
                    self.field_index.model(),
                    field_name@,
                ),
                Option::None => r is None,
            },
    {
        let ghost m = self.field_index.model();
        match self.field_index.find_field(field_name) {
            Option::Some(idx) => {
                let fd = &self.field_index.fields[idx].1;
                let endpoints = self.field_index.get_endpoints_for_field(field_name);
                let is_critical = self.field_index.is_critical_field(field_name);
                let mut name = String::new();
                name.append(field_name);
                proof {
                    assert(name@ =~= field_name@);
                }
                Option::Some(
                    FieldInfo {
                        name,
                        field_type: fd.field_type.clone(),
                        description: crate::schema::clone_opt_string(&fd.description),
                        schemas: crate::schema::clone_string_vec(&fd.schemas),
                        endpoints,
                        is_critical,
                    },
                )
            },
            Option::None => Option::None,
        }
    }

    /// The next panel, cycling left, center, right.
    pub fn next_panel(&mut self)
        ensures
            final(self).current_panel == (match old(self).current_panel {
                Panel::Left => Panel::Center,
                Panel::Center => Panel::Right,
                Panel::Right => Panel::Left,
            }),
            same_data(*final(self), *old(self)),
            same_filters(*final(self), *old(self)),
            same_cursors(*final(self), *old(self)),
            same_selection(*final(self), *old(self)),
            same_reload_state(*final(self), *old(self)),
            final(self).current_view == old(self).current_view,
            final(self).should_quit == old(self).should_quit,
            final(self).show_help == old(self).show_help,
            final(self).show_endpoint_details == old(self).show_endpoint_details,
    {
        self.current_panel = match self.current_panel {
            Panel::Left => Panel::Center,
            Panel::Center => Panel::Right,
            Panel::Right => Panel::Left,
        };
    }

    /// A view change clears the three selected names and keeps the
    /// filters and cursors.
    pub fn set_view(&mut self, view: ViewMode)
        ensures
            final(self).current_view == view,
            final(self).selected_field is None,
            final(self).selected_schema is None,
            final(self).selected_endpoint is None,
            final(self).selected_endpoint_for_details == old(self).selected_endpoint_for_details,
            same_data(*final(self), *old(self)),
            same_filters(*final(self), *old(self)),
            same_cursors(*final(self), *old(self)),
            same_reload_state(*final(self), *old(self)),
            final(self).current_panel == old(self).current_panel,
            final(self).should_quit == old(self).should_quit,
            final(self).show_help == old(self).show_help,
            final(self).show_endpoint_details == old(self).show_endpoint_details,
    {
        self.current_view = view;
        self.selected_field = Option::None;
        self.selected_schema = Option::None;
        self.selected_endpoint = Option::None;
    }
}

/// How many endpoint keys the currently selected field carries.
pub open spec fn selected_field_endpoints_len(a: App) -> int {
    match a.selected_field {
        Option::Some(f) => match assoc_lookup(a.field_index.model().fields, f@) {
            Option::Some(fd) => fd.endpoints.len() as int,
            Option::None => 0,
        },
        Option::None => 0,
    }
}

/// With an empty query, every filtered list is its full candidate list
/// in ascending name order: whatever edits came before, the moment the
/// query is empty after a recomputation, the three lists hold exactly
/// the field keys, the schema keys and the path keys, sorted.
pub proof fn lemma_empty_query_full_lists(a: App)
    requires
        filters_fit(a),
        a.search_query@.len() == 0,
    ensures
        names_sorted(a.filtered_fields@),
        a.filtered_fields@.to_multiset() == key_strings(a.field_index.fields@).to_multiset(),
        names_sorted(a.filtered_schemas@),
        a.filtered_schemas@.to_multiset() == key_strings(a.field_index.schemas@).to_multiset(),
        names_sorted(a.filtered_endpoints@),
        a.filtered_endpoints@.to_multiset() == key_strings(
            a.field_index.endpoint_fields@,
        ).to_multiset(),
{
}

/// The cursor bounds invariant, spelled out: after any recomputation a
/// cursor never exceeds the last index of its list, and is exactly zero
/// while its list is empty.
pub proof fn lemma_cursor_bounds(a: App)
    requires
        cursors_ok(a),
    ensures
        a.filtered_fields@.len() > 0 ==> a.field_list_state <= a.filtered_fields@.len() - 1,
        a.filtered_fields@.len() == 0 ==> a.field_list_state == 0,
        a.filtered_schemas@.len() > 0 ==> a.schema_list_state <= a.filtered_schemas@.len() - 1,
        a.filtered_schemas@.len() == 0 ==> a.schema_list_state == 0,
        a.filtered_endpoints@.len() > 0 ==> a.endpoint_list_state <= a.filtered_endpoints@.len()
            - 1,
        a.filtered_endpoints@.len() == 0 ==> a.endpoint_list_state == 0,
{
}

/// A key that ends the session.
pub open spec fn quit_key(key: Key) -> bool {
    key == Key::Char('q') || key == Key::Ctrl('q') || key == Key::Ctrl('c')
}

/// A character the state machine binds to a fixed action rather than to
/// the query.
pub open spec fn nav_bound_char(c: char) -> bool {
    c == 'q' || c == '/' || c == 'h' || c == 'r' || ('1' <= c && c <= '5')
}

/// The view a digit key selects.
pub open spec fn digit_view(c: char) -> ViewMode {
    if c == '1' {
        ViewMode::Fields
    } else if c == '2' {
        ViewMode::Schemas
    } else if c == '3' {
        ViewMode::Endpoints
    } else if c == '4' {
        ViewMode::Graph
    } else {
        ViewMode::Stats
    }
}

/// Two states that agree everywhere.
pub open spec fn unchanged_state(o: App, n: App) -> bool {
    &&& same_data(n, o)
    &&& same_filters(n, o)
    &&& same_cursors(n, o)
    &&& same_selection(n, o)
    &&& same_view_flags(n, o)
    &&& same_reload_state(n, o)
}

/// One step up: the active panel's cursor falls by one, stopping at
/// zero; nothing else moves.
pub open spec fn navigate_up_rel(o: App, n: App) -> bool {
    &&& same_data(n, o)
    &&& same_filters(n, o)
    &&& same_selection(n, o)
    &&& same_view_flags(n, o)
    &&& same_reload_state(n, o)
    &&& n.field_list_state == (if o.current_panel == Panel::Left && o.current_view
        == ViewMode::Fields && o.field_list_state > 0 {
        o.field_list_state - 1
    } else {
        o.field_list_state as int
    })
    &&& n.schema_list_state == (if o.current_panel == Panel::Left && o.current_view
        == ViewMode::Schemas && o.schema_list_state > 0 {
        o.schema_list_state - 1
    } else {
        o.schema_list_state as int
    })
    &&& n.endpoint_list_state == (if o.current_panel == Panel::Left && o.current_view
        == ViewMode::Endpoints && o.endpoint_list_state > 0 {
        o.endpoint_list_state - 1
    } else if o.current_panel == Panel::Right && o.selected_field is Some
        && o.endpoint_list_state > 0 && selected_field_endpoints_len(o) > 0 {
        o.endpoint_list_state - 1
    } else {
        o.endpoint_list_state as int
    })
}

/// One step down: the active panel's cursor rises by one, stopping at
/// the end of its list; nothing else moves.
pub open spec fn navigate_down_rel(o: App, n: App) -> bool {
    &&& same_data(n, o)
    &&& same_filters(n, o)
    &&& same_selection(n, o)
    &&& same_view_flags(n, o)
    &&& same_reload_state(n, o)
    &&& n.field_list_state == (if o.current_panel == Panel::Left && o.current_view
        == ViewMode::Fields && o.field_list_state + 1 < o.filtered_fields@.len() {
        o.field_list_state + 1
    } else {
        o.field_list_state as int
    })
    &&& n.schema_list_state == (if o.current_panel == Panel::Left && o.current_view
        == ViewMode::Schemas && o.schema_list_state + 1 < o.filtered_schemas@.len() {
        o.schema_list_state + 1
    } else {
        o.schema_list_state as int
    })
    &&& n.endpoint_list_state == (if o.current_panel == Panel::Left && o.current_view
        == ViewMode::Endpoints && o.endpoint_list_state + 1 < o.filtered_endpoints@.len() {
        o.endpoint_list_state + 1
    } else if o.current_panel == Panel::Right && o.selected_field is Some
        && selected_field_endpoints_len(o) > 0 && o.endpoint_list_state + 1
        < selected_field_endpoints_len(o) {
        o.endpoint_list_state + 1
    } else {
        o.endpoint_list_state as int
    })
}

/// Selection under the cursor: the active view's name is selected (a
/// field selection restarts the endpoint sub-navigation); in the right
/// panel the endpoint under the cursor opens its details.
pub open spec fn select_rel(o: App, n: App) -> bool {
    &&& same_data(n, o)
    &&& same_filters(n, o)
    &&& same_reload_state(n, o)
    &&& n.current_view == o.current_view
    &&& n.current_panel == o.current_panel
    &&& n.should_quit == o.should_quit
    &&& n.show_help == o.show_help
    &&& n.field_list_state == o.field_list_state
    &&& n.schema_list_state == o.schema_list_state
    &&& (if o.current_panel == Panel::Left && o.current_view == ViewMode::Fields
        && o.field_list_state < o.filtered_fields@.len() {
        (n.selected_field matches Option::Some(s) && s@ == o.filtered_fields@[
            o.field_list_state as int]@) && n.endpoint_list_state == 0
    } else {
        n.selected_field == o.selected_field && n.endpoint_list_state == o.endpoint_list_state
    })
    &&& (if o.current_panel == Panel::Left && o.current_view == ViewMode::Schemas
        && o.schema_list_state < o.filtered_schemas@.len() {
        n.selected_schema matches Option::Some(s) && s@ == o.filtered_schemas@[
            o.schema_list_state as int]@
    } else {
        n.selected_schema == o.selected_schema
    })
    &&& (if o.current_panel == Panel::Left && o.current_view == ViewMode::Endpoints
        && o.endpoint_list_state < o.filtered_endpoints@.len() {
        n.selected_endpoint matches Option::Some(s) && s@ == o.filtered_endpoints@[
            o.endpoint_list_state as int]@
    } else {
        n.selected_endpoint == o.selected_endpoint
    })
    &&& (if o.current_panel == Panel::Right && o.selected_field is Some
        && o.endpoint_list_state < selected_field_endpoints_len(o) {
        (n.selected_endpoint_for_details matches Option::Some(s) && (match assoc_lookup(
            o.field_index.model().fields,
            o.selected_field->0@,
        ) {
            Option::Some(fd) => s@ == fd.endpoints[o.endpoint_list_state as int],
            Option::None => false,
        })) && n.show_endpoint_details
    } else {
        n.selected_endpoint_for_details == o.selected_endpoint_for_details
            && n.show_endpoint_details == o.show_endpoint_details
    })
}

/// Filter recomputation: the lists fit the query and each cursor is
/// clamped; the data, query, selections, flags and reload state stay.
pub open spec fn update_filters_rel(o: App, n: App) -> bool {
    &&& filters_fit(n)
    &&& cursors_ok(n)
    &&& clamped(
        n.field_list_state as int,
        o.field_list_state as int,
        n.filtered_fields@.len() as int,
    )
    &&& clamped(
        n.schema_list_state as int,
        o.schema_list_state as int,
        n.filtered_schemas@.len() as int,
    )
    &&& clamped(
        n.endpoint_list_state as int,
        o.endpoint_list_state as int,
        n.filtered_endpoints@.len() as int,
    )
    &&& same_data(n, o)
    &&& n.search_query == o.search_query
    &&& same_selection(n, o)
    &&& same_view_flags(n, o)
    &&& same_reload_state(n, o)
}

impl App {
    /// One step up in the active panel's list, stopping at the top.
    pub fn navigate_up(&mut self)
        ensures
            navigate_up_rel(*old(self), *final(self)),
            cursors_ok(*old(self)) ==> cursors_ok(*final(self)),
    {
        match self.current_panel {
            Panel::Left => {
                match self.current_view {
                    ViewMode::Fields => {
                        if self.field_list_state > 0 {
                            self.field_list_state = self.field_list_state - 1;
                        }
                    },
                    ViewMode::Schemas => {
                        if self.schema_list_state > 0 {
                            self.schema_list_state = self.schema_list_state - 1;
                        }
                    },
                    ViewMode::Endpoints => {
                        if self.endpoint_list_state > 0 {
                            self.endpoint_list_state = self.endpoint_list_state - 1;
                        }
                    },
                    _ => {},
                }
            },
            Panel::Right => {
                match &self.selected_field {
                    Option::Some(sf) => {
                        let endpoints = self.field_index.get_endpoints_for_field(sf.as_str());
                        if self.endpoint_list_state > 0 && endpoints.len() > 0 {
                            self.endpoint_list_state = self.endpoint_list_state - 1;
                        }
                    },
                    Option::None => {},
                }
            },
            _ => {},
        }
    }

    /// One step down in the active panel's list, stopping at the end.
    pub fn navigate_down(&mut self)
        ensures
            navigate_down_rel(*old(self), *final(self)),
            cursors_ok(*old(self)) && old(self).current_panel == Panel::Left ==> cursors_ok(
                *final(self),
            ),
    {
        match self.current_panel {
            Panel::Left => {
                match self.current_view {
                    ViewMode::Fields => {
                        if self.filtered_fields.len() > 0 && self.field_list_state
                            < self.filtered_fields.len() - 1 {
                            self.field_list_state = self.field_list_state + 1;
                        }
                    },
                    ViewMode::Schemas => {
                        if self.filtered_schemas.len() > 0 && self.schema_list_state
                            < self.filtered_schemas.len() - 1 {
                            self.schema_list_state = self.schema_list_state + 1;
                        }
                    },
                    ViewMode::Endpoints => {
                        if self.filtered_endpoints.len() > 0 && self.endpoint_list_state
                            < self.filtered_endpoints.len() - 1 {
                            self.endpoint_list_state = self.endpoint_list_state + 1;
                        }
                    },
                    _ => {},
                }
            },
            Panel::Right => {
                match &self.selected_field {
                    Option::Some(sf) => {
                        let endpoints = self.field_index.get_endpoints_for_field(sf.as_str());
                        if endpoints.len() > 0 && self.endpoint_list_state < endpoints.len() - 1 {
                            self.endpoint_list_state = self.endpoint_list_state + 1;
                        }
                    },
                    Option::None => {},
                }
            },
            _ => {},
        }
    }

    /// Selection of the item under the cursor: in the left panel it
    /// names the current view's item (a field selection restarts the
    /// endpoint sub-navigation); in the right panel it opens the
    /// details of the selected field's endpoint under the cursor.
    pub fn select_current_item(&mut self)
        ensures
            select_rel(*old(self), *final(self)),
    {
        match self.current_panel {
            Panel::Left => {
                match self.current_view {
                    ViewMode::Fields => {
                        if self.field_list_state < self.filtered_fields.len() {
                            self.selected_field = Option::Some(
                                self.filtered_fields[self.field_list_state].clone(),
                            );
                            self.endpoint_list_state = 0;
                        }
                    },
                    ViewMode::Schemas => {
                        if self.schema_list_state < self.filtered_schemas.len() {
                            self.selected_schema = Option::Some(
                                self.filtered_schemas[self.schema_list_state].clone(),
                            );
                        }
                    },
                    ViewMode::Endpoints => {
                        if self.endpoint_list_state < self.filtered_endpoints.len() {
                            self.selected_endpoint = Option::Some(
                                self.filtered_endpoints[self.endpoint_list_state].clone(),
                            );
                        }
                    },
                    _ => {},
                }
            },
            Panel::Right => {
                match &self.selected_field {
                    Option::Some(sf) => {
                        let endpoints = self.field_index.get_endpoints_for_field(sf.as_str());
                        if self.endpoint_list_state < endpoints.len() {
                            self.selected_endpoint_for_details = Option::Some(
                                endpoints[self.endpoint_list_state].clone(),
                            );
                            self.show_endpoint_details = true;
                        }
                    },
                    Option::None => {},
                }
            },
            _ => {},
        }
    }

    /// A reload request: noted, with the loading indicator set.
    pub fn request_reload(&mut self)
        ensures
            final(self).should_reload,
            final(self).is_loading,
            final(self).loading_message@ == "Reloading OpenAPI specification..."@,
            final(self).reload_error == old(self).reload_error,
            same_data(*final(self), *old(self)),
            same_filters(*final(self), *old(self)),
            same_cursors(*final(self), *old(self)),
            same_selection(*final(self), *old(self)),
            same_view_flags(*final(self), *old(self)),
    {
        self.should_reload = true;
        self.is_loading = true;
        self.loading_message = String::from_str("Reloading OpenAPI specification...");
    }

    /// The first half of a reload: with a known source location, hand it
    /// back for the caller to fetch and note the loading state; without
    /// one, record the error and change nothing else.
    pub fn begin_reload(&mut self) -> (r: Option<String>)
        ensures
            match old(self).file_path {
                Option::Some(p) => r matches Option::Some(q) && q@ == p@ && final(self).is_loading
                    && final(self).loading_message@ == "Parsing "@ + p@ + "..."@ && final(self).reload_error == old(self).reload_error,
                Option::None => r is None && (final(self).reload_error matches Option::Some(m)
                    && m@ == "No file path available for reload"@) && !final(self).is_loading
                    && final(self).loading_message@ == Seq::<char>::empty(),
            },
            same_data(*final(self), *old(self)),
            same_filters(*final(self), *old(self)),
            same_cursors(*final(self), *old(self)),
            same_selection(*final(self), *old(self)),
            same_view_flags(*final(self), *old(self)),
            final(self).should_reload == old(self).should_reload,
    {
        match &self.file_path {
            Option::Some(p) => {
                let path = p.clone();
                self.is_loading = true;
                let msg = String::from_str("Parsing ").concat(path.as_str()).concat("...");
                self.loading_message = msg;
                Option::Some(path)
            },
            Option::None => {
                self.reload_error = Option::Some(
                    String::from_str("No file path available for reload"),
                );
                self.is_loading = false;
                self.loading_message = String::new();
                Option::None
            },
        }
    }

    /// A successful reload: the fetched document is resolved, indexed
    /// and swapped in wholesale with its index, the filters and
    /// warnings are recomputed, and the loading state and error are
    /// cleared. The view, panel, selections and source location
    /// survive. Resolution is part of the swap, so no caller can feed
    /// the index an unresolved document.
    pub fn apply_reload_success(&mut self, new_spec: OpenApiSpec)
        ensures
            final(self).openapi_spec.model() == crate::resolve::resolve_document_model(
                new_spec.model(),
            ),
            final(self).field_index.model() == crate::indexer::spec_build_index(
                crate::resolve::resolve_document_model(new_spec.model()),
            ),
            filters_fit(*final(self)),
            cursors_ok(*final(self)),
            names_view(final(self).validation_warnings@) == crate::validate::spec_warnings(
                crate::resolve::resolve_document_model(new_spec.model()),
                final(self).field_index.model(),
            ),
            final(self).reload_error is None,
            !final(self).is_loading,
            final(self).loading_message@ == Seq::<char>::empty(),
            final(self).file_path == old(self).file_path,
            final(self).search_query == old(self).search_query,
            same_selection(*final(self), *old(self)),
            final(self).current_view == old(self).current_view,
            final(self).current_panel == old(self).current_panel,
            final(self).should_quit == old(self).should_quit,
            final(self).show_help == old(self).show_help,
            final(self).show_endpoint_details == old(self).show_endpoint_details,
            final(self).should_reload == old(self).should_reload,
    {
        self.openapi_spec = new_spec;
        crate::resolve::resolve_references(&mut self.openapi_spec);
        self.field_index = crate::indexer::build_field_index(&self.openapi_spec);
        self.update_filters();
        self.validate_spec();
        self.reload_error = Option::None;
        self.is_loading = false;
        self.loading_message = String::new();
    }

    /// One key applied to the whole state, as the interface loop does:
    /// quit keys raise the quit flag; tab cycles the panel; `/` clears
    /// the query; `h` toggles the help; digits change the view; `r`
    /// requests a reload; escape closes the popups and dismisses a
    /// reload error; a printable character extends the query (only once
    /// a query is present, as the key handler has it) and backspace
    /// shortens it, both recomputing the filters; the arrows and enter
    /// drive the navigation while the help is closed.
    pub fn apply_key(&mut self, key: Key)
        ensures
            quit_key(key) ==> final(self).should_quit && same_data(*final(self), *old(self))
                && same_filters(*final(self), *old(self)) && same_cursors(
                *final(self),
                *old(self),
            ) && same_selection(*final(self), *old(self)) && same_reload_state(
                *final(self),
                *old(self),
            ) && final(self).current_view == old(self).current_view && final(self).current_panel
                == old(self).current_panel && final(self).show_help == old(self).show_help
                && final(self).show_endpoint_details == old(self).show_endpoint_details,
            key == Key::Tab ==> final(self).current_panel == (match old(self).current_panel {
                Panel::Left => Panel::Center,
                Panel::Center => Panel::Right,
                Panel::Right => Panel::Left,
            }) && same_data(*final(self), *old(self)) && same_filters(*final(self), *old(self))
                && same_cursors(*final(self), *old(self)) && same_selection(
                *final(self),
                *old(self),
            ) && same_reload_state(*final(self), *old(self)) && final(self).current_view == old(self).current_view && final(self).should_quit == old(self).should_quit && final(self).show_help == old(self).show_help && final(self).show_endpoint_details == old(self).show_endpoint_details,
            key == Key::Char('/') ==> final(self).search_query@ == Seq::<char>::empty()
                && filters_fit(*final(self)) && cursors_ok(*final(self)) && same_data(
                *final(self),
                *old(self),
            ) && same_selection(*final(self), *old(self)) && same_view_flags(
                *final(self),
                *old(self),
            ) && same_reload_state(*final(self), *old(self)),
            key == Key::Char('h') ==> final(self).show_help == !old(self).show_help && same_data(
                *final(self),
                *old(self),
            ) && same_filters(*final(self), *old(self)) && same_cursors(*final(self), *old(self))
                && same_selection(*final(self), *old(self)) && same_reload_state(
                *final(self),
                *old(self),
            ) && final(self).current_view == old(self).current_view && final(self).current_panel
                == old(self).current_panel && final(self).should_quit == old(self).should_quit
                && final(self).show_endpoint_details == old(self).show_endpoint_details,
            forall|c: char|
                key == Key::Char(c) && '1' <= c && c <= '5' ==> final(self).current_view
                    == digit_view(c) && final(self).selected_field is None && final(self).selected_schema is None && final(self).selected_endpoint is None && final(self).selected_endpoint_for_details == old(self).selected_endpoint_for_details
                    && same_data(*final(self), *old(self)) && same_filters(*final(self), *old(self))
                    && same_cursors(*final(self), *old(self)) && same_reload_state(
                    *final(self),
                    *old(self),
                ) && final(self).current_panel == old(self).current_panel && final(self).should_quit
                    == old(self).should_quit && final(self).show_help == old(self).show_help
                    && final(self).show_endpoint_details == old(self).show_endpoint_details,
            key == Key::Char('r') ==> final(self).should_reload && final(self).is_loading && final(self).loading_message@ == "Reloading OpenAPI specification..."@ && final(self).reload_error
                == old(self).reload_error && same_data(*final(self), *old(self)) && same_filters(
                *final(self),
                *old(self),
            ) && same_cursors(*final(self), *old(self)) && same_selection(*final(self), *old(self))
                && same_view_flags(*final(self), *old(self)),
            key == Key::Esc ==> !final(self).show_help && !final(self).show_endpoint_details
                && final(self).selected_endpoint_for_details is None && final(self).reload_error
                is None && same_data(*final(self), *old(self)) && same_filters(
                *final(self),
                *old(self),
            ) && same_cursors(*final(self), *old(self)) && final(self).selected_field == old(self).selected_field && final(self).selected_schema == old(self).selected_schema && final(self).selected_endpoint == old(self).selected_endpoint && final(self).current_view == old(self).current_view && final(self).current_panel == old(self).current_panel && final(self).should_quit == old(self).should_quit && final(self).should_reload == old(self).should_reload && final(self).is_loading == old(self).is_loading && final(self).loading_message == old(self).loading_message,
            forall|c: char|
                key == Key::Char(c) && !nav_bound_char(c) ==> if old(self).search_query@.len()
                    > 0 {
                    final(self).search_query@ == old(self).search_query@.push(c) && filters_fit(
                        *final(self),
                    ) && cursors_ok(*final(self)) && same_data(*final(self), *old(self))
                        && same_selection(*final(self), *old(self)) && same_view_flags(
                        *final(self),
                        *old(self),
                    ) && same_reload_state(*final(self), *old(self))
                } else {
                    unchanged_state(*old(self), *final(self))
                },
            key == Key::Backspace ==> if old(self).search_query@.len() > 0 {
                final(self).search_query@ == old(self).search_query@.drop_last() && filters_fit(
                    *final(self),
                ) && cursors_ok(*final(self)) && same_data(*final(self), *old(self))
                    && same_selection(*final(self), *old(self)) && same_view_flags(
                    *final(self),
                    *old(self),
                ) && same_reload_state(*final(self), *old(self))
            } else {
                unchanged_state(*old(self), *final(self))
            },
            key == Key::Up ==> if old(self).show_help {
                unchanged_state(*old(self), *final(self))
            } else {
                navigate_up_rel(*old(self), *final(self))
            },
            key == Key::Down ==> if old(self).show_help {
                unchanged_state(*old(self), *final(self))
            } else {
                navigate_down_rel(*old(self), *final(self))
            },
            key == Key::Enter ==> if old(self).show_help {
                unchanged_state(*old(self), *final(self))
            } else {
                select_rel(*old(self), *final(self))
            },
            (key == Key::Left || key == Key::Right || key == Key::BackTab || key == Key::Other)
                ==> unchanged_state(*old(self), *final(self)),
    {
        match key {
            Key::Ctrl(c) => {
                if c == 'q' || c == 'c' {
                    self.should_quit = true;
                }
            },
            Key::Char(c) => {
                if c == 'q' {
                    self.should_quit = true;
                } else if c == '/' {
                    self.search_query = String::new();
                    self.update_filters();
                } else if c == 'h' {
                    self.show_help = !self.show_help;
                } else if c == '1' {
                    self.set_view(ViewMode::Fields);
                } else if c == '2' {
                    self.set_view(ViewMode::Schemas);
                } else if c == '3' {
                    self.set_view(ViewMode::Endpoints);
                } else if c == '4' {
                    self.set_view(ViewMode::Graph);
                } else if c == '5' {
                    self.set_view(ViewMode::Stats);
                } else if c == 'r' {
                    self.request_reload();
                } else {
                    if !self.search_query.as_str().is_empty() {
                        crate::text::push_char(&mut self.search_query, c);
                        self.update_filters();
                    }
                }
            },
            Key::Tab => {
                self.next_panel();
            },
            Key::Esc => {
                self.show_help = false;
                self.show_endpoint_details = false;
                self.selected_endpoint_for_details = Option::None;
                self.reload_error = Option::None;
            },
            Key::Up => {
                if !self.show_help {
                    self.navigate_up();
                }
            },
            Key::Down => {
                if !self.show_help {
                    self.navigate_down();
                }
            },
            Key::Enter => {
                if !self.show_help {
                    self.select_current_item();
                }
            },
            Key::Backspace => {
                if !self.search_query.as_str().is_empty() {
                    let shorter = crate::text::drop_last_char(self.search_query.as_str());
                    self.search_query = shorter;
                    self.update_filters();
                }
            },
            _ => {},
        }
    }

    /// A failed reload: the error is recorded for display and the
    /// loading state cleared; the document, index, filters, cursors and
    /// every selection stay exactly as they were.
    pub fn apply_reload_failure(&mut self, error: String)
        ensures
            final(self).reload_error matches Option::Some(m) && m@ == "Failed to reload: "@
                + error@,
            !final(self).is_loading,
            final(self).loading_message@ == Seq::<char>::empty(),
            same_data(*final(self), *old(self)),
            same_filters(*final(self), *old(self)),
            same_cursors(*final(self), *old(self)),
            same_selection(*final(self), *old(self)),
            same_view_flags(*final(self), *old(self)),
            final(self).should_reload == old(self).should_reload,
    {
        let msg = String::from_str("Failed to reload: ").concat(error.as_str());
        self.reload_error = Option::Some(msg);
        self.is_loading = false;
        self.loading_message = String::new();
    }
}

} // verus!
