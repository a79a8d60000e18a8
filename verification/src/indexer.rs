//! The cross-reference index: field -> owning schemas and referencing
//! endpoints, schema -> stored definition, endpoint -> field occurrences.
//!
//! The index is built in two passes. The schema pass walks the named
//! schemas in document order and creates one entry per field name on
//! first sight (its type and description taken from the first schema
//! that declares the property directly, the type defaulting to
//! `unknown`), accumulating the owning schema names. The endpoint pass
//! walks every operation, records the field names its parameter,
//! request-body and response schemas reach (duplicates kept), and adds
//! the endpoint key to every field the schema pass created; a field seen
//! only in endpoints gets no entry of its own.
//!
//! The extractor is not reference-aware: the index expects a document
//! whose references were resolved beforehand.

use vstd::prelude::*;
use crate::assoc::{
    assoc_lookup, assoc_update, lemma_assoc_match_at, lemma_assoc_no_match, lemma_assoc_update_at,
};
use crate::schema::{
    Schema, SchemaModel, model_props, lemma_model_props, spec_field_names, spec_field_type,
    spec_field_description, names_view, clone_props, clone_string_vec, clone_opt_string, opt_view,
};
use crate::document::{
    OpenApiSpec, DocumentModel, OperationModel, ParameterModel, MediaTypeModel, PathItemModel,
    doc_schema_entries, model_paths, model_operations, model_params, model_media, model_responses,
};
use crate::text::{upper_seq, contains_ci};

verus! {

/// What the index keeps per field name.
pub struct FieldData {
    pub field_type: String,
    pub description: Option<String>,
    pub schemas: Vec<String>,
    pub endpoints: Vec<String>,
}

pub ghost struct FieldDataModel {
    pub field_type: Seq<char>,
    pub description: Option<Seq<char>>,
    pub schemas: Seq<Seq<char>>,
    pub endpoints: Seq<Seq<char>>,
}

impl FieldData {
    pub open spec fn model(self) -> FieldDataModel {
        FieldDataModel {
            field_type: self.field_type@,
            description: opt_view(self.description),
            schemas: names_view(self.schemas@),
            endpoints: names_view(self.endpoints@),
        }
    }
}

/// The three-way cross-reference index.
pub struct FieldIndex {
    pub fields: Vec<(String, FieldData)>,
    pub schemas: Vec<(String, Schema)>,
    pub endpoint_fields: Vec<(String, Vec<String>)>,
}

pub ghost struct FieldIndexModel {
    pub fields: Seq<(Seq<char>, FieldDataModel)>,
    pub schemas: Seq<(Seq<char>, SchemaModel)>,
    pub endpoint_fields: Seq<(Seq<char>, Seq<Seq<char>>)>,
}

pub open spec fn model_fields(fs: Seq<(String, FieldData)>) -> Seq<(Seq<char>, FieldDataModel)> {
    Seq::new(fs.len(), |i: int| (fs[i].0@, fs[i].1.model()))
}

pub open spec fn model_endpoint_fields(efs: Seq<(String, Vec<String>)>) -> Seq<
    (Seq<char>, Seq<Seq<char>>),
> {
    Seq::new(efs.len(), |i: int| (efs[i].0@, names_view(efs[i].1@)))
}

impl FieldIndex {
    pub open spec fn model(self) -> FieldIndexModel {
        FieldIndexModel {
            fields: model_fields(self.fields@),
            schemas: model_props(self.schemas@),
            endpoint_fields: model_endpoint_fields(self.endpoint_fields@),
        }
    }

    /// An index with nothing in it.
    pub fn new() -> (r: FieldIndex)
        ensures
            r.model().fields.len() == 0,
            r.model().schemas.len() == 0,
            r.model().endpoint_fields.len() == 0,
    {
        let r = FieldIndex { fields: Vec::new(), schemas: Vec::new(), endpoint_fields: Vec::new() };
        proof {
            lemma_model_props(r.schemas@);
        }
        r
    }
}

/// The canonical endpoint key: the method upper-cased (ASCII), one
/// space, then the path as given.
pub open spec fn endpoint_key(method: Seq<char>, path: Seq<char>) -> Seq<char> {
    upper_seq(method) + seq![' '] + path
}

/// The entry the schema pass creates when a field name is first seen:
/// type and description from the declaring schema's direct property,
/// the type defaulting to `unknown`.
pub open spec fn first_sight_data(sm: SchemaModel, fname: Seq<char>) -> FieldDataModel {
    FieldDataModel {
        field_type: match spec_field_type(sm, fname) {
            Option::Some(t) => t,
            Option::None => "unknown"@,
        },
        description: spec_field_description(sm, fname),
        schemas: Seq::empty(),
        endpoints: Seq::empty(),
    }
}

/// One field name met while walking one named schema: the entry is
/// created on first sight, and the schema name is appended to its
/// owner list if not yet present. Type and description are never
/// overwritten: the first schema to define a field wins.
pub open spec fn upsert_field(
    fs: Seq<(Seq<char>, FieldDataModel)>,
    sname: Seq<char>,
    sm: SchemaModel,
    fname: Seq<char>,
) -> Seq<(Seq<char>, FieldDataModel)> {
    match assoc_lookup(fs, fname) {
        Option::None => fs.push(
            (fname, FieldDataModel { schemas: seq![sname], ..first_sight_data(sm, fname) }),
        ),
        Option::Some(fd) => if fd.schemas.contains(sname) {
            fs
        } else {
            assoc_update(fs, fname, FieldDataModel { schemas: fd.schemas.push(sname), ..fd })
        },
    }
}

/// The schema pass over one schema's extracted field names, in order.
pub open spec fn add_schema_fields(
    fs: Seq<(Seq<char>, FieldDataModel)>,
    sname: Seq<char>,
    sm: SchemaModel,
    names: Seq<Seq<char>>,
) -> Seq<(Seq<char>, FieldDataModel)>
    decreases names,
{
    if names.len() == 0 {
        fs
    } else {
        upsert_field(add_schema_fields(fs, sname, sm, names.drop_last()), sname, sm, names.last())
    }
}

/// The schema pass over the named schemas, in document order.
pub open spec fn schema_pass(entries: Seq<(Seq<char>, SchemaModel)>) -> Seq<
    (Seq<char>, FieldDataModel),
>
    decreases entries,
{
    if entries.len() == 0 {
        Seq::empty()
    } else {
        add_schema_fields(
            schema_pass(entries.drop_last()),
            entries.last().0,
            entries.last().1,
            spec_field_names(entries.last().1),
        )
    }
}

/// One field occurrence inside an operation: the endpoint key joins the
/// field's endpoint set if the schema pass created the field; a field
/// unknown to the schema pass is left without an entry.
pub open spec fn mark_field_endpoint(
    fs: Seq<(Seq<char>, FieldDataModel)>,
    key: Seq<char>,
    fname: Seq<char>,
) -> Seq<(Seq<char>, FieldDataModel)> {
    match assoc_lookup(fs, fname) {
        Option::None => fs,
        Option::Some(fd) => if fd.endpoints.contains(key) {
            fs
        } else {
            assoc_update(fs, fname, FieldDataModel { endpoints: fd.endpoints.push(key), ..fd })
        },
    }
}

pub open spec fn mark_endpoint_fields(
    fs: Seq<(Seq<char>, FieldDataModel)>,
    key: Seq<char>,
    names: Seq<Seq<char>>,
) -> Seq<(Seq<char>, FieldDataModel)>
    decreases names,
{
    if names.len() == 0 {
        fs
    } else {
        mark_field_endpoint(mark_endpoint_fields(fs, key, names.drop_last()), key, names.last())
    }
}

/// Field names reached through a parameter list, in order.
pub open spec fn params_field_names(ps: Seq<ParameterModel>) -> Seq<Seq<char>>
    decreases ps,
{
    if ps.len() == 0 {
        Seq::empty()
    } else {
        params_field_names(ps.drop_last()) + (match ps.last().schema {
            Option::Some(s) => spec_field_names(s),
            Option::None => Seq::empty(),
        })
    }
}

/// Field names reached through a media-type map, in order.
pub open spec fn media_field_names(ms: Seq<(Seq<char>, MediaTypeModel)>) -> Seq<Seq<char>>
    decreases ms,
{
    if ms.len() == 0 {
        Seq::empty()
    } else {
        media_field_names(ms.drop_last()) + (match ms.last().1.schema {
            Option::Some(s) => spec_field_names(s),
            Option::None => Seq::empty(),
        })
    }
}

/// Field names reached through the response map, in order.
pub open spec fn responses_field_names(rs: Seq<(Seq<char>, crate::document::ResponseModel)>) -> Seq<
    Seq<char>,
>
    decreases rs,
{
    if rs.len() == 0 {
        Seq::empty()
    } else {
        responses_field_names(rs.drop_last()) + (match rs.last().1.content {
            Option::Some(c) => media_field_names(c),
            Option::None => Seq::empty(),
        })
    }
}

/// Every field occurrence of one operation: parameters, then the request
/// body, then the responses; duplicates kept.
pub open spec fn operation_field_names(o: OperationModel) -> Seq<Seq<char>> {
    (match o.parameters {
        Option::Some(ps) => params_field_names(ps),
        Option::None => Seq::empty(),
    }) + (match o.request_body {
        Option::Some(b) => media_field_names(b.content),
        Option::None => Seq::empty(),
    }) + responses_field_names(o.responses)
}

/// The endpoint pass over the operations of one path, in order: each
/// operation marks its fields and records its own field list.
pub open spec fn endpoint_pass_ops(
    fs: Seq<(Seq<char>, FieldDataModel)>,
    ef: Seq<(Seq<char>, Seq<Seq<char>>)>,
    path: Seq<char>,
    ops: Seq<(Seq<char>, OperationModel)>,
) -> (Seq<(Seq<char>, FieldDataModel)>, Seq<(Seq<char>, Seq<Seq<char>>)>)
    decreases ops,
{
    if ops.len() == 0 {
        (fs, ef)
    } else {
        let prev = endpoint_pass_ops(fs, ef, path, ops.drop_last());
        let key = endpoint_key(ops.last().0, path);
        let names = operation_field_names(ops.last().1);
        (mark_endpoint_fields(prev.0, key, names), prev.1.push((key, names)))
    }
}

/// The endpoint pass over every path, in document order.
pub open spec fn endpoint_pass(
    fs: Seq<(Seq<char>, FieldDataModel)>,
    ef: Seq<(Seq<char>, Seq<Seq<char>>)>,
    paths: Seq<(Seq<char>, PathItemModel)>,
) -> (Seq<(Seq<char>, FieldDataModel)>, Seq<(Seq<char>, Seq<Seq<char>>)>)
    decreases paths,
{
    if paths.len() == 0 {
        (fs, ef)
    } else {
        let prev = endpoint_pass(fs, ef, paths.drop_last());
        endpoint_pass_ops(prev.0, prev.1, paths.last().0, paths.last().1.operations)
    }
}

/// The whole index of one document: schema pass, then endpoint pass;
/// the schema map is stored as given.
pub open spec fn spec_build_index(d: DocumentModel) -> FieldIndexModel {
    let entries = doc_schema_entries(d);
    let fs0 = schema_pass(entries);
    let out = endpoint_pass(fs0, Seq::empty(), d.paths);
    FieldIndexModel { fields: out.0, schemas: entries, endpoint_fields: out.1 }
}

/// An endpoint key naming a mutating operation: it contains `post` or
/// `put`, case-insensitively, anywhere in the key. A path that itself
/// contains one of the two words also qualifies, whatever the method:
/// the test is deliberately a substring test on the whole key.
pub open spec fn is_critical_key(key: Seq<char>) -> bool {
    contains_ci(key, "post"@) || contains_ci(key, "put"@)
}

/// A field is critical exactly when some endpoint key associated with it
/// is critical; a name without an entry is not critical.
pub open spec fn spec_is_critical(m: FieldIndexModel, name: Seq<char>) -> bool {
    match assoc_lookup(m.fields, name) {
        Option::Some(fd) => exists|i: int|
            0 <= i < fd.endpoints.len() && is_critical_key(#[trigger] fd.endpoints[i]),
        Option::None => false,
    }
}

impl FieldIndex {
    /// The position of a field's entry, or nothing for an unknown name.
    pub fn find_field(&self, name: &str) -> (r: Option<usize>)
        ensures
            match r {
                Option::Some(i) => i < self.fields@.len() && self.fields@[i as int].0@ == name@
                    && assoc_lookup(self.model().fields, name@) == Option::Some(
                    self.fields@[i as int].1.model(),
                ),
                Option::None => assoc_lookup(self.model().fields, name@) is None,
            },
    {
        match find_field_index(&self.fields, name) {
            Option::Some(i) => {
                proof {
                    lemma_assoc_match_at(model_fields(self.fields@), name@, i as int);
                }
                Option::Some(i)
            },
            Option::None => {
                proof {
                    lemma_assoc_no_match(model_fields(self.fields@), name@);
                }
                Option::None
            },
        }
    }

    /// The endpoint keys referencing a field, in insertion order; empty
    /// for a name without an entry.
    pub fn get_endpoints_for_field(&self, field_name: &str) -> (r: Vec<String>)
        ensures
            match assoc_lookup(self.model().fields, field_name@) {
                Option::Some(fd) => names_view(r@) == fd.endpoints,
                Option::None => r@.len() == 0,
            },
    {
        match find_field_index(&self.fields, field_name) {
            Option::Some(i) => {
                proof {
                    lemma_assoc_match_at(model_fields(self.fields@), field_name@, i as int);
                }
                clone_string_vec(&self.fields[i].1.endpoints)
            },
            Option::None => {
                proof {
                    lemma_assoc_no_match(model_fields(self.fields@), field_name@);
                }
                Vec::new()
            },
        }
    }

    /// Whether the field stands in at least one critical endpoint.
    pub fn is_critical_field(&self, field_name: &str) -> (r: bool)
        ensures
            r == spec_is_critical(self.model(), field_name@),
    {
        match find_field_index(&self.fields, field_name) {
            Option::Some(i) => {
                proof {
                    lemma_assoc_match_at(model_fields(self.fields@), field_name@, i as int);
                }
                let eps = &self.fields[i].1.endpoints;
                let ghost fd = self.fields@[i as int].1.model();
                let mut k: usize = 0;
                while k < eps.len()
                    invariant
                        assoc_lookup(self.model().fields, field_name@) == Option::Some(fd),
                        fd.endpoints == names_view(eps@),
                        k <= eps@.len(),
                        forall|m: int| 0 <= m < k ==> !is_critical_key(#[trigger] fd.endpoints[m]),
                    decreases eps@.len() - k,
                {
                    let hit_post = crate::text::str_contains_ci(eps[k].as_str(), "post");
                    let hit_put = crate::text::str_contains_ci(eps[k].as_str(), "put");
                    if hit_post || hit_put {
                        proof {
                            assert(fd.endpoints[k as int] == eps@[k as int]@);
                            assert(is_critical_key(fd.endpoints[k as int]));
                        }
                        return true;
                    }
                    k = k + 1;
                }
                proof {
                    assert(forall|m: int|
                        0 <= m < fd.endpoints.len() ==> !is_critical_key(
                            #[trigger] fd.endpoints[m],
                        ));
                }
                false
            },
            Option::None => {
                proof {
                    lemma_assoc_no_match(model_fields(self.fields@), field_name@);
                }
                false
            },
        }
    }

    /// The field names reachable from a stored schema; empty for a name
    /// without an entry.
    pub fn get_schema_fields(&self, schema_name: &str) -> (r: Vec<String>)
        ensures
            match assoc_lookup(self.model().schemas, schema_name@) {
                Option::Some(sm) => names_view(r@) == spec_field_names(sm),
                Option::None => r@.len() == 0,
            },
    {
        match crate::resolve::lookup_schema(&self.schemas, schema_name) {
            Option::Some(s) => s.get_field_names(),
            Option::None => Vec::new(),
        }
    }
}

/// A name list without repetition.
pub open spec fn distinct_names(s: Seq<Seq<char>>) -> bool {
    forall|i: int, j: int| 0 <= i < j < s.len() ==> s[i] != s[j]
}

/// The endpoint keys one path's operations generate, in order.
pub open spec fn path_endpoint_keys(
    path: Seq<char>,
    ops: Seq<(Seq<char>, OperationModel)>,
) -> Seq<Seq<char>>
    decreases ops,
{
    if ops.len() == 0 {
        Seq::empty()
    } else {
        path_endpoint_keys(path, ops.drop_last()).push(endpoint_key(ops.last().0, path))
    }
}

/// Every endpoint key the document generates, in pass order.
pub open spec fn all_endpoint_keys(paths: Seq<(Seq<char>, PathItemModel)>) -> Seq<Seq<char>>
    decreases paths,
{
    if paths.len() == 0 {
        Seq::empty()
    } else {
        all_endpoint_keys(paths.drop_last()) + path_endpoint_keys(
            paths.last().0,
            paths.last().1.operations,
        )
    }
}

/// A well-formed document: its named schemas, its paths and each path's
/// methods carry distinct keys, and every (method, path) pair yields its
/// own endpoint key. Documents deserialized from maps have this shape.
pub open spec fn document_well_formed(d: DocumentModel) -> bool {
    &&& crate::assoc::assoc_unique(doc_schema_entries(d))
    &&& crate::assoc::assoc_unique(d.paths)
    &&& forall|i: int|
        0 <= i < d.paths.len() ==> crate::assoc::assoc_unique(
            (#[trigger] d.paths[i]).1.operations,
        )
    &&& distinct_names(all_endpoint_keys(d.paths))
}

/// The schema pass never duplicates a field key.
proof fn lemma_upsert_unique(
    fs: Seq<(Seq<char>, FieldDataModel)>,
    sname: Seq<char>,
    sm: SchemaModel,
    fname: Seq<char>,
)
    requires
        crate::assoc::assoc_unique(fs),
    ensures
        crate::assoc::assoc_unique(upsert_field(fs, sname, sm, fname)),
{
    match assoc_lookup(fs, fname) {
        Option::None => {
            crate::assoc::lemma_assoc_lookup_none(fs, fname);
            let out = fs.push(
                (fname, FieldDataModel { schemas: seq![sname], ..first_sight_data(sm, fname) }),
            );
            assert forall|i: int, j: int| 0 <= i < j < out.len() implies out[i].0 != out[j].0 by {
                if j == out.len() - 1 {
                    assert(out[i] == fs[i]);
                }
            }
        },
        Option::Some(fd) => {
            if !fd.schemas.contains(sname) {
                let v = FieldDataModel { schemas: fd.schemas.push(sname), ..fd };
                crate::assoc::lemma_assoc_update_keys(fs, fname, v);
            }
        },
    }
}

proof fn lemma_add_schema_fields_unique(
    fs: Seq<(Seq<char>, FieldDataModel)>,
    sname: Seq<char>,
    sm: SchemaModel,
    names: Seq<Seq<char>>,
)
    requires
        crate::assoc::assoc_unique(fs),
    ensures
        crate::assoc::assoc_unique(add_schema_fields(fs, sname, sm, names)),
    decreases names,
{
    if names.len() > 0 {
        lemma_add_schema_fields_unique(fs, sname, sm, names.drop_last());
        lemma_upsert_unique(
            add_schema_fields(fs, sname, sm, names.drop_last()),
            sname,
            sm,
            names.last(),
        );
    }
}

/// The field map of the schema pass carries distinct keys, whatever the
/// document.
pub proof fn lemma_schema_pass_unique(entries: Seq<(Seq<char>, SchemaModel)>)
    ensures
        crate::assoc::assoc_unique(schema_pass(entries)),
    decreases entries,
{
    if entries.len() > 0 {
        lemma_schema_pass_unique(entries.drop_last());
        lemma_add_schema_fields_unique(
            schema_pass(entries.drop_last()),
            entries.last().0,
            entries.last().1,
            spec_field_names(entries.last().1),
        );
    }
}

proof fn lemma_mark_fields_unique(
    fs: Seq<(Seq<char>, FieldDataModel)>,
    key: Seq<char>,
    names: Seq<Seq<char>>,
)
    requires
        crate::assoc::assoc_unique(fs),
    ensures
        crate::assoc::assoc_unique(mark_endpoint_fields(fs, key, names)),
    decreases names,
{
    if names.len() > 0 {
        lemma_mark_fields_unique(fs, key, names.drop_last());
        let prev = mark_endpoint_fields(fs, key, names.drop_last());
        match assoc_lookup(prev, names.last()) {
            Option::Some(fd) => {
                if !fd.endpoints.contains(key) {
                    let v = FieldDataModel { endpoints: fd.endpoints.push(key), ..fd };
                    crate::assoc::lemma_assoc_update_keys(prev, names.last(), v);
                }
            },
            Option::None => {},
        }
    }
}

proof fn lemma_endpoint_pass_ops_keys(
    fs: Seq<(Seq<char>, FieldDataModel)>,
    ef: Seq<(Seq<char>, Seq<Seq<char>>)>,
    path: Seq<char>,
    ops: Seq<(Seq<char>, OperationModel)>,
)
    requires
        crate::assoc::assoc_unique(fs),
    ensures
        crate::assoc::assoc_unique(endpoint_pass_ops(fs, ef, path, ops).0),
        crate::assoc::assoc_keys(endpoint_pass_ops(fs, ef, path, ops).1)
            == crate::assoc::assoc_keys(ef) + path_endpoint_keys(path, ops),
    decreases ops,
{
    if ops.len() == 0 {
        assert(crate::assoc::assoc_keys(ef) + path_endpoint_keys(path, ops)
            =~= crate::assoc::assoc_keys(ef));
    } else {
        lemma_endpoint_pass_ops_keys(fs, ef, path, ops.drop_last());
        let prev = endpoint_pass_ops(fs, ef, path, ops.drop_last());
        let key = endpoint_key(ops.last().0, path);
        let names = operation_field_names(ops.last().1);
        lemma_mark_fields_unique(prev.0, key, names);
        assert(crate::assoc::assoc_keys(prev.1.push((key, names)))
            =~= crate::assoc::assoc_keys(prev.1).push(key));
        assert(crate::assoc::assoc_keys(ef) + path_endpoint_keys(path, ops)
            =~= (crate::assoc::assoc_keys(ef) + path_endpoint_keys(path, ops.drop_last())).push(
            key,
        ));
    }
}

proof fn lemma_endpoint_pass_keys(
    fs: Seq<(Seq<char>, FieldDataModel)>,
    ef: Seq<(Seq<char>, Seq<Seq<char>>)>,
    paths: Seq<(Seq<char>, PathItemModel)>,
)
    requires
        crate::assoc::assoc_unique(fs),
    ensures
        crate::assoc::assoc_unique(endpoint_pass(fs, ef, paths).0),
        crate::assoc::assoc_keys(endpoint_pass(fs, ef, paths).1) == crate::assoc::assoc_keys(ef)
            + all_endpoint_keys(paths),
    decreases paths,
{
    if paths.len() == 0 {
        assert(crate::assoc::assoc_keys(ef) + all_endpoint_keys(paths)
            =~= crate::assoc::assoc_keys(ef));
    } else {
        lemma_endpoint_pass_keys(fs, ef, paths.drop_last());
        let prev = endpoint_pass(fs, ef, paths.drop_last());
        lemma_endpoint_pass_ops_keys(
            prev.0,
            prev.1,
            paths.last().0,
            paths.last().1.operations,
        );
        assert(crate::assoc::assoc_keys(ef) + all_endpoint_keys(paths)
            =~= (crate::assoc::assoc_keys(ef) + all_endpoint_keys(paths.drop_last()))
            + path_endpoint_keys(paths.last().0, paths.last().1.operations));
    }
}

/// On a well-formed document the built index is a map in the strict
/// sense: the field, schema and endpoint key lists are all free of
/// repetition, so first-match lookup agrees with map semantics.
pub proof fn lemma_build_index_unique_keys(d: DocumentModel)
    requires
        document_well_formed(d),
    ensures
        crate::assoc::assoc_unique(spec_build_index(d).fields),
        crate::assoc::assoc_unique(spec_build_index(d).schemas),
        crate::assoc::assoc_unique(spec_build_index(d).endpoint_fields),
{
    let entries = doc_schema_entries(d);
    let fs0 = schema_pass(entries);
    lemma_schema_pass_unique(entries);
    lemma_endpoint_pass_keys(fs0, Seq::empty(), d.paths);
    let out = endpoint_pass(fs0, Seq::empty(), d.paths);
    assert(crate::assoc::assoc_keys(out.1) =~= all_endpoint_keys(d.paths)) by {
        assert(crate::assoc::assoc_keys(Seq::<(Seq<char>, Seq<Seq<char>>)>::empty())
            =~= Seq::<Seq<char>>::empty());
    }
    assert forall|i: int, j: int| 0 <= i < j < out.1.len() implies out.1[i].0 != out.1[j].0 by {
        assert(crate::assoc::assoc_keys(out.1)[i] == out.1[i].0);
        assert(crate::assoc::assoc_keys(out.1)[j] == out.1[j].0);
    }
}

/// Every field name reachable from a schema, in extraction order:
/// property names, then the item sub-schema's names, then those of the
/// composition lists, duplicates kept.
pub fn extract_fields_from_schema(schema: &Schema) -> (r: Vec<String>)
    ensures
        names_view(r@) == spec_field_names(schema.model()),
{
    schema.get_field_names()
}

/// How many fields are critical, counting the first `upto` entries.
pub open spec fn critical_count(m: FieldIndexModel, upto: int) -> nat
    decreases upto,
{
    if upto <= 0 {
        0
    } else {
        critical_count(m, upto - 1) + (if spec_is_critical(m, m.fields[upto - 1].0) {
            1nat
        } else {
            0nat
        })
    }
}

/// How many fields of the index are critical.
pub fn count_critical_fields(index: &FieldIndex) -> (r: u64)
    ensures
        r as nat == critical_count(index.model(), index.model().fields.len() as int),
{
    let ghost m = index.model();
    let mut r: u64 = 0;
    let mut i: usize = 0;
    while i < index.fields.len()
        invariant
            m == index.model(),
            m.fields.len() == index.fields@.len(),
            i <= index.fields@.len(),
            r as nat == critical_count(m, i as int),
            r <= i,
        decreases index.fields@.len() - i,
    {
        proof {
            assert(m.fields[i as int].0 == index.fields@[i as int].0@);
        }
        if index.is_critical_field(index.fields[i].0.as_str()) {
            r = r + 1;
        }
        i = i + 1;
    }
    r
}

/// The name of the field owned by the most schemas: the first one
/// attaining the maximum, or the fixed placeholder for an empty index.
pub fn get_most_connected_field(index: &FieldIndex) -> (r: String)
    ensures
        index.model().fields.len() == 0 ==> r@ == "None"@,
        index.model().fields.len() > 0 ==> exists|i: int|
            0 <= i < index.model().fields.len() && r@ == (#[trigger] index.model().fields[i]).0
                && (forall|j: int|
                0 <= j < index.model().fields.len() ==> (#[trigger] index.model().fields[
                j]).1.schemas.len() <= index.model().fields[i].1.schemas.len()) && (forall|j: int|
                0 <= j < i ==> (#[trigger] index.model().fields[j]).1.schemas.len() < index.model(
                ).fields[i].1.schemas.len()),
    {
    let ghost m = index.model();
    if index.fields.len() == 0 {
        return String::from_str("None");
    }
    let mut best: usize = 0;
    let mut i: usize = 1;
    while i < index.fields.len()
        invariant
            m == index.model(),
            m.fields.len() == index.fields@.len(),
            1 <= i <= index.fields@.len(),
            best < i,
            forall|j: int|
                0 <= j < i ==> (#[trigger] m.fields[j]).1.schemas.len() <= m.fields[
                best as int].1.schemas.len(),
            forall|j: int|
                0 <= j < best ==> (#[trigger] m.fields[j]).1.schemas.len() < m.fields[
                best as int].1.schemas.len(),
        decreases index.fields@.len() - i,
    {
        proof {
            assert(m.fields[i as int].1 == index.fields@[i as int].1.model());
            assert(m.fields[best as int].1 == index.fields@[best as int].1.model());
        }
        if index.fields[i].1.schemas.len() > index.fields[best].1.schemas.len() {
            best = i;
        }
        i = i + 1;
    }
    proof {
        assert(m.fields[best as int].0 == index.fields@[best as int].0@);
    }
    index.fields[best].0.clone()
}

/// Building the index is deterministic: two indexes built from the same
/// document agree on their field map, their schema map and their
/// endpoint map, key lists included. Any two runs of the build on one
/// document therefore show the same key sets.
pub proof fn lemma_build_deterministic(d: DocumentModel, m1: FieldIndexModel, m2: FieldIndexModel)
    requires
        m1 == spec_build_index(d),
        m2 == spec_build_index(d),
    ensures
        crate::assoc::assoc_keys(m1.fields) == crate::assoc::assoc_keys(m2.fields),
        crate::assoc::assoc_keys(m1.schemas) == crate::assoc::assoc_keys(m2.schemas),
        crate::assoc::assoc_keys(m1.endpoint_fields) == crate::assoc::assoc_keys(
            m2.endpoint_fields,
        ),
        m1 == m2,
{
}

/// All field names reachable through a list of owning schemas, looked up
/// in a schema map; an owner without an entry contributes nothing.
pub open spec fn related_pool(
    schemas: Seq<(Seq<char>, SchemaModel)>,
    owners: Seq<Seq<char>>,
) -> Seq<Seq<char>>
    decreases owners,
{
    if owners.len() == 0 {
        Seq::empty()
    } else {
        related_pool(schemas, owners.drop_last()) + (match assoc_lookup(
            schemas,
            owners.last(),
        ) {
            Option::Some(sm) => spec_field_names(sm),
            Option::None => Seq::empty(),
        })
    }
}

/// The pool extended by the given names, leaving one name out.
fn extend_filtered(pool: &mut Vec<String>, sub: &Vec<String>, fname: &str)
    ensures
        forall|c: Seq<char>|
            #![trigger crate::text::has_name(final(pool)@, c)]
            crate::text::has_name(final(pool)@, c) <==> (crate::text::has_name(old(pool)@, c) || (c
                != fname@ && crate::text::has_name(sub@, c))),
{
    let ghost p0 = pool@;
    let mut j: usize = 0;
    while j < sub.len()
        invariant
            j <= sub@.len(),
            forall|c: Seq<char>|
                #![trigger crate::text::has_name(pool@, c)]
                crate::text::has_name(pool@, c) <==> (crate::text::has_name(p0, c) || (c != fname@
                    && crate::text::has_name(sub@.subrange(0, j as int), c))),
        decreases sub@.len() - j,
    {
        let ghost pool_pre = pool@;
        let ghost subj = sub@.subrange(0, j as int);
        let ghost subj1 = sub@.subrange(0, j + 1 as int);
        if !crate::text::str_eq(sub[j].as_str(), fname) {
            pool.push(sub[j].clone());
        }
        proof {
            assert forall|c: Seq<char>| #![trigger crate::text::has_name(pool@, c)]
                crate::text::has_name(pool@, c) <==> (crate::text::has_name(p0, c) || (c != fname@
                    && crate::text::has_name(subj1, c))) by {
                if crate::text::has_name(pool@, c) {
                    let k = choose|k: int| 0 <= k < pool@.len() && #[trigger] pool@[k]@ == c;
                    if k < pool_pre.len() {
                        assert(pool_pre[k]@ == c);
                        assert(crate::text::has_name(pool_pre, c));
                        if !crate::text::has_name(p0, c) {
                            let m = choose|m: int| 0 <= m < subj.len() && #[trigger] subj[m]@ == c;
                            assert(subj1[m]@ == c);
                            assert(crate::text::has_name(subj1, c));
                        }
                    } else {
                        assert(pool@[k]@ == sub@[j as int]@);
                        assert(subj1[j as int]@ == c);
                        assert(crate::text::has_name(subj1, c));
                    }
                }
                if crate::text::has_name(p0, c) {
                    assert(crate::text::has_name(pool_pre, c));
                    let m = choose|m: int| 0 <= m < pool_pre.len() && #[trigger] pool_pre[m]@ == c;
                    assert(pool@[m]@ == c);
                    assert(crate::text::has_name(pool@, c));
                }
                if c != fname@ && crate::text::has_name(subj1, c) {
                    let k = choose|k: int| 0 <= k < subj1.len() && #[trigger] subj1[k]@ == c;
                    if k < j {
                        assert(subj[k]@ == c);
                        assert(crate::text::has_name(subj, c));
                        assert(crate::text::has_name(pool_pre, c));
                        let m = choose|m: int|
                            0 <= m < pool_pre.len() && #[trigger] pool_pre[m]@ == c;
                        assert(pool@[m]@ == c);
                    } else {
                        assert(sub@[j as int]@ == c);
                        assert(pool@[pool@.len() - 1]@ == c);
                    }
                    assert(crate::text::has_name(pool@, c));
                }
            }
        }
        j = j + 1;
    }
    proof {
        assert(sub@.subrange(0, sub@.len() as int) =~= sub@);
    }
}

/// For every field, in index order: the other field names sharing at
/// least one owning schema with it, in ascending order without repeats.
pub fn analyze_field_relationships(index: &FieldIndex) -> (r: Vec<(String, Vec<String>)>)
    ensures
        r@.len() == index.model().fields.len(),
        forall|i: int| 0 <= i < r@.len() ==> #[trigger] r@[i].0@ == index.model().fields[i].0,
        forall|i: int|
            0 <= i < r@.len() ==> crate::text::names_strictly_sorted(#[trigger] r@[i].1@),
        forall|i: int, c: Seq<char>|
            #![trigger crate::text::has_name(r@[i].1@, c)]
            0 <= i < r@.len() ==> (crate::text::has_name(r@[i].1@, c) <==> (c
                != index.model().fields[i].0 && related_pool(
                index.model().schemas,
                index.model().fields[i].1.schemas,
            ).contains(c))),
{
    let ghost m = index.model();
    let mut r: Vec<(String, Vec<String>)> = Vec::new();
    let mut i: usize = 0;
    while i < index.fields.len()
        invariant
            m == index.model(),
            m.fields.len() == index.fields@.len(),
            i <= index.fields@.len(),
            r@.len() == i,
            forall|k: int| 0 <= k < i ==> #[trigger] r@[k].0@ == m.fields[k].0,
            forall|k: int| 0 <= k < i ==> crate::text::names_strictly_sorted(#[trigger] r@[k].1@),
            forall|k: int, c: Seq<char>|
                #![trigger crate::text::has_name(r@[k].1@, c)]
                0 <= k < i ==> (crate::text::has_name(r@[k].1@, c) <==> (c
                    != m.fields[k].0 && related_pool(m.schemas, m.fields[k].1.schemas).contains(
                    c,
                ))),
        decreases index.fields@.len() - i,
    {
        let fname = &index.fields[i].0;
        let owners = &index.fields[i].1.schemas;
        let ghost ow = names_view(owners@);
        proof {
            assert(m.fields[i as int] == (index.fields@[i as int].0@, index.fields@[
                i as int].1.model()));
            assert(m.fields[i as int].1.schemas == ow);
        }
        let mut pool: Vec<String> = Vec::new();
        let mut k: usize = 0;
        proof {
            assert(ow.subrange(0, 0) =~= Seq::<Seq<char>>::empty());
            assert forall|c: Seq<char>| !crate::text::has_name(pool@, c) by {}
        }
        while k < owners.len()
            invariant
                m == index.model(),
                ow == names_view(owners@),
                ow.len() == owners@.len(),
                fname == &index.fields@[i as int].0,
                i < index.fields@.len(),
                k <= owners@.len(),
                forall|c: Seq<char>|
                    #![trigger crate::text::has_name(pool@, c)]
                    crate::text::has_name(pool@, c) <==> (c != fname@ && related_pool(
                        m.schemas,
                        ow.subrange(0, k as int),
                    ).contains(c)),
            decreases owners@.len() - k,
        {
            let sub = index.get_schema_fields(owners[k].as_str());
            let ghost p0 = pool@;
            extend_filtered(&mut pool, &sub, fname.as_str());
            proof {
                let pre = ow.subrange(0, k as int);
                let ext = ow.subrange(0, k + 1 as int);
                assert(ext.drop_last() =~= pre);
                assert(ext.last() == ow[k as int]);
                assert(ow[k as int] == owners@[k as int]@);
                let tail: Seq<Seq<char>> = match assoc_lookup(m.schemas, ow[k as int]) {
                    Option::Some(sm) => spec_field_names(sm),
                    Option::None => Seq::empty(),
                };
                assert(related_pool(m.schemas, ext) == related_pool(m.schemas, pre) + tail);
                assert forall|c: Seq<char>| names_view(sub@).contains(c) == tail.contains(c) by {
                    assert(names_view(sub@) == tail);
                }
                assert forall|c: Seq<char>|
                    #![trigger crate::text::has_name(pool@, c)]
                    crate::text::has_name(pool@, c) <==> (c != fname@ && related_pool(
                        m.schemas,
                        ext,
                    ).contains(c)) by {
                    assert(crate::text::has_name(pool@, c) <==> (crate::text::has_name(p0, c) || (c
                        != fname@ && crate::text::has_name(sub@, c))));
                    assert(crate::text::has_name(sub@, c) == names_view(sub@).contains(c)) by {
                        if crate::text::has_name(sub@, c) {
                            let x = choose|x: int| 0 <= x < sub@.len() && #[trigger] sub@[x]@ == c;
                            assert(names_view(sub@)[x] == c);
                        }
                        if names_view(sub@).contains(c) {
                            let x = choose|x: int|
                                0 <= x < names_view(sub@).len() && names_view(sub@)[x] == c;
                            assert(sub@[x]@ == c);
                            assert(crate::text::has_name(sub@, c));
                        }
                    }
                    if related_pool(m.schemas, ext).contains(c) {
                        let x = choose|x: int|
                            0 <= x < related_pool(m.schemas, ext).len() && related_pool(
                                m.schemas,
                                ext,
                            )[x] == c;
                        if x < related_pool(m.schemas, pre).len() {
                            assert(related_pool(m.schemas, pre)[x] == c);
                            assert(related_pool(m.schemas, pre).contains(c));
                        } else {
                            assert(tail[x - related_pool(m.schemas, pre).len()] == c);
                            assert(tail.contains(c));
                        }
                    }
                    if related_pool(m.schemas, pre).contains(c) {
                        let x = choose|x: int|
                            0 <= x < related_pool(m.schemas, pre).len() && related_pool(
                                m.schemas,
                                pre,
                            )[x] == c;
                        assert(related_pool(m.schemas, ext)[x] == c);
                        assert(related_pool(m.schemas, ext).contains(c));
                    }
                    if tail.contains(c) {
                        let x = choose|x: int| 0 <= x < tail.len() && tail[x] == c;
                        assert(related_pool(m.schemas, ext)[related_pool(
                            m.schemas,
                            pre,
                        ).len() + x] == c);
                        assert(related_pool(m.schemas, ext).contains(c));
                    }
                }
            }
            k = k + 1;
        }
        proof {
            assert(ow.subrange(0, ow.len() as int) =~= ow);
        }
        let ghost pool_final = pool@;
        let sorted = crate::text::sort_names(pool);
        proof {
            crate::text::lemma_multiset_preserves_has_name(pool_final, sorted@);
        }
        let uniq = crate::text::dedup_sorted(sorted);
        let entry = (fname.clone(), uniq);
        r.push(entry);
        i = i + 1;
    }
    r
}

/// The canonical endpoint key of a method and a path.
pub fn make_endpoint_key(method: &str, path: &str) -> (r: String)
    ensures
        r@ == endpoint_key(method@, path@),
{
    let mc = crate::text::str_chars(method);
    let mut up = crate::text::upper_chars(&mc);
    up.push(' ');
    let head = crate::text::string_from_chars(&up);
    proof {
        assert(head@ =~= upper_seq(method@) + seq![' ']);
    }
    let r = head.concat(path);
    proof {
        assert(r@ =~= endpoint_key(method@, path@));
    }
    r
}

/// The position of a field entry, scanning in order.
fn find_field_index(fields: &Vec<(String, FieldData)>, name: &str) -> (r: Option<usize>)
    ensures
        match r {
            Option::Some(i) => i < fields@.len() && fields@[i as int].0@ == name@ && (forall|k: int|
                0 <= k < i ==> #[trigger] fields@[k].0@ != name@),
            Option::None => forall|k: int|
                0 <= k < fields@.len() ==> #[trigger] fields@[k].0@ != name@,
        },
{
    let mut i: usize = 0;
    while i < fields.len()
        invariant
            i <= fields@.len(),
            forall|k: int| 0 <= k < i ==> #[trigger] fields@[k].0@ != name@,
        decreases fields@.len() - i,
    {
        if crate::text::str_eq(fields[i].0.as_str(), name) {
            return Option::Some(i);
        }
        i = i + 1;
    }
    Option::None
}

/// Pointwise view of the field map under an element update.
proof fn lemma_model_fields_update(
    fs: Seq<(String, FieldData)>,
    i: int,
    entry: (String, FieldData),
)
    requires
        0 <= i < fs.len(),
    ensures
        model_fields(fs.update(i, entry)) == model_fields(fs).update(i, (entry.0@, entry.1.model())),
{
    assert(model_fields(fs.update(i, entry)) =~= model_fields(fs).update(
        i,
        (entry.0@, entry.1.model()),
    ));
}

/// One field name of one named schema folded into the field map.
fn upsert_field_exec(
    fields: &mut Vec<(String, FieldData)>,
    sname: &String,
    schema: &Schema,
    fname: &String,
)
    ensures
        model_fields(final(fields)@) == upsert_field(
            model_fields(old(fields)@),
            sname@,
            schema.model(),
            fname@,
        ),
{
    let ghost fs0 = model_fields(fields@);
    match find_field_index(fields, fname.as_str()) {
        Option::Some(idx) => {
            proof {
                lemma_assoc_match_at(fs0, fname@, idx as int);
            }
            let (name, mut fd) = fields.remove(idx);
            let ghost fd0 = fd.model();
            if !crate::schema::contains_name(&fd.schemas, sname.as_str()) {
                fd.schemas.push(sname.clone());
                proof {
                    assert(names_view(fd.schemas@) =~= fd0.schemas.push(sname@));
                }
                let new_entry = (name, fd);
                proof {
                    lemma_assoc_update_at(
                        fs0,
                        fname@,
                        FieldDataModel { schemas: fd0.schemas.push(sname@), ..fd0 },
                        idx as int,
                    );
                }
                fields.insert(idx, new_entry);
                proof {
                    assert(old(fields)@.remove(idx as int).insert(idx as int, new_entry)
                        =~= old(fields)@.update(idx as int, new_entry));
                    lemma_model_fields_update(old(fields)@, idx as int, new_entry);
                    assert(model_fields(fields@) == upsert_field(
                        fs0,
                        sname@,
                        schema.model(),
                        fname@,
                    ));
                }
            } else {
                let entry = (name, fd);
                fields.insert(idx, entry);
                proof {
                    assert(old(fields)@.remove(idx as int).insert(idx as int, entry)
                        =~= old(fields)@.update(idx as int, entry));
                    assert(old(fields)@.update(idx as int, entry) =~= old(fields)@);
                    assert(model_fields(fields@) == fs0);
                }
            }
        },
        Option::None => {
            proof {
                lemma_assoc_no_match(fs0, fname@);
            }
            let ftype: String = match schema.get_field_type(fname.as_str()) {
                Option::Some(t) => t,
                Option::None => String::from_str("unknown"),
            };
            let desc = schema.get_field_description(fname.as_str());
            let mut owners: Vec<String> = Vec::new();
            owners.push(sname.clone());
            let fd = FieldData {
                field_type: ftype,
                description: desc,
                schemas: owners,
                endpoints: Vec::new(),
            };
            proof {
                assert(names_view(fd.schemas@) =~= seq![sname@]);
                assert(names_view(fd.endpoints@) =~= Seq::<Seq<char>>::empty());
                assert(fd.model() == (FieldDataModel {
                    schemas: seq![sname@],
                    ..first_sight_data(schema.model(), fname@)
                }));
            }
            let entry = (fname.clone(), fd);
            fields.push(entry);
            proof {
                assert(model_fields(fields@) =~= fs0.push((entry.0@, entry.1.model())));
            }
        },
    }
}

/// One field occurrence of one operation folded into the field map.
fn mark_field_endpoint_exec(fields: &mut Vec<(String, FieldData)>, key: &String, fname: &String)
    ensures
        model_fields(final(fields)@) == mark_field_endpoint(
            model_fields(old(fields)@),
            key@,
            fname@,
        ),
{
    let ghost fs0 = model_fields(fields@);
    match find_field_index(fields, fname.as_str()) {
        Option::Some(idx) => {
            proof {
                lemma_assoc_match_at(fs0, fname@, idx as int);
            }
            let (name, mut fd) = fields.remove(idx);
            let ghost fd0 = fd.model();
            if !crate::schema::contains_name(&fd.endpoints, key.as_str()) {
                fd.endpoints.push(key.clone());
                proof {
                    assert(names_view(fd.endpoints@) =~= fd0.endpoints.push(key@));
                }
                let new_entry = (name, fd);
                proof {
                    lemma_assoc_update_at(
                        fs0,
                        fname@,
                        FieldDataModel { endpoints: fd0.endpoints.push(key@), ..fd0 },
                        idx as int,
                    );
                }
                fields.insert(idx, new_entry);
                proof {
                    assert(old(fields)@.remove(idx as int).insert(idx as int, new_entry)
                        =~= old(fields)@.update(idx as int, new_entry));
                    lemma_model_fields_update(old(fields)@, idx as int, new_entry);
                }
            } else {
                let entry = (name, fd);
                fields.insert(idx, entry);
                proof {
                    assert(old(fields)@.remove(idx as int).insert(idx as int, entry)
                        =~= old(fields)@.update(idx as int, entry));
                    assert(old(fields)@.update(idx as int, entry) =~= old(fields)@);
                    assert(model_fields(fields@) == fs0);
                }
            }
        },
        Option::None => {
            proof {
                lemma_assoc_no_match(fs0, fname@);
            }
        },
    }
}

/// Field names reached through a media-type map.
fn media_field_names_exec(ms: &Vec<(String, crate::document::MediaType)>) -> (r: Vec<String>)
    ensures
        names_view(r@) == media_field_names(model_media(ms@)),
{
    let ghost mm = model_media(ms@);
    let mut r: Vec<String> = Vec::new();
    let mut i: usize = 0;
    proof {
        assert(mm.subrange(0, 0) =~= Seq::<(Seq<char>, MediaTypeModel)>::empty());
        assert(names_view(r@) =~= media_field_names(mm.subrange(0, 0)));
    }
    while i < ms.len()
        invariant
            mm == model_media(ms@),
            mm.len() == ms@.len(),
            i <= ms@.len(),
            names_view(r@) == media_field_names(mm.subrange(0, i as int)),
        decreases ms@.len() - i,
    {
        proof {
            assert(mm.subrange(0, i + 1 as int).drop_last() =~= mm.subrange(0, i as int));
            assert(mm.subrange(0, i + 1 as int).last() == mm[i as int]);
        }
        match &ms[i].1.schema {
            Option::Some(s) => {
                let mut sub = s.get_field_names();
                proof {
                    assert(names_view(r@ + sub@) =~= names_view(r@) + names_view(sub@));
                }
                r.append(&mut sub);
            },
            Option::None => {
                proof {
                    assert(names_view(r@) + Seq::<Seq<char>>::empty() =~= names_view(r@));
                }
            },
        }
        i = i + 1;
    }
    proof {
        assert(mm.subrange(0, mm.len() as int) =~= mm);
    }
    r
}

/// Every field occurrence of one operation, in order: parameters, the
/// request body, then the responses.
pub fn operation_field_names_exec(o: &crate::document::Operation) -> (r: Vec<String>)
    ensures
        names_view(r@) == operation_field_names(o.model()),
{
    let mut r: Vec<String> = Vec::new();
    match &o.parameters {
        Option::Some(ps) => {
            let ghost pm = model_params(ps@);
            let mut i: usize = 0;
            proof {
                assert(pm.subrange(0, 0) =~= Seq::<ParameterModel>::empty());
            }
            while i < ps.len()
                invariant
                    pm == model_params(ps@),
                    pm.len() == ps@.len(),
                    i <= ps@.len(),
                    names_view(r@) == params_field_names(pm.subrange(0, i as int)),
                decreases ps@.len() - i,
            {
                proof {
                    assert(pm.subrange(0, i + 1 as int).drop_last() =~= pm.subrange(0, i as int));
                    assert(pm.subrange(0, i + 1 as int).last() == pm[i as int]);
                }
                match &ps[i].schema {
                    Option::Some(s) => {
                        let mut sub = s.get_field_names();
                        proof {
                            assert(names_view(r@ + sub@) =~= names_view(r@) + names_view(sub@));
                        }
                        r.append(&mut sub);
                    },
                    Option::None => {
                        proof {
                            assert(names_view(r@) + Seq::<Seq<char>>::empty() =~= names_view(r@));
                        }
                    },
                }
                i = i + 1;
            }
            proof {
                assert(pm.subrange(0, pm.len() as int) =~= pm);
            }
        },
        Option::None => {},
    }
    let ghost after_params = names_view(r@);
    match &o.request_body {
        Option::Some(b) => {
            let mut sub = media_field_names_exec(&b.content);
            proof {
                assert(names_view(r@ + sub@) =~= names_view(r@) + names_view(sub@));
            }
            r.append(&mut sub);
        },
        Option::None => {},
    }
    let ghost after_body = names_view(r@);
    let ghost rm = model_responses(o.responses@);
    let mut i: usize = 0;
    proof {
        assert(rm.subrange(0, 0) =~= Seq::<(Seq<char>, crate::document::ResponseModel)>::empty());
    }
    while i < o.responses.len()
        invariant
            rm == model_responses(o.responses@),
            rm.len() == o.responses@.len(),
            i <= o.responses@.len(),
            after_body == names_view(r@).subrange(0, after_body.len() as int),
            names_view(r@) == after_body + responses_field_names(rm.subrange(0, i as int)),
        decreases o.responses@.len() - i,
    {
        proof {
            assert(rm.subrange(0, i + 1 as int).drop_last() =~= rm.subrange(0, i as int));
            assert(rm.subrange(0, i + 1 as int).last() == rm[i as int]);
        }
        match &o.responses[i].1.content {
            Option::Some(c) => {
                let mut sub = media_field_names_exec(c);
                proof {
                    assert(names_view(r@ + sub@) =~= names_view(r@) + names_view(sub@));
                    assert((after_body + responses_field_names(rm.subrange(0, i as int)))
                        + names_view(sub@) =~= after_body + (responses_field_names(
                        rm.subrange(0, i as int),
                    ) + names_view(sub@)));
                    assert((after_body + (responses_field_names(rm.subrange(0, i as int))
                        + names_view(sub@))).subrange(0, after_body.len() as int)
                        =~= after_body);
                }
                r.append(&mut sub);
            },
            Option::None => {
                proof {
                    assert(responses_field_names(rm.subrange(0, i as int))
                        + Seq::<Seq<char>>::empty() =~= responses_field_names(
                        rm.subrange(0, i as int),
                    ));
                }
            },
        }
        i = i + 1;
    }
    proof {
        assert(rm.subrange(0, rm.len() as int) =~= rm);
        assert(after_body == (match o.model().parameters {
            Option::Some(ps) => params_field_names(ps),
            Option::None => Seq::<Seq<char>>::empty(),
        }) + (match o.model().request_body {
            Option::Some(b) => media_field_names(b.content),
            Option::None => Seq::<Seq<char>>::empty(),
        })) by {
            match (o.parameters, o.request_body) {
                (Option::None, Option::None) => {
                    assert(after_params =~= Seq::<Seq<char>>::empty());
                    assert(after_body =~= after_params + Seq::<Seq<char>>::empty());
                },
                _ => {},
            }
            if o.request_body is None {
                assert(after_body == after_params);
                assert(after_params + Seq::<Seq<char>>::empty() =~= after_params);
            }
            if o.parameters is None {
                assert(after_params =~= Seq::<Seq<char>>::empty());
            }
        }
        assert(names_view(r@) =~= operation_field_names(o.model()));
    }
    r
}

/// The cross-reference index of one document, built in two passes over
/// an already resolved document. On a well-formed document the three
/// maps of the result carry distinct keys.
pub fn build_field_index(openapi_spec: &OpenApiSpec) -> (r: FieldIndex)
    ensures
        r.model() == spec_build_index(openapi_spec.model()),
        document_well_formed(openapi_spec.model()) ==> crate::assoc::assoc_unique(r.model().fields)
            && crate::assoc::assoc_unique(r.model().schemas) && crate::assoc::assoc_unique(
            r.model().endpoint_fields,
        ),
{
    let ghost d = openapi_spec.model();
    let ghost entries = doc_schema_entries(d);
    let schemas_stored: Vec<(String, Schema)> = match &openapi_spec.components {
        Option::Some(c) => match &c.schemas {
            Option::Some(ss) => clone_props(ss),
            Option::None => Vec::new(),
        },
        Option::None => Vec::new(),
    };
    proof {
        lemma_model_props(schemas_stored@);
        assert(model_props(schemas_stored@) == entries) by {
            if schemas_stored@.len() == 0 {
                assert(model_props(schemas_stored@) =~= entries);
            }
        }
    }
    let mut fields: Vec<(String, FieldData)> = Vec::new();
    let mut i: usize = 0;
    proof {
        assert(entries.subrange(0, 0) =~= Seq::<(Seq<char>, SchemaModel)>::empty());
        assert(model_fields(fields@) =~= schema_pass(entries.subrange(0, 0)));
    }
    while i < schemas_stored.len()
        invariant
            model_props(schemas_stored@) == entries,
            entries.len() == schemas_stored@.len(),
            forall|k: int|
                0 <= k < schemas_stored@.len() ==> #[trigger] entries[k] == (
                schemas_stored@[k].0@,
                schemas_stored@[k].1.model(),
                ),
            i <= schemas_stored@.len(),
            model_fields(fields@) == schema_pass(entries.subrange(0, i as int)),
        decreases schemas_stored@.len() - i,
    {
        let names: Vec<String> = schemas_stored[i].1.get_field_names();
        let ghost sname = entries[i as int].0;
        let ghost sm = entries[i as int].1;
        let ghost base = schema_pass(entries.subrange(0, i as int));
        let mut j: usize = 0;
        proof {
            assert(names_view(names@).subrange(0, 0) =~= Seq::<Seq<char>>::empty());
        }
        while j < names.len()
            invariant
                i < schemas_stored@.len(),
                sname == schemas_stored@[i as int].0@,
                sm == schemas_stored@[i as int].1.model(),
                names_view(names@) == spec_field_names(sm),
                j <= names@.len(),
                model_fields(fields@) == add_schema_fields(
                    base,
                    sname,
                    sm,
                    names_view(names@).subrange(0, j as int),
                ),
            decreases names@.len() - j,
        {
            proof {
                let nv = names_view(names@);
                assert(nv.subrange(0, j + 1 as int).drop_last() =~= nv.subrange(0, j as int));
                assert(nv.subrange(0, j + 1 as int).last() == nv[j as int]);
            }
            upsert_field_exec(&mut fields, &schemas_stored[i].0, &schemas_stored[i].1, &names[j]);
            j = j + 1;
        }
        proof {
            let nv = names_view(names@);
            assert(nv.subrange(0, nv.len() as int) =~= nv);
            assert(entries.subrange(0, i + 1 as int).drop_last() =~= entries.subrange(0, i as int));
            assert(entries.subrange(0, i + 1 as int).last() == entries[i as int]);
        }
        i = i + 1;
    }
    proof {
        assert(entries.subrange(0, entries.len() as int) =~= entries);
    }
    let ghost fs0 = schema_pass(entries);
    let mut endpoint_fields: Vec<(String, Vec<String>)> = Vec::new();
    let mut i: usize = 0;
    proof {
        assert(d.paths.subrange(0, 0) =~= Seq::<(Seq<char>, PathItemModel)>::empty());
        assert(model_endpoint_fields(endpoint_fields@) =~= Seq::<(
            Seq<char>,
            Seq<Seq<char>>,
        )>::empty());
        assert(d.paths == model_paths(openapi_spec.paths@));
    }
    while i < openapi_spec.paths.len()
        invariant
            fs0 == schema_pass(entries),
            d.paths == model_paths(openapi_spec.paths@),
            d.paths.len() == openapi_spec.paths@.len(),
            i <= openapi_spec.paths@.len(),
            (model_fields(fields@), model_endpoint_fields(endpoint_fields@)) == endpoint_pass(
                fs0,
                Seq::empty(),
                d.paths.subrange(0, i as int),
            ),
        decreases openapi_spec.paths@.len() - i,
    {
        let ghost pre = endpoint_pass(fs0, Seq::empty(), d.paths.subrange(0, i as int));
        let ghost path_model = d.paths[i as int];
        let ops = &openapi_spec.paths[i].1.operations;
        proof {
            assert(path_model == (openapi_spec.paths@[i as int].0@, openapi_spec.paths@[i as int].1.model()));
            assert(path_model.1.operations == model_operations(ops@));
        }
        let mut j: usize = 0;
        proof {
            assert(path_model.1.operations.subrange(0, 0) =~= Seq::<(
                Seq<char>,
                OperationModel,
            )>::empty());
        }
        while j < ops.len()
            invariant
                i < openapi_spec.paths@.len(),
                *ops == openapi_spec.paths@[i as int].1.operations,
                path_model == (openapi_spec.paths@[i as int].0@, openapi_spec.paths@[i as int].1.model()),
                path_model.1.operations == model_operations(ops@),
                path_model.1.operations.len() == ops@.len(),
                j <= ops@.len(),
                (model_fields(fields@), model_endpoint_fields(endpoint_fields@))
                    == endpoint_pass_ops(
                    pre.0,
                    pre.1,
                    path_model.0,
                    path_model.1.operations.subrange(0, j as int),
                ),
            decreases ops@.len() - j,
        {
            let ghost oprev = endpoint_pass_ops(
                pre.0,
                pre.1,
                path_model.0,
                path_model.1.operations.subrange(0, j as int),
            );
            let key: String = make_endpoint_key(
                ops[j].0.as_str(),
                openapi_spec.paths[i].0.as_str(),
            );
            let names: Vec<String> = operation_field_names_exec(&ops[j].1);
            proof {
                assert(model_operations(ops@)[j as int] == (ops@[j as int].0@, ops@[j as int].1.model()));
                assert(key@ == endpoint_key(path_model.1.operations[j as int].0, path_model.0));
                assert(names_view(names@) == operation_field_names(
                    path_model.1.operations[j as int].1,
                ));
            }
            let mut k: usize = 0;
            proof {
                assert(names_view(names@).subrange(0, 0) =~= Seq::<Seq<char>>::empty());
            }
            while k < names.len()
                invariant
                    key@ == endpoint_key(path_model.1.operations[j as int].0, path_model.0),
                    names_view(names@) == operation_field_names(
                        path_model.1.operations[j as int].1,
                    ),
                    k <= names@.len(),
                    model_fields(fields@) == mark_endpoint_fields(
                        oprev.0,
                        key@,
                        names_view(names@).subrange(0, k as int),
                    ),
                    model_endpoint_fields(endpoint_fields@) == oprev.1,
                decreases names@.len() - k,
            {
                proof {
                    let nv = names_view(names@);
                    assert(nv.subrange(0, k + 1 as int).drop_last() =~= nv.subrange(0, k as int));
                    assert(nv.subrange(0, k + 1 as int).last() == nv[k as int]);
                }
                mark_field_endpoint_exec(&mut fields, &key, &names[k]);
                k = k + 1;
            }
            proof {
                let nv = names_view(names@);
                assert(nv.subrange(0, nv.len() as int) =~= nv);
            }
            endpoint_fields.push((key, names));
            proof {
                let sub1 = path_model.1.operations.subrange(0, j + 1 as int);
                assert(sub1.drop_last() =~= path_model.1.operations.subrange(0, j as int));
                assert(sub1.last() == path_model.1.operations[j as int]);
                assert(model_endpoint_fields(endpoint_fields@) =~= oprev.1.push(
                    (
                        endpoint_key(path_model.1.operations[j as int].0, path_model.0),
                        operation_field_names(path_model.1.operations[j as int].1),
                    ),
                ));
            }
            j = j + 1;
        }
        proof {
            assert(path_model.1.operations.subrange(0, path_model.1.operations.len() as int)
                =~= path_model.1.operations);
            assert(d.paths.subrange(0, i + 1 as int).drop_last() =~= d.paths.subrange(0, i as int));
            assert(d.paths.subrange(0, i + 1 as int).last() == d.paths[i as int]);
        }
        i = i + 1;
    }
    proof {
        assert(d.paths.subrange(0, d.paths.len() as int) =~= d.paths);
    }
    let r = FieldIndex { fields, schemas: schemas_stored, endpoint_fields };
    proof {
        if document_well_formed(d) {
            lemma_build_index_unique_keys(d);
        }
    }
    r
}

} // verus!
