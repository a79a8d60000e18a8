//! Reference resolution: every internal pointer of the form
//! `#/components/schemas/<Name>` is replaced by the referenced content.
//!
//! In the named-schema map, the target's type, description, properties and
//! required list are copied into the referring node only where the node
//! left them unset (a local value wins), and the pointer is cleared; a
//! pointer whose target cannot be found is cleared without copying.
//! Inside operations (parameters, request bodies, responses) a pointer
//! whose target exists is replaced by the target outright; one without a
//! target is likewise cleared. Resolution carries an expansion budget so
//! that a self-referential named-schema graph terminates: when the budget
//! is exhausted, remaining pointers are cleared without further expansion.
//!
//! Scope of the walk: both passes visit properties, the array-item
//! sub-schema and the three composition lists — the tree the field
//! extractor reads, captured by [`no_refs`]. Negation and
//! additional-properties sub-schemas are carried through untouched and
//! may retain pointers; no contract of this module speaks of them.

use vstd::prelude::*;
use crate::assoc::{assoc_lookup, lemma_assoc_match_at, lemma_assoc_no_match};
use crate::schema::{
    Schema, SchemaModel, model_props, lemma_model_props, model_list, lemma_model_list,
    clone_schema, clone_props, clone_schema_list, clone_opt_string, clone_string_vec,
    prop_names, spec_field_names,
};
use crate::document::{
    OpenApiSpec, DocumentModel, PathItem, PathItemModel, Operation, OperationModel, Parameter,
    ParameterModel, MediaType, MediaTypeModel, RequestBody, RequestBodyModel, Response,
    ResponseModel, model_paths, model_operations, model_params, model_media, model_responses,
};

verus! {

/// The fixed reference prefix.
pub open spec fn ref_prefix() -> Seq<char> {
    "#/components/schemas/"@
}

/// The schema name a reference string points at, if it has the fixed form.
pub open spec fn spec_ref_target(r: Seq<char>) -> Option<Seq<char>> {
    if r.len() >= ref_prefix().len() && r.subrange(0, ref_prefix().len() as int) == ref_prefix() {
        Option::Some(r.subrange(ref_prefix().len() as int, r.len() as int))
    } else {
        Option::None
    }
}

/// The node with its reference pointer cleared, all else kept.
pub open spec fn clear_ref(s: SchemaModel) -> SchemaModel {
    SchemaModel { reference: Option::None, ..s }
}

/// Inheritance merge: the target's type, description, properties and
/// required list fill only the attributes the node left unset; the
/// pointer is cleared.
pub open spec fn merge_from_target(s: SchemaModel, t: SchemaModel) -> SchemaModel {
    SchemaModel {
        schema_type: if s.schema_type is None {
            t.schema_type
        } else {
            s.schema_type
        },
        description: if s.description is None {
            t.description
        } else {
            s.description
        },
        properties: if s.properties is None {
            t.properties
        } else {
            s.properties
        },
        required: if s.required is None {
            t.required
        } else {
            s.required
        },
        reference: Option::None,
        ..s
    }
}

/// One step of reference handling at a node of the named-schema map.
pub open spec fn apply_ref(
    s: SchemaModel,
    env: Seq<(Seq<char>, SchemaModel)>,
) -> SchemaModel {
    match s.reference {
        Option::Some(r) => match spec_ref_target(r) {
            Option::Some(name) => match assoc_lookup(env, name) {
                Option::Some(t) => merge_from_target(s, t),
                Option::None => clear_ref(s),
            },
            Option::None => clear_ref(s),
        },
        Option::None => s,
    }
}

/// Resolution of one node of the named-schema map: handle the node's own
/// reference, then recurse into properties, the item sub-schema and the
/// composition lists. Expanding a reference costs one unit of budget.
pub open spec fn resolve_model(
    s: SchemaModel,
    env: Seq<(Seq<char>, SchemaModel)>,
    fuel: nat,
) -> SchemaModel
    decreases fuel, s, 1int,
{
    if s.reference is Some {
        if fuel == 0 {
            strip_refs(apply_ref(s, env))
        } else {
            resolve_children(apply_ref(s, env), env, (fuel - 1) as nat)
        }
    } else {
        resolve_children(s, env, fuel)
    }
}

pub open spec fn resolve_children(
    s: SchemaModel,
    env: Seq<(Seq<char>, SchemaModel)>,
    fuel: nat,
) -> SchemaModel
    decreases fuel, s, 0int,
{
    SchemaModel {
        properties: match s.properties {
            Option::Some(ps) => Option::Some(resolve_props(ps, env, fuel)),
            Option::None => Option::None,
        },
        items: match s.items {
            Option::Some(b) => Option::Some(Box::new(resolve_model(*b, env, fuel))),
            Option::None => Option::None,
        },
        all_of: match s.all_of {
            Option::Some(l) => Option::Some(resolve_list(l, env, fuel)),
            Option::None => Option::None,
        },
        one_of: match s.one_of {
            Option::Some(l) => Option::Some(resolve_list(l, env, fuel)),
            Option::None => Option::None,
        },
        any_of: match s.any_of {
            Option::Some(l) => Option::Some(resolve_list(l, env, fuel)),
            Option::None => Option::None,
        },
        ..s
    }
}

pub open spec fn resolve_props(
    ps: Seq<(Seq<char>, SchemaModel)>,
    env: Seq<(Seq<char>, SchemaModel)>,
    fuel: nat,
) -> Seq<(Seq<char>, SchemaModel)>
    decreases fuel, ps, 0int,
{
    if ps.len() == 0 {
        Seq::empty()
    } else {
        resolve_props(ps.drop_last(), env, fuel).push(
            (ps.last().0, resolve_model(ps.last().1, env, fuel)),
        )
    }
}

pub open spec fn resolve_list(
    l: Seq<SchemaModel>,
    env: Seq<(Seq<char>, SchemaModel)>,
    fuel: nat,
) -> Seq<SchemaModel>
    decreases fuel, l, 0int,
{
    if l.len() == 0 {
        Seq::empty()
    } else {
        resolve_list(l.drop_last(), env, fuel).push(resolve_model(l.last(), env, fuel))
    }
}

/// All reference pointers cleared, nothing expanded: the degrade applied
/// when the expansion budget runs out.
pub open spec fn strip_refs(s: SchemaModel) -> SchemaModel
    decreases s, 1int,
{
    SchemaModel {
        reference: Option::None,
        properties: match s.properties {
            Option::Some(ps) => Option::Some(strip_props(ps)),
            Option::None => Option::None,
        },
        items: match s.items {
            Option::Some(b) => Option::Some(Box::new(strip_refs(*b))),
            Option::None => Option::None,
        },
        all_of: match s.all_of {
            Option::Some(l) => Option::Some(strip_list(l)),
            Option::None => Option::None,
        },
        one_of: match s.one_of {
            Option::Some(l) => Option::Some(strip_list(l)),
            Option::None => Option::None,
        },
        any_of: match s.any_of {
            Option::Some(l) => Option::Some(strip_list(l)),
            Option::None => Option::None,
        },
        ..s
    }
}

pub open spec fn strip_props(ps: Seq<(Seq<char>, SchemaModel)>) -> Seq<(Seq<char>, SchemaModel)>
    decreases ps, 0int,
{
    if ps.len() == 0 {
        Seq::empty()
    } else {
        strip_props(ps.drop_last()).push((ps.last().0, strip_refs(ps.last().1)))
    }
}

pub open spec fn strip_list(l: Seq<SchemaModel>) -> Seq<SchemaModel>
    decreases l, 0int,
{
    if l.len() == 0 {
        Seq::empty()
    } else {
        strip_list(l.drop_last()).push(strip_refs(l.last()))
    }
}

/// No reference pointer anywhere in the tree walked by the resolver and
/// the field extractor: the node itself, its properties, its item
/// sub-schema and its composition lists.
pub open spec fn no_refs(s: SchemaModel) -> bool
    decreases s, 1int,
{
    &&& s.reference is None
    &&& match s.properties {
        Option::Some(ps) => no_refs_props(ps),
        Option::None => true,
    }
    &&& match s.items {
        Option::Some(b) => no_refs(*b),
        Option::None => true,
    }
    &&& match s.all_of {
        Option::Some(l) => no_refs_list(l),
        Option::None => true,
    }
    &&& match s.one_of {
        Option::Some(l) => no_refs_list(l),
        Option::None => true,
    }
    &&& match s.any_of {
        Option::Some(l) => no_refs_list(l),
        Option::None => true,
    }
}

pub open spec fn no_refs_props(ps: Seq<(Seq<char>, SchemaModel)>) -> bool
    decreases ps, 0int,
{
    forall|i: int| 0 <= i < ps.len() ==> no_refs(#[trigger] ps[i].1)
}

pub open spec fn no_refs_list(l: Seq<SchemaModel>) -> bool
    decreases l, 0int,
{
    forall|i: int| 0 <= i < l.len() ==> no_refs(#[trigger] l[i])
}

pub proof fn lemma_strip_no_refs(s: SchemaModel)
    ensures
        no_refs(strip_refs(s)),
    decreases s, 1int,
{
    if let Option::Some(ps) = s.properties {
        lemma_strip_props_no_refs(ps);
    }
    if let Option::Some(b) = s.items {
        lemma_strip_no_refs(*b);
    }
    if let Option::Some(l) = s.all_of {
        lemma_strip_list_no_refs(l);
    }
    if let Option::Some(l) = s.one_of {
        lemma_strip_list_no_refs(l);
    }
    if let Option::Some(l) = s.any_of {
        lemma_strip_list_no_refs(l);
    }
}

pub(crate) proof fn lemma_strip_props_no_refs(ps: Seq<(Seq<char>, SchemaModel)>)
    ensures
        strip_props(ps).len() == ps.len(),
        forall|i: int|
            0 <= i < ps.len() ==> #[trigger] strip_props(ps)[i] == (ps[i].0, strip_refs(ps[i].1)),
        no_refs_props(strip_props(ps)),
    decreases ps, 0int,
{
    if ps.len() > 0 {
        lemma_strip_props_no_refs(ps.drop_last());
        lemma_strip_no_refs(ps.last().1);
    }
}

pub(crate) proof fn lemma_strip_list_no_refs(l: Seq<SchemaModel>)
    ensures
        strip_list(l).len() == l.len(),
        forall|i: int| 0 <= i < l.len() ==> #[trigger] strip_list(l)[i] == strip_refs(l[i]),
        no_refs_list(strip_list(l)),
    decreases l, 0int,
{
    if l.len() > 0 {
        lemma_strip_list_no_refs(l.drop_last());
        lemma_strip_no_refs(l.last());
    }
}

/// Resolution leaves no reference pointer in its result, whatever the
/// budget and whatever the named-schema map.
pub proof fn lemma_resolve_no_refs(s: SchemaModel, env: Seq<(Seq<char>, SchemaModel)>, fuel: nat)
    ensures
        no_refs(resolve_model(s, env, fuel)),
    decreases fuel, s, 1int,
{
    if s.reference is Some {
        if fuel == 0 {
            lemma_strip_no_refs(apply_ref(s, env));
        } else {
            lemma_resolve_children_no_refs(apply_ref(s, env), env, (fuel - 1) as nat);
        }
    } else {
        lemma_resolve_children_no_refs(s, env, fuel);
    }
}

proof fn lemma_resolve_children_no_refs(
    s: SchemaModel,
    env: Seq<(Seq<char>, SchemaModel)>,
    fuel: nat,
)
    requires
        s.reference is None,
    ensures
        no_refs(resolve_children(s, env, fuel)),
    decreases fuel, s, 0int,
{
    if let Option::Some(ps) = s.properties {
        lemma_resolve_props_no_refs(ps, env, fuel);
    }
    if let Option::Some(b) = s.items {
        lemma_resolve_no_refs(*b, env, fuel);
    }
    if let Option::Some(l) = s.all_of {
        lemma_resolve_list_no_refs(l, env, fuel);
    }
    if let Option::Some(l) = s.one_of {
        lemma_resolve_list_no_refs(l, env, fuel);
    }
    if let Option::Some(l) = s.any_of {
        lemma_resolve_list_no_refs(l, env, fuel);
    }
}

/// Pointwise shape of resolved property lists, and their freedom from
/// references.
pub proof fn lemma_resolve_props_no_refs(
    ps: Seq<(Seq<char>, SchemaModel)>,
    env: Seq<(Seq<char>, SchemaModel)>,
    fuel: nat,
)
    ensures
        resolve_props(ps, env, fuel).len() == ps.len(),
        forall|i: int|
            0 <= i < ps.len() ==> #[trigger] resolve_props(ps, env, fuel)[i] == (
            ps[i].0,
            resolve_model(ps[i].1, env, fuel),
            ),
        no_refs_props(resolve_props(ps, env, fuel)),
    decreases fuel, ps, 0int,
{
    if ps.len() > 0 {
        lemma_resolve_props_no_refs(ps.drop_last(), env, fuel);
        lemma_resolve_no_refs(ps.last().1, env, fuel);
    }
}

/// Pointwise shape of resolved schema lists, and their freedom from
/// references.
pub proof fn lemma_resolve_list_no_refs(
    l: Seq<SchemaModel>,
    env: Seq<(Seq<char>, SchemaModel)>,
    fuel: nat,
)
    ensures
        resolve_list(l, env, fuel).len() == l.len(),
        forall|i: int|
            0 <= i < l.len() ==> #[trigger] resolve_list(l, env, fuel)[i] == resolve_model(
                l[i],
                env,
                fuel,
            ),
        no_refs_list(resolve_list(l, env, fuel)),
    decreases fuel, l, 0int,
{
    if l.len() > 0 {
        lemma_resolve_list_no_refs(l.drop_last(), env, fuel);
        lemma_resolve_no_refs(l.last(), env, fuel);
    }
}

/// On a tree with no reference pointer anywhere, resolution changes
/// nothing.
pub proof fn lemma_resolve_noop(s: SchemaModel, env: Seq<(Seq<char>, SchemaModel)>, fuel: nat)
    requires
        no_refs(s),
    ensures
        resolve_model(s, env, fuel) == s,
    decreases fuel, s, 1int,
{
    lemma_resolve_children_noop(s, env, fuel);
}

proof fn lemma_resolve_children_noop(
    s: SchemaModel,
    env: Seq<(Seq<char>, SchemaModel)>,
    fuel: nat,
)
    requires
        no_refs(s),
    ensures
        resolve_children(s, env, fuel) == s,
    decreases fuel, s, 0int,
{
    if let Option::Some(ps) = s.properties {
        lemma_resolve_props_noop(ps, env, fuel);
    }
    if let Option::Some(b) = s.items {
        lemma_resolve_noop(*b, env, fuel);
    }
    if let Option::Some(l) = s.all_of {
        lemma_resolve_list_noop(l, env, fuel);
    }
    if let Option::Some(l) = s.one_of {
        lemma_resolve_list_noop(l, env, fuel);
    }
    if let Option::Some(l) = s.any_of {
        lemma_resolve_list_noop(l, env, fuel);
    }
}

proof fn lemma_resolve_props_noop(
    ps: Seq<(Seq<char>, SchemaModel)>,
    env: Seq<(Seq<char>, SchemaModel)>,
    fuel: nat,
)
    requires
        no_refs_props(ps),
    ensures
        resolve_props(ps, env, fuel) == ps,
    decreases fuel, ps, 0int,
{
    lemma_resolve_props_no_refs(ps, env, fuel);
    assert forall|i: int| 0 <= i < ps.len() implies resolve_props(ps, env, fuel)[i] == ps[i] by {
        lemma_resolve_noop(ps[i].1, env, fuel);
    }
    assert(resolve_props(ps, env, fuel) =~= ps);
}

proof fn lemma_resolve_list_noop(
    l: Seq<SchemaModel>,
    env: Seq<(Seq<char>, SchemaModel)>,
    fuel: nat,
)
    requires
        no_refs_list(l),
    ensures
        resolve_list(l, env, fuel) == l,
    decreases fuel, l, 0int,
{
    lemma_resolve_list_no_refs(l, env, fuel);
    assert forall|i: int| 0 <= i < l.len() implies resolve_list(l, env, fuel)[i] == l[i] by {
        lemma_resolve_noop(l[i], env, fuel);
    }
    assert(resolve_list(l, env, fuel) =~= l);
}

/// Resolution is idempotent: a second pass over an already resolved tree
/// is a no-op, since the first pass leaves no reference pointer behind.
pub proof fn lemma_resolve_idempotent(
    s: SchemaModel,
    env: Seq<(Seq<char>, SchemaModel)>,
    fuel: nat,
)
    ensures
        resolve_model(resolve_model(s, env, fuel), env, fuel) == resolve_model(s, env, fuel),
{
    lemma_resolve_no_refs(s, env, fuel);
    lemma_resolve_noop(resolve_model(s, env, fuel), env, fuel);
}

/// The schema name a reference string points at: the fixed prefix is
/// stripped; any other shape names no target.
pub fn extract_schema_name_from_ref(ref_path: &str) -> (r: Option<&str>)
    ensures
        match r {
            Option::Some(name) => spec_ref_target(ref_path@) == Option::Some(name@),
            Option::None => spec_ref_target(ref_path@) is None,
        },
{
    let prefix = "#/components/schemas/";
    proof {
        reveal_strlit("#/components/schemas/");
    }
    let plen: usize = prefix.unicode_len();
    let n: usize = ref_path.unicode_len();
    if n < plen {
        return Option::None;
    }
    let head = ref_path.substring_char(0, plen);
    if crate::text::str_eq(head, prefix) {
        Option::Some(ref_path.substring_char(plen, n))
    } else {
        Option::None
    }
}

/// First named schema bound to the name, if any.
pub fn lookup_schema<'a>(all: &'a Vec<(String, Schema)>, name: &str) -> (r: Option<&'a Schema>)
    ensures
        match r {
            Option::Some(t) => assoc_lookup(model_props(all@), name@) == Option::Some(t.model()),
            Option::None => assoc_lookup(model_props(all@), name@) is None,
        },
{
    proof {
        lemma_model_props(all@);
    }
    let mut i: usize = 0;
    while i < all.len()
        invariant
            model_props(all@).len() == all@.len(),
            forall|k: int|
                0 <= k < all@.len() ==> #[trigger] model_props(all@)[k] == (
                all@[k].0@,
                all@[k].1.model(),
                ),
            i <= all@.len(),
            forall|k: int| 0 <= k < i ==> #[trigger] all@[k].0@ != name@,
        decreases all@.len() - i,
    {
        if crate::text::str_eq(all[i].0.as_str(), name) {
            proof {
                lemma_assoc_match_at(model_props(all@), name@, i as int);
            }
            return Option::Some(&all[i].1);
        }
        i = i + 1;
    }
    proof {
        lemma_assoc_no_match(model_props(all@), name@);
    }
    Option::None
}

/// The inheritance merge, on nodes.
fn merge_from_target_exec(s: &Schema, t: &Schema) -> (r: Schema)
    ensures
        r.model() == merge_from_target(s.model(), t.model()),
{
    let mut r = clone_schema(s);
    if s.schema_type.is_none() {
        r.schema_type = clone_opt_string(&t.schema_type);
    }
    if s.description.is_none() {
        r.description = clone_opt_string(&t.description);
    }
    if s.properties.is_none() {
        r.properties = match &t.properties {
            Option::Some(ps) => Option::Some(clone_props(ps)),
            Option::None => Option::None,
        };
    }
    if s.required.is_none() {
        r.required = match &t.required {
            Option::Some(v) => Option::Some(clone_string_vec(v)),
            Option::None => Option::None,
        };
    }
    r.reference = Option::None;
    r
}

/// Reference handling at one node of the named-schema map.
fn apply_ref_exec(s: &Schema, all: &Vec<(String, Schema)>) -> (r: Schema)
    ensures
        r.model() == apply_ref(s.model(), model_props(all@)),
{
    match &s.reference {
        Option::Some(rs) => match extract_schema_name_from_ref(rs.as_str()) {
            Option::Some(name) => match lookup_schema(all, name) {
                Option::Some(t) => merge_from_target_exec(s, t),
                Option::None => {
                    let mut r = clone_schema(s);
                    r.reference = Option::None;
                    r
                },
            },
            Option::None => {
                let mut r = clone_schema(s);
                r.reference = Option::None;
                r
            },
        },
        Option::None => clone_schema(s),
    }
}

/// Resolution of one node against the named-schema map.
pub fn resolve_schema_node(s: &Schema, all: &Vec<(String, Schema)>, fuel: u64) -> (r: Schema)
    ensures
        r.model() == resolve_model(s.model(), model_props(all@), fuel as nat),
    decreases fuel, *s, 1int,
{
    if s.reference.is_some() {
        let base = apply_ref_exec(s, all);
        if fuel == 0 {
            strip_refs_exec(&base)
        } else {
            resolve_children_exec(&base, all, fuel - 1)
        }
    } else {
        resolve_children_exec(s, all, fuel)
    }
}

fn resolve_children_exec(s: &Schema, all: &Vec<(String, Schema)>, fuel: u64) -> (r: Schema)
    ensures
        r.model() == resolve_children(s.model(), model_props(all@), fuel as nat),
    decreases fuel, *s, 0int,
{
    Schema {
        schema_type: clone_opt_string(&s.schema_type),
        format: clone_opt_string(&s.format),
        description: clone_opt_string(&s.description),
        properties: match &s.properties {
            Option::Some(ps) => Option::Some(resolve_props_exec(ps, all, fuel)),
            Option::None => Option::None,
        },
        items: match &s.items {
            Option::Some(b) => {
                proof {
                    assert(decreases_to!(*s => (*b)));
                }
                Option::Some(Box::new(resolve_schema_node(b, all, fuel)))
            },
            Option::None => Option::None,
        },
        required: match &s.required {
            Option::Some(v) => Option::Some(clone_string_vec(v)),
            Option::None => Option::None,
        },
        all_of: match &s.all_of {
            Option::Some(l) => Option::Some(resolve_list_exec(l, all, fuel)),
            Option::None => Option::None,
        },
        one_of: match &s.one_of {
            Option::Some(l) => Option::Some(resolve_list_exec(l, all, fuel)),
            Option::None => Option::None,
        },
        any_of: match &s.any_of {
            Option::Some(l) => Option::Some(resolve_list_exec(l, all, fuel)),
            Option::None => Option::None,
        },
        not_schema: match &s.not_schema {
            Option::Some(b) => Option::Some(Box::new(clone_schema(b))),
            Option::None => Option::None,
        },
        additional_properties: match &s.additional_properties {
            Option::Some(b) => Option::Some(Box::new(clone_schema(b))),
            Option::None => Option::None,
        },
        nullable: s.nullable,
        read_only: s.read_only,
        write_only: s.write_only,
        example: match &s.example {
            Option::Some(v) => Option::Some(v.clone()),
            Option::None => Option::None,
        },
        enum_: match &s.enum_ {
            Option::Some(v) => Option::Some(crate::schema::clone_value_vec(v)),
            Option::None => Option::None,
        },
        default: match &s.default {
            Option::Some(v) => Option::Some(v.clone()),
            Option::None => Option::None,
        },
        reference: clone_opt_string(&s.reference),
    }
}

fn resolve_props_exec(
    ps: &Vec<(String, Schema)>,
    all: &Vec<(String, Schema)>,
    fuel: u64,
) -> (r: Vec<(String, Schema)>)
    ensures
        model_props(r@) == resolve_props(model_props(ps@), model_props(all@), fuel as nat),
    decreases fuel, *ps, 0int,
{
    let ghost env = model_props(all@);
    let mut r: Vec<(String, Schema)> = Vec::new();
    let mut i: usize = 0;
    while i < ps.len()
        invariant
            env == model_props(all@),
            i <= ps@.len(),
            r@.len() == i,
            forall|k: int|
                0 <= k < i ==> #[trigger] r@[k].0@ == ps@[k].0@ && r@[k].1.model()
                    == resolve_model(ps@[k].1.model(), env, fuel as nat),
        decreases ps@.len() - i,
    {
        proof {
            assert(decreases_to!(*ps => ps@[i as int].1));
        }
        let name = ps[i].0.clone();
        let sub = resolve_schema_node(&ps[i].1, all, fuel);
        r.push((name, sub));
        i = i + 1;
    }
    proof {
        lemma_model_props(r@);
        lemma_model_props(ps@);
        lemma_resolve_props_no_refs(model_props(ps@), env, fuel as nat);
        assert(model_props(r@) =~= resolve_props(model_props(ps@), env, fuel as nat));
    }
    r
}

fn resolve_list_exec(l: &Vec<Schema>, all: &Vec<(String, Schema)>, fuel: u64) -> (r: Vec<Schema>)
    ensures
        model_list(r@) == resolve_list(model_list(l@), model_props(all@), fuel as nat),
    decreases fuel, *l, 0int,
{
    let ghost env = model_props(all@);
    let mut r: Vec<Schema> = Vec::new();
    let mut i: usize = 0;
    while i < l.len()
        invariant
            env == model_props(all@),
            i <= l@.len(),
            r@.len() == i,
            forall|k: int|
                0 <= k < i ==> #[trigger] r@[k].model() == resolve_model(
                    l@[k].model(),
                    env,
                    fuel as nat,
                ),
        decreases l@.len() - i,
    {
        proof {
            assert(decreases_to!(*l => l@[i as int]));
        }
        let sub = resolve_schema_node(&l[i], all, fuel);
        r.push(sub);
        i = i + 1;
    }
    proof {
        lemma_model_list(r@);
        lemma_model_list(l@);
        lemma_resolve_list_no_refs(model_list(l@), env, fuel as nat);
        assert(model_list(r@) =~= resolve_list(model_list(l@), env, fuel as nat));
    }
    r
}

fn strip_refs_exec(s: &Schema) -> (r: Schema)
    ensures
        r.model() == strip_refs(s.model()),
    decreases *s, 1int,
{
    Schema {
        schema_type: clone_opt_string(&s.schema_type),
        format: clone_opt_string(&s.format),
        description: clone_opt_string(&s.description),
        properties: match &s.properties {
            Option::Some(ps) => Option::Some(strip_props_exec(ps)),
            Option::None => Option::None,
        },
        items: match &s.items {
            Option::Some(b) => {
                proof {
                    assert(decreases_to!(*s => (*b)));
                }
                Option::Some(Box::new(strip_refs_exec(b)))
            },
            Option::None => Option::None,
        },
        required: match &s.required {
            Option::Some(v) => Option::Some(clone_string_vec(v)),
            Option::None => Option::None,
        },
        all_of: match &s.all_of {
            Option::Some(l) => Option::Some(strip_list_exec(l)),
            Option::None => Option::None,
        },
        one_of: match &s.one_of {
            Option::Some(l) => Option::Some(strip_list_exec(l)),
            Option::None => Option::None,
        },
        any_of: match &s.any_of {
            Option::Some(l) => Option::Some(strip_list_exec(l)),
            Option::None => Option::None,
        },
        not_schema: match &s.not_schema {
            Option::Some(b) => Option::Some(Box::new(clone_schema(b))),
            Option::None => Option::None,
        },
        additional_properties: match &s.additional_properties {
            Option::Some(b) => Option::Some(Box::new(clone_schema(b))),
            Option::None => Option::None,
        },
        nullable: s.nullable,
        read_only: s.read_only,
        write_only: s.write_only,
        example: match &s.example {
            Option::Some(v) => Option::Some(v.clone()),
            Option::None => Option::None,
        },
        enum_: match &s.enum_ {
            Option::Some(v) => Option::Some(crate::schema::clone_value_vec(v)),
            Option::None => Option::None,
        },
        default: match &s.default {
            Option::Some(v) => Option::Some(v.clone()),
            Option::None => Option::None,
        },
        reference: Option::None,
    }
}

fn strip_props_exec(ps: &Vec<(String, Schema)>) -> (r: Vec<(String, Schema)>)
    ensures
        model_props(r@) == strip_props(model_props(ps@)),
    decreases *ps, 0int,
{
    let mut r: Vec<(String, Schema)> = Vec::new();
    let mut i: usize = 0;
    while i < ps.len()
        invariant
            i <= ps@.len(),
            r@.len() == i,
            forall|k: int|
                0 <= k < i ==> #[trigger] r@[k].0@ == ps@[k].0@ && r@[k].1.model() == strip_refs(
                    ps@[k].1.model(),
                ),
        decreases ps@.len() - i,
    {
        proof {
            assert(decreases_to!(*ps => ps@[i as int].1));
        }
        let name = ps[i].0.clone();
        let sub = strip_refs_exec(&ps[i].1);
        r.push((name, sub));
        i = i + 1;
    }
    proof {
        lemma_model_props(r@);
        lemma_model_props(ps@);
        lemma_strip_props_no_refs(model_props(ps@));
        assert(model_props(r@) =~= strip_props(model_props(ps@)));
    }
    r
}

/// Resolution of every schema of the named-schema map, each against the
/// raw map itself.
pub open spec fn resolve_schema_map(
    ss: Seq<(Seq<char>, SchemaModel)>,
    fuel: nat,
) -> Seq<(Seq<char>, SchemaModel)> {
    Seq::new(ss.len(), |i: int| (ss[i].0, resolve_model(ss[i].1, ss, fuel)))
}

/// Reference handling inside an operation: a pointer whose target exists
/// is replaced by the target outright (the parameter or body carries no
/// competing attributes); a pointer without a target, or of another
/// shape, is cleared without copying; then properties, the item
/// sub-schema and the composition lists are visited. When the expansion
/// budget runs out, the substituted target is taken with every pointer
/// in it cleared, unexpanded.
pub open spec fn resolve_endpoint_model(
    s: SchemaModel,
    env: Seq<(Seq<char>, SchemaModel)>,
    fuel: nat,
) -> SchemaModel
    decreases fuel, s, 1int,
{
    match s.reference {
        Option::Some(r) => match spec_ref_target(r) {
            Option::Some(name) => match assoc_lookup(env, name) {
                Option::Some(t) => if fuel == 0 {
                    strip_refs(t)
                } else {
                    endpoint_children(t, env, (fuel - 1) as nat)
                },
                Option::None => endpoint_children(s, env, fuel),
            },
            Option::None => endpoint_children(s, env, fuel),
        },
        Option::None => endpoint_children(s, env, fuel),
    }
}

/// The walk below one operation node: the pointer is cleared, and
/// properties, the item sub-schema and the three composition lists are
/// resolved.
pub open spec fn endpoint_children(
    s: SchemaModel,
    env: Seq<(Seq<char>, SchemaModel)>,
    fuel: nat,
) -> SchemaModel
    decreases fuel, s, 0int,
{
    SchemaModel {
        properties: match s.properties {
            Option::Some(ps) => Option::Some(endpoint_props(ps, env, fuel)),
            Option::None => Option::None,
        },
        items: match s.items {
            Option::Some(b) => Option::Some(Box::new(resolve_endpoint_model(*b, env, fuel))),
            Option::None => Option::None,
        },
        all_of: match s.all_of {
            Option::Some(l) => Option::Some(endpoint_list(l, env, fuel)),
            Option::None => Option::None,
        },
        one_of: match s.one_of {
            Option::Some(l) => Option::Some(endpoint_list(l, env, fuel)),
            Option::None => Option::None,
        },
        any_of: match s.any_of {
            Option::Some(l) => Option::Some(endpoint_list(l, env, fuel)),
            Option::None => Option::None,
        },
        reference: Option::None,
        ..s
    }
}

pub open spec fn endpoint_props(
    ps: Seq<(Seq<char>, SchemaModel)>,
    env: Seq<(Seq<char>, SchemaModel)>,
    fuel: nat,
) -> Seq<(Seq<char>, SchemaModel)>
    decreases fuel, ps, 0int,
{
    if ps.len() == 0 {
        Seq::empty()
    } else {
        endpoint_props(ps.drop_last(), env, fuel).push(
            (ps.last().0, resolve_endpoint_model(ps.last().1, env, fuel)),
        )
    }
}

pub open spec fn endpoint_list(
    l: Seq<SchemaModel>,
    env: Seq<(Seq<char>, SchemaModel)>,
    fuel: nat,
) -> Seq<SchemaModel>
    decreases fuel, l, 0int,
{
    if l.len() == 0 {
        Seq::empty()
    } else {
        endpoint_list(l.drop_last(), env, fuel).push(
            resolve_endpoint_model(l.last(), env, fuel),
        )
    }
}

pub proof fn lemma_endpoint_props(
    ps: Seq<(Seq<char>, SchemaModel)>,
    env: Seq<(Seq<char>, SchemaModel)>,
    fuel: nat,
)
    ensures
        endpoint_props(ps, env, fuel).len() == ps.len(),
        forall|i: int|
            0 <= i < ps.len() ==> #[trigger] endpoint_props(ps, env, fuel)[i] == (
            ps[i].0,
            resolve_endpoint_model(ps[i].1, env, fuel),
            ),
    decreases ps,
{
    if ps.len() > 0 {
        lemma_endpoint_props(ps.drop_last(), env, fuel);
    }
}

pub proof fn lemma_endpoint_list(
    l: Seq<SchemaModel>,
    env: Seq<(Seq<char>, SchemaModel)>,
    fuel: nat,
)
    ensures
        endpoint_list(l, env, fuel).len() == l.len(),
        forall|i: int|
            0 <= i < l.len() ==> #[trigger] endpoint_list(l, env, fuel)[i]
                == resolve_endpoint_model(l[i], env, fuel),
    decreases l,
{
    if l.len() > 0 {
        lemma_endpoint_list(l.drop_last(), env, fuel);
    }
}

/// Resolution inside an operation leaves no reference pointer in the
/// tree it walks (properties, the item sub-schema, the composition
/// lists), whatever the budget and the named-schema map: the invariant
/// that no node of the active tree retains a pointer holds for the
/// operation pass as for the named-schema pass.
pub proof fn lemma_endpoint_resolve_no_refs(
    s: SchemaModel,
    env: Seq<(Seq<char>, SchemaModel)>,
    fuel: nat,
)
    ensures
        no_refs(resolve_endpoint_model(s, env, fuel)),
    decreases fuel, s, 1int,
{
    match s.reference {
        Option::Some(r) => match spec_ref_target(r) {
            Option::Some(name) => match assoc_lookup(env, name) {
                Option::Some(t) => {
                    if fuel == 0 {
                        lemma_strip_no_refs(t);
                    } else {
                        lemma_endpoint_children_no_refs(t, env, (fuel - 1) as nat);
                    }
                },
                Option::None => lemma_endpoint_children_no_refs(s, env, fuel),
            },
            Option::None => lemma_endpoint_children_no_refs(s, env, fuel),
        },
        Option::None => lemma_endpoint_children_no_refs(s, env, fuel),
    }
}

proof fn lemma_endpoint_children_no_refs(
    s: SchemaModel,
    env: Seq<(Seq<char>, SchemaModel)>,
    fuel: nat,
)
    ensures
        no_refs(endpoint_children(s, env, fuel)),
    decreases fuel, s, 0int,
{
    if let Option::Some(ps) = s.properties {
        lemma_endpoint_props_no_refs(ps, env, fuel);
    }
    if let Option::Some(b) = s.items {
        lemma_endpoint_resolve_no_refs(*b, env, fuel);
    }
    if let Option::Some(l) = s.all_of {
        lemma_endpoint_list_no_refs(l, env, fuel);
    }
    if let Option::Some(l) = s.one_of {
        lemma_endpoint_list_no_refs(l, env, fuel);
    }
    if let Option::Some(l) = s.any_of {
        lemma_endpoint_list_no_refs(l, env, fuel);
    }
}

proof fn lemma_endpoint_props_no_refs(
    ps: Seq<(Seq<char>, SchemaModel)>,
    env: Seq<(Seq<char>, SchemaModel)>,
    fuel: nat,
)
    ensures
        no_refs_props(endpoint_props(ps, env, fuel)),
    decreases fuel, ps, 0int,
{
    lemma_endpoint_props(ps, env, fuel);
    assert forall|i: int| 0 <= i < endpoint_props(ps, env, fuel).len() implies no_refs(
        #[trigger] endpoint_props(ps, env, fuel)[i].1,
    ) by {
        lemma_endpoint_resolve_no_refs(ps[i].1, env, fuel);
    }
}

proof fn lemma_endpoint_list_no_refs(
    l: Seq<SchemaModel>,
    env: Seq<(Seq<char>, SchemaModel)>,
    fuel: nat,
)
    ensures
        no_refs_list(endpoint_list(l, env, fuel)),
    decreases fuel, l, 0int,
{
    lemma_endpoint_list(l, env, fuel);
    assert forall|i: int| 0 <= i < endpoint_list(l, env, fuel).len() implies no_refs(
        #[trigger] endpoint_list(l, env, fuel)[i],
    ) by {
        lemma_endpoint_resolve_no_refs(l[i], env, fuel);
    }
}

/// Resolution of the media-type map of a request body or response.
pub open spec fn resolve_media_map(
    ms: Seq<(Seq<char>, MediaTypeModel)>,
    env: Seq<(Seq<char>, SchemaModel)>,
    fuel: nat,
) -> Seq<(Seq<char>, MediaTypeModel)> {
    Seq::new(
        ms.len(),
        |i: int|
            (
                ms[i].0,
                MediaTypeModel {
                    schema: match ms[i].1.schema {
                        Option::Some(s) => Option::Some(resolve_endpoint_model(s, env, fuel)),
                        Option::None => Option::None,
                    },
                },
            ),
    )
}

/// Resolution inside one operation: parameter schemas, request-body
/// media-type schemas and response media-type schemas.
pub open spec fn resolve_operation_model(
    o: OperationModel,
    env: Seq<(Seq<char>, SchemaModel)>,
    fuel: nat,
) -> OperationModel {
    OperationModel {
        parameters: match o.parameters {
            Option::Some(ps) => Option::Some(
                Seq::new(
                    ps.len(),
                    |i: int|
                        ParameterModel {
                            schema: match ps[i].schema {
                                Option::Some(s) => Option::Some(
                                    resolve_endpoint_model(s, env, fuel),
                                ),
                                Option::None => Option::None,
                            },
                            ..ps[i]
                        },
                ),
            ),
            Option::None => Option::None,
        },
        request_body: match o.request_body {
            Option::Some(b) => Option::Some(
                RequestBodyModel { content: resolve_media_map(b.content, env, fuel), ..b },
            ),
            Option::None => Option::None,
        },
        responses: Seq::new(
            o.responses.len(),
            |i: int|
                (
                    o.responses[i].0,
                    ResponseModel {
                        content: match o.responses[i].1.content {
                            Option::Some(c) => Option::Some(resolve_media_map(c, env, fuel)),
                            Option::None => Option::None,
                        },
                        ..o.responses[i].1
                    },
                ),
        ),
        ..o
    }
}

/// The expansion budget of one document: one unit per named schema, so
/// that every acyclic chain of references resolves in full.
pub open spec fn doc_fuel(d: DocumentModel) -> nat {
    crate::document::doc_schema_entries(d).len()
}

/// Whole-document resolution: the named-schema map resolved against its
/// raw self, then every operation resolved against the resolved map.
pub open spec fn resolve_document_model(d: DocumentModel) -> DocumentModel {
    let resolved = resolve_schema_map(crate::document::doc_schema_entries(d), doc_fuel(d));
    DocumentModel {
        components: match d.components {
            Option::Some(c) => Option::Some(
                crate::document::ComponentsModel {
                    schemas: match c.schemas {
                        Option::Some(_) => Option::Some(resolved),
                        Option::None => Option::None,
                    },
                },
            ),
            Option::None => Option::None,
        },
        paths: Seq::new(
            d.paths.len(),
            |i: int|
                (
                    d.paths[i].0,
                    PathItemModel {
                        operations: Seq::new(
                            d.paths[i].1.operations.len(),
                            |j: int|
                                (
                                    d.paths[i].1.operations[j].0,
                                    resolve_operation_model(
                                        d.paths[i].1.operations[j].1,
                                        resolved,
                                        doc_fuel(d),
                                    ),
                                ),
                        ),
                    },
                ),
        ),
        ..d
    }
}

fn strip_list_exec(l: &Vec<Schema>) -> (r: Vec<Schema>)
    ensures
        model_list(r@) == strip_list(model_list(l@)),
    decreases *l, 0int,
{
    let mut r: Vec<Schema> = Vec::new();
    let mut i: usize = 0;
    while i < l.len()
        invariant
            i <= l@.len(),
            r@.len() == i,
            forall|k: int| 0 <= k < i ==> #[trigger] r@[k].model() == strip_refs(l@[k].model()),
        decreases l@.len() - i,
    {
        proof {
            assert(decreases_to!(*l => l@[i as int]));
        }
        let sub = strip_refs_exec(&l[i]);
        r.push(sub);
        i = i + 1;
    }
    proof {
        lemma_model_list(r@);
        lemma_model_list(l@);
        lemma_strip_list_no_refs(model_list(l@));
        assert(model_list(r@) =~= strip_list(model_list(l@)));
    }
    r
}

/// Every named schema resolved against the raw map itself.
pub fn resolve_schema_map_exec(ss: &Vec<(String, Schema)>, fuel: u64) -> (r: Vec<
    (String, Schema),
>)
    ensures
        model_props(r@) == resolve_schema_map(model_props(ss@), fuel as nat),
{
    let ghost env = model_props(ss@);
    proof {
        lemma_model_props(ss@);
    }
    let mut r: Vec<(String, Schema)> = Vec::new();
    let mut i: usize = 0;
    while i < ss.len()
        invariant
            env == model_props(ss@),
            env.len() == ss@.len(),
            forall|k: int|
                0 <= k < ss@.len() ==> #[trigger] env[k] == (ss@[k].0@, ss@[k].1.model()),
            i <= ss@.len(),
            r@.len() == i,
            forall|k: int|
                0 <= k < i ==> #[trigger] r@[k].0@ == ss@[k].0@ && r@[k].1.model()
                    == resolve_model(ss@[k].1.model(), env, fuel as nat),
        decreases ss@.len() - i,
    {
        let name = ss[i].0.clone();
        let sub = resolve_schema_node(&ss[i].1, ss, fuel);
        r.push((name, sub));
        i = i + 1;
    }
    proof {
        lemma_model_props(r@);
        assert(model_props(r@) =~= resolve_schema_map(env, fuel as nat));
    }
    r
}

/// Reference handling inside an operation, on nodes.
fn resolve_endpoint_schema_exec(s: &Schema, env: &Vec<(String, Schema)>, fuel: u64) -> (r: Schema)
    ensures
        r.model() == resolve_endpoint_model(s.model(), model_props(env@), fuel as nat),
    decreases fuel, *s, 1int,
{
    match &s.reference {
        Option::Some(rs) => match extract_schema_name_from_ref(rs.as_str()) {
            Option::Some(name) => match lookup_schema(env, name) {
                Option::Some(t) => {
                    if fuel == 0 {
                        strip_refs_exec(t)
                    } else {
                        endpoint_children_exec(t, env, fuel - 1)
                    }
                },
                Option::None => endpoint_children_exec(s, env, fuel),
            },
            Option::None => endpoint_children_exec(s, env, fuel),
        },
        Option::None => endpoint_children_exec(s, env, fuel),
    }
}

fn endpoint_children_exec(s: &Schema, env: &Vec<(String, Schema)>, fuel: u64) -> (r: Schema)
    ensures
        r.model() == endpoint_children(s.model(), model_props(env@), fuel as nat),
    decreases fuel, *s, 0int,
{
    Schema {
        schema_type: clone_opt_string(&s.schema_type),
        format: clone_opt_string(&s.format),
        description: clone_opt_string(&s.description),
        properties: match &s.properties {
            Option::Some(ps) => Option::Some(endpoint_props_exec(ps, env, fuel)),
            Option::None => Option::None,
        },
        items: match &s.items {
            Option::Some(b) => {
                proof {
                    assert(decreases_to!(*s => (*b)));
                }
                Option::Some(Box::new(resolve_endpoint_schema_exec(b, env, fuel)))
            },
            Option::None => Option::None,
        },
        required: match &s.required {
            Option::Some(v) => Option::Some(clone_string_vec(v)),
            Option::None => Option::None,
        },
        all_of: match &s.all_of {
            Option::Some(l) => Option::Some(endpoint_list_exec(l, env, fuel)),
            Option::None => Option::None,
        },
        one_of: match &s.one_of {
            Option::Some(l) => Option::Some(endpoint_list_exec(l, env, fuel)),
            Option::None => Option::None,
        },
        any_of: match &s.any_of {
            Option::Some(l) => Option::Some(endpoint_list_exec(l, env, fuel)),
            Option::None => Option::None,
        },
        not_schema: match &s.not_schema {
            Option::Some(b) => Option::Some(Box::new(clone_schema(b))),
            Option::None => Option::None,
        },
        additional_properties: match &s.additional_properties {
            Option::Some(b) => Option::Some(Box::new(clone_schema(b))),
            Option::None => Option::None,
        },
        nullable: s.nullable,
        read_only: s.read_only,
        write_only: s.write_only,
        example: match &s.example {
            Option::Some(v) => Option::Some(v.clone()),
            Option::None => Option::None,
        },
        enum_: match &s.enum_ {
            Option::Some(v) => Option::Some(crate::schema::clone_value_vec(v)),
            Option::None => Option::None,
        },
        default: match &s.default {
            Option::Some(v) => Option::Some(v.clone()),
            Option::None => Option::None,
        },
        reference: Option::None,
    }
}

fn endpoint_list_exec(l: &Vec<Schema>, env: &Vec<(String, Schema)>, fuel: u64) -> (r: Vec<Schema>)
    ensures
        model_list(r@) == endpoint_list(model_list(l@), model_props(env@), fuel as nat),
    decreases fuel, *l, 0int,
{
    let ghost e = model_props(env@);
    let mut r: Vec<Schema> = Vec::new();
    let mut i: usize = 0;
    while i < l.len()
        invariant
            e == model_props(env@),
            i <= l@.len(),
            r@.len() == i,
            forall|k: int|
                0 <= k < i ==> #[trigger] r@[k].model() == resolve_endpoint_model(
                    l@[k].model(),
                    e,
                    fuel as nat,
                ),
        decreases l@.len() - i,
    {
        proof {
            assert(decreases_to!(*l => l@[i as int]));
        }
        let sub = resolve_endpoint_schema_exec(&l[i], env, fuel);
        r.push(sub);
        i = i + 1;
    }
    proof {
        lemma_model_list(r@);
        lemma_model_list(l@);
        lemma_endpoint_list(model_list(l@), e, fuel as nat);
        assert(model_list(r@) =~= endpoint_list(model_list(l@), e, fuel as nat));
    }
    r
}

fn endpoint_props_exec(
    ps: &Vec<(String, Schema)>,
    env: &Vec<(String, Schema)>,
    fuel: u64,
) -> (r: Vec<(String, Schema)>)
    ensures
        model_props(r@) == endpoint_props(model_props(ps@), model_props(env@), fuel as nat),
    decreases fuel, *ps, 0int,
{
    let ghost e = model_props(env@);
    let mut r: Vec<(String, Schema)> = Vec::new();
    let mut i: usize = 0;
    while i < ps.len()
        invariant
            e == model_props(env@),
            i <= ps@.len(),
            r@.len() == i,
            forall|k: int|
                0 <= k < i ==> #[trigger] r@[k].0@ == ps@[k].0@ && r@[k].1.model()
                    == resolve_endpoint_model(ps@[k].1.model(), e, fuel as nat),
        decreases ps@.len() - i,
    {
        proof {
            assert(decreases_to!(*ps => ps@[i as int].1));
        }
        let name = ps[i].0.clone();
        let sub = resolve_endpoint_schema_exec(&ps[i].1, env, fuel);
        r.push((name, sub));
        i = i + 1;
    }
    proof {
        lemma_model_props(r@);
        lemma_model_props(ps@);
        lemma_endpoint_props(model_props(ps@), e, fuel as nat);
        assert(model_props(r@) =~= endpoint_props(model_props(ps@), e, fuel as nat));
    }
    r
}

fn resolve_media_exec(
    ms: &Vec<(String, MediaType)>,
    env: &Vec<(String, Schema)>,
    fuel: u64,
) -> (r: Vec<(String, MediaType)>)
    ensures
        model_media(r@) == resolve_media_map(model_media(ms@), model_props(env@), fuel as nat),
{
    let ghost e = model_props(env@);
    let mut r: Vec<(String, MediaType)> = Vec::new();
    let mut i: usize = 0;
    while i < ms.len()
        invariant
            e == model_props(env@),
            i <= ms@.len(),
            r@.len() == i,
            forall|k: int|
                0 <= k < i ==> #[trigger] r@[k].0@ == ms@[k].0@ && r@[k].1.model()
                    == resolve_media_map(model_media(ms@), e, fuel as nat)[k].1,
        decreases ms@.len() - i,
    {
        let name = ms[i].0.clone();
        let mt = MediaType {
            schema: match &ms[i].1.schema {
                Option::Some(s) => Option::Some(resolve_endpoint_schema_exec(s, env, fuel)),
                Option::None => Option::None,
            },
        };
        r.push((name, mt));
        i = i + 1;
    }
    proof {
        assert(model_media(r@) =~= resolve_media_map(model_media(ms@), e, fuel as nat));
    }
    r
}

fn resolve_operation_exec(o: &Operation, env: &Vec<(String, Schema)>, fuel: u64) -> (r: Operation)
    ensures
        r.model() == resolve_operation_model(o.model(), model_props(env@), fuel as nat),
{
    let ghost e = model_props(env@);
    let parameters: Option<Vec<Parameter>> = match &o.parameters {
        Option::Some(ps) => {
            let mut out: Vec<Parameter> = Vec::new();
            let mut i: usize = 0;
            while i < ps.len()
                invariant
                    e == model_props(env@),
                    i <= ps@.len(),
                    out@.len() == i,
                    forall|k: int|
                        0 <= k < i ==> #[trigger] out@[k].model() == (ParameterModel {
                            schema: match ps@[k].model().schema {
                                Option::Some(s) => Option::Some(
                                    resolve_endpoint_model(s, e, fuel as nat),
                                ),
                                Option::None => Option::None,
                            },
                            ..ps@[k].model()
                        }),
                decreases ps@.len() - i,
            {
                let p = &ps[i];
                out.push(
                    Parameter {
                        name: p.name.clone(),
                        in_: p.in_.clone(),
                        description: clone_opt_string(&p.description),
                        required: p.required,
                        schema: match &p.schema {
                            Option::Some(s) => Option::Some(
                                resolve_endpoint_schema_exec(s, env, fuel),
                            ),
                            Option::None => Option::None,
                        },
                    },
                );
                i = i + 1;
            }
            proof {
                assert(model_params(out@) =~= resolve_operation_model(
                    o.model(),
                    e,
                    fuel as nat,
                ).parameters->0);
            }
            Option::Some(out)
        },
        Option::None => Option::None,
    };
    let request_body: Option<RequestBody> = match &o.request_body {
        Option::Some(b) => Option::Some(
            RequestBody {
                description: clone_opt_string(&b.description),
                content: resolve_media_exec(&b.content, env, fuel),
            },
        ),
        Option::None => Option::None,
    };
    let mut responses: Vec<(String, Response)> = Vec::new();
    let mut i: usize = 0;
    while i < o.responses.len()
        invariant
            e == model_props(env@),
            i <= o.responses@.len(),
            responses@.len() == i,
            forall|k: int|
                0 <= k < i ==> #[trigger] responses@[k].0@ == o.responses@[k].0@
                    && responses@[k].1.model() == (ResponseModel {
                    content: match o.responses@[k].1.model().content {
                        Option::Some(c) => Option::Some(resolve_media_map(c, e, fuel as nat)),
                        Option::None => Option::None,
                    },
                    ..o.responses@[k].1.model()
                }),
        decreases o.responses@.len() - i,
    {
        let code = o.responses[i].0.clone();
        let resp = Response {
            description: o.responses[i].1.description.clone(),
            content: match &o.responses[i].1.content {
                Option::Some(c) => Option::Some(resolve_media_exec(c, env, fuel)),
                Option::None => Option::None,
            },
        };
        responses.push((code, resp));
        i = i + 1;
    }
    let r = Operation {
        operation_id: clone_opt_string(&o.operation_id),
        summary: clone_opt_string(&o.summary),
        description: clone_opt_string(&o.description),
        tags: match &o.tags {
            Option::Some(t) => Option::Some(clone_string_vec(t)),
            Option::None => Option::None,
        },
        parameters,
        request_body,
        responses,
    };
    proof {
        assert(model_responses(r.responses@) =~= resolve_operation_model(
            o.model(),
            e,
            fuel as nat,
        ).responses);
        let lhs = r.model();
        let rhs = resolve_operation_model(o.model(), e, fuel as nat);
        assert(lhs.tags == rhs.tags) by {
            match (r.tags, o.tags) {
                (Option::Some(a), Option::Some(b)) => {
                    assert(crate::schema::names_view(a@) =~= crate::schema::names_view(b@));
                },
                _ => {},
            }
        }
        assert(lhs.parameters == rhs.parameters) by {
            match (r.parameters, o.parameters) {
                (Option::Some(a), Option::Some(b)) => {
                    assert(model_params(a@) =~= rhs.parameters->0);
                },
                _ => {},
            }
        }
    }
    r
}

/// In-place resolution of every reference in the document: the
/// named-schema map first, against its raw self; then every operation's
/// parameter, request-body and response schemas, against the resolved
/// map. Resolution is total: it never fails, and a dangling pointer
/// degrades silently.
pub fn resolve_references(doc: &mut OpenApiSpec)
    ensures
        final(doc).model() == resolve_document_model(old(doc).model()),
{
    let ghost d0 = doc.model();
    let fuel: u64 = match &doc.components {
        Option::Some(c) => match &c.schemas {
            Option::Some(ss) => {
                proof {
                    lemma_model_props(ss@);
                }
                ss.len() as u64
            },
            Option::None => 0,
        },
        Option::None => 0,
    };
    proof {
        assert(fuel as nat == doc_fuel(d0));
    }
    let resolved: Option<Vec<(String, Schema)>> = match &doc.components {
        Option::Some(c) => match &c.schemas {
            Option::Some(ss) => Option::Some(resolve_schema_map_exec(ss, fuel)),
            Option::None => Option::None,
        },
        Option::None => Option::None,
    };
    let empty_env: Vec<(String, Schema)> = Vec::new();
    let env: &Vec<(String, Schema)> = match &resolved {
        Option::Some(v) => v,
        Option::None => &empty_env,
    };
    let ghost renv = resolve_schema_map(crate::document::doc_schema_entries(d0), doc_fuel(d0));
    proof {
        assert(model_props(env@) =~= renv);
    }
    let mut new_paths: Vec<(String, PathItem)> = Vec::new();
    let mut i: usize = 0;
    while i < doc.paths.len()
        invariant
            model_props(env@) == renv,
            renv == resolve_schema_map(crate::document::doc_schema_entries(d0), doc_fuel(d0)),
            fuel as nat == doc_fuel(d0),
            d0.paths == model_paths(doc.paths@),
            i <= doc.paths@.len(),
            new_paths@.len() == i,
            forall|k: int|
                0 <= k < i ==> #[trigger] new_paths@[k].0@ == doc.paths@[k].0@
                    && new_paths@[k].1.model() == resolve_document_model(d0).paths[k].1,
        decreases doc.paths@.len() - i,
    {
        let path = doc.paths[i].0.clone();
        let ops = &doc.paths[i].1.operations;
        let mut new_ops: Vec<(String, Operation)> = Vec::new();
        let mut j: usize = 0;
        while j < ops.len()
            invariant
                model_props(env@) == renv,
                i < doc.paths@.len(),
                *ops == doc.paths@[i as int].1.operations,
                j <= ops@.len(),
                new_ops@.len() == j,
                forall|k: int|
                    0 <= k < j ==> #[trigger] new_ops@[k].0@ == ops@[k].0@
                        && new_ops@[k].1.model() == resolve_operation_model(
                        ops@[k].1.model(),
                        renv,
                        fuel as nat,
                    ),
            decreases ops@.len() - j,
        {
            let method = ops[j].0.clone();
            let op = resolve_operation_exec(&ops[j].1, env, fuel);
            new_ops.push((method, op));
            j = j + 1;
        }
        let item = PathItem { operations: new_ops };
        proof {
            let target = resolve_document_model(d0).paths[i as int].1;
            assert(d0.paths[i as int] == (doc.paths@[i as int].0@, doc.paths@[i as int].1.model()));
            assert(d0.paths[i as int].1.operations == model_operations(ops@));
            assert forall|k: int| 0 <= k < model_operations(item.operations@).len() implies
                #[trigger] model_operations(item.operations@)[k] == target.operations[k] by {
                assert(model_operations(ops@)[k] == (ops@[k].0@, ops@[k].1.model()));
            }
            assert(model_operations(item.operations@) =~= target.operations);
            assert(item.model() == target);
        }
        new_paths.push((path, item));
        i = i + 1;
    }
    doc.paths = new_paths;
    match &mut doc.components {
        Option::Some(c) => {
            c.schemas = resolved;
        },
        Option::None => {},
    }
    proof {
        assert(model_paths(doc.paths@) =~= resolve_document_model(d0).paths);
        assert(doc.model() == resolve_document_model(d0));
    }
}

/// On a tree with no reference pointer anywhere in the walked scope,
/// the operation pass changes nothing.
pub proof fn lemma_endpoint_noop(s: SchemaModel, env: Seq<(Seq<char>, SchemaModel)>, fuel: nat)
    requires
        no_refs(s),
    ensures
        resolve_endpoint_model(s, env, fuel) == s,
    decreases fuel, s, 1int,
{
    lemma_endpoint_children_noop(s, env, fuel);
}

proof fn lemma_endpoint_children_noop(
    s: SchemaModel,
    env: Seq<(Seq<char>, SchemaModel)>,
    fuel: nat,
)
    requires
        no_refs(s),
    ensures
        endpoint_children(s, env, fuel) == s,
    decreases fuel, s, 0int,
{
    if let Option::Some(ps) = s.properties {
        lemma_endpoint_props_noop(ps, env, fuel);
    }
    if let Option::Some(b) = s.items {
        lemma_endpoint_noop(*b, env, fuel);
    }
    if let Option::Some(l) = s.all_of {
        lemma_endpoint_list_noop(l, env, fuel);
    }
    if let Option::Some(l) = s.one_of {
        lemma_endpoint_list_noop(l, env, fuel);
    }
    if let Option::Some(l) = s.any_of {
        lemma_endpoint_list_noop(l, env, fuel);
    }
}

proof fn lemma_endpoint_props_noop(
    ps: Seq<(Seq<char>, SchemaModel)>,
    env: Seq<(Seq<char>, SchemaModel)>,
    fuel: nat,
)
    requires
        no_refs_props(ps),
    ensures
        endpoint_props(ps, env, fuel) == ps,
    decreases fuel, ps, 0int,
{
    lemma_endpoint_props(ps, env, fuel);
    assert forall|i: int| 0 <= i < ps.len() implies endpoint_props(ps, env, fuel)[i] == ps[i] by {
        lemma_endpoint_noop(ps[i].1, env, fuel);
    }
    assert(endpoint_props(ps, env, fuel) =~= ps);
}

proof fn lemma_endpoint_list_noop(
    l: Seq<SchemaModel>,
    env: Seq<(Seq<char>, SchemaModel)>,
    fuel: nat,
)
    requires
        no_refs_list(l),
    ensures
        endpoint_list(l, env, fuel) == l,
    decreases fuel, l, 0int,
{
    lemma_endpoint_list(l, env, fuel);
    assert forall|i: int| 0 <= i < l.len() implies endpoint_list(l, env, fuel)[i] == l[i] by {
        lemma_endpoint_noop(l[i], env, fuel);
    }
    assert(endpoint_list(l, env, fuel) =~= l);
}

/// Every schema slot of an operation is free of reference pointers:
/// each parameter schema, each request-body media-type schema, each
/// response media-type schema.
pub open spec fn operation_no_refs(o: OperationModel) -> bool {
    &&& match o.parameters {
        Option::Some(ps) => forall|i: int|
            0 <= i < ps.len() ==> match (#[trigger] ps[i]).schema {
                Option::Some(s) => no_refs(s),
                Option::None => true,
            },
        Option::None => true,
    }
    &&& match o.request_body {
        Option::Some(b) => media_no_refs(b.content),
        Option::None => true,
    }
    &&& forall|i: int|
        0 <= i < o.responses.len() ==> match (#[trigger] o.responses[i]).1.content {
            Option::Some(c) => media_no_refs(c),
            Option::None => true,
        }
}

pub open spec fn media_no_refs(ms: Seq<(Seq<char>, MediaTypeModel)>) -> bool {
    forall|i: int|
        0 <= i < ms.len() ==> match (#[trigger] ms[i]).1.schema {
            Option::Some(s) => no_refs(s),
            Option::None => true,
        }
}

/// The whole active tree of a document is free of reference pointers:
/// every stored named schema and every schema slot of every operation.
pub open spec fn document_no_refs(d: DocumentModel) -> bool {
    &&& forall|i: int|
        0 <= i < crate::document::doc_schema_entries(d).len() ==> no_refs(
            (#[trigger] crate::document::doc_schema_entries(d)[i]).1,
        )
    &&& forall|i: int, j: int|
        0 <= i < d.paths.len() && 0 <= j < (#[trigger] d.paths[i]).1.operations.len()
            ==> operation_no_refs(#[trigger] d.paths[i].1.operations[j].1)
}

proof fn lemma_resolve_media_no_refs(
    ms: Seq<(Seq<char>, MediaTypeModel)>,
    env: Seq<(Seq<char>, SchemaModel)>,
    fuel: nat,
)
    ensures
        media_no_refs(resolve_media_map(ms, env, fuel)),
{
    let out = resolve_media_map(ms, env, fuel);
    assert forall|i: int| 0 <= i < out.len() implies match (#[trigger] out[i]).1.schema {
        Option::Some(s) => no_refs(s),
        Option::None => true,
    } by {
        if let Option::Some(s) = ms[i].1.schema {
            lemma_endpoint_resolve_no_refs(s, env, fuel);
        }
    }
}

proof fn lemma_resolve_operation_no_refs(
    o: OperationModel,
    env: Seq<(Seq<char>, SchemaModel)>,
    fuel: nat,
)
    ensures
        operation_no_refs(resolve_operation_model(o, env, fuel)),
{
    let out = resolve_operation_model(o, env, fuel);
    if let Option::Some(ps) = o.parameters {
        assert forall|i: int| 0 <= i < out.parameters->0.len() implies match (#[trigger] out
            .parameters->0[i]).schema {
            Option::Some(s) => no_refs(s),
            Option::None => true,
        } by {
            if let Option::Some(s) = ps[i].schema {
                lemma_endpoint_resolve_no_refs(s, env, fuel);
            }
        }
    }
    if let Option::Some(b) = o.request_body {
        lemma_resolve_media_no_refs(b.content, env, fuel);
    }
    assert forall|i: int| 0 <= i < out.responses.len() implies match (#[trigger] out.responses[
    i]).1.content {
        Option::Some(c) => media_no_refs(c),
        Option::None => true,
    } by {
        if let Option::Some(c) = o.responses[i].1.content {
            lemma_resolve_media_no_refs(c, env, fuel);
        }
    }
}

/// On an operation whose schema slots are all free of reference
/// pointers, the operation pass changes nothing.
proof fn lemma_operation_noop(o: OperationModel, env: Seq<(Seq<char>, SchemaModel)>, fuel: nat)
    requires
        operation_no_refs(o),
    ensures
        resolve_operation_model(o, env, fuel) == o,
{
    let out = resolve_operation_model(o, env, fuel);
    if let Option::Some(ps) = o.parameters {
        assert forall|i: int| 0 <= i < ps.len() implies out.parameters->0[i] == ps[i] by {
            if let Option::Some(s) = ps[i].schema {
                lemma_endpoint_noop(s, env, fuel);
            }
        }
        assert(out.parameters->0 =~= ps);
    }
    if let Option::Some(b) = o.request_body {
        lemma_media_noop(b.content, env, fuel);
        assert(out.request_body->0 == b);
    }
    assert forall|i: int| 0 <= i < o.responses.len() implies out.responses[i]
        == o.responses[i] by {
        if let Option::Some(c) = o.responses[i].1.content {
            lemma_media_noop(c, env, fuel);
        }
    }
    assert(out.responses =~= o.responses);
}

proof fn lemma_media_noop(
    ms: Seq<(Seq<char>, MediaTypeModel)>,
    env: Seq<(Seq<char>, SchemaModel)>,
    fuel: nat,
)
    requires
        media_no_refs(ms),
    ensures
        resolve_media_map(ms, env, fuel) == ms,
{
    let out = resolve_media_map(ms, env, fuel);
    assert forall|i: int| 0 <= i < ms.len() implies out[i] == ms[i] by {
        if let Option::Some(s) = ms[i].1.schema {
            lemma_endpoint_noop(s, env, fuel);
        }
    }
    assert(out =~= ms);
}

/// Whole-document idempotence: a second resolution pass over an already
/// resolved document changes nothing, since the first pass leaves no
/// reference pointer anywhere in the active tree.
pub proof fn lemma_resolve_document_idempotent(d: DocumentModel)
    ensures
        resolve_document_model(resolve_document_model(d)) == resolve_document_model(d),
{
    let d1 = resolve_document_model(d);
    let entries = crate::document::doc_schema_entries(d);
    let resolved = resolve_schema_map(entries, doc_fuel(d));
    let entries1 = crate::document::doc_schema_entries(d1);
    assert(entries1 == resolved || entries1 =~= Seq::<(Seq<char>, SchemaModel)>::empty()) by {
        match d.components {
            Option::Some(c) => match c.schemas {
                Option::Some(_) => {},
                Option::None => {},
            },
            Option::None => {},
        }
    }
    assert(entries1 =~= resolved) by {
        if entries1.len() == 0 && entries1 != resolved {
            assert(entries.len() == 0);
            assert(resolved =~= Seq::<(Seq<char>, SchemaModel)>::empty());
        }
    }
    assert(doc_fuel(d1) == doc_fuel(d));
    let resolved1 = resolve_schema_map(entries1, doc_fuel(d1));
    assert(resolved1 =~= resolved) by {
        assert forall|i: int| 0 <= i < resolved.len() implies resolved1[i] == resolved[i] by {
            lemma_resolve_no_refs(entries[i].1, entries, doc_fuel(d));
            lemma_resolve_noop(resolved[i].1, entries1, doc_fuel(d1));
        }
    }
    let d2 = resolve_document_model(d1);
    assert(d2.components == d1.components) by {
        match d.components {
            Option::Some(c) => match c.schemas {
                Option::Some(_) => {},
                Option::None => {},
            },
            Option::None => {},
        }
    }
    assert(d2.paths =~= d1.paths) by {
        assert forall|i: int| 0 <= i < d1.paths.len() implies d2.paths[i] == d1.paths[i] by {
            assert forall|j: int| 0 <= j < d1.paths[i].1.operations.len() implies d2.paths[
            i].1.operations[j] == d1.paths[i].1.operations[j] by {
                let op0 = d.paths[i].1.operations[j].1;
                lemma_resolve_operation_no_refs(op0, resolved, doc_fuel(d));
                lemma_operation_noop(
                    resolve_operation_model(op0, resolved, doc_fuel(d)),
                    resolved1,
                    doc_fuel(d1),
                );
            }
            assert(d2.paths[i].1.operations =~= d1.paths[i].1.operations);
        }
    }
    assert(d2 == d1);
}

/// The invariant of whole-document resolution: afterwards no node of
/// the active tree — a stored named schema, or any schema reachable
/// from an operation's parameters, request body or responses — retains
/// a reference pointer anywhere the extractor reads.
pub proof fn lemma_document_resolution_clears_references(d: DocumentModel)
    ensures
        document_no_refs(resolve_document_model(d)),
{
    let out = resolve_document_model(d);
    let entries = crate::document::doc_schema_entries(d);
    let resolved = resolve_schema_map(entries, doc_fuel(d));
    assert(crate::document::doc_schema_entries(out) == resolved);
    assert forall|i: int| 0 <= i < resolved.len() implies no_refs(
        (#[trigger] resolved[i]).1,
    ) by {
        lemma_resolve_no_refs(entries[i].1, entries, doc_fuel(d));
    }
    assert forall|i: int, j: int|
        0 <= i < out.paths.len() && 0 <= j < (#[trigger] out.paths[i]).1.operations.len() implies
        operation_no_refs(#[trigger] out.paths[i].1.operations[j].1) by {
        lemma_resolve_operation_no_refs(d.paths[i].1.operations[j].1, resolved, doc_fuel(d));
    }
}

/// A schema that references a target defining properties inherits every
/// one of the target's field names: they all stand among the field names
/// of the resolved schema, provided the referring node declares no
/// properties of its own and the budget admits the expansion.
pub proof fn lemma_reference_brings_target_fields(
    a: SchemaModel,
    env: Seq<(Seq<char>, SchemaModel)>,
    fuel: nat,
    name: Seq<char>,
    t: SchemaModel,
)
    requires
        fuel > 0,
        a.reference is Some,
        spec_ref_target(a.reference->0) == Option::Some(name),
        assoc_lookup(env, name) == Option::Some(t),
        a.properties is None,
        t.properties is Some,
    ensures
        forall|i: int|
            0 <= i < t.properties->0.len() ==> spec_field_names(
                resolve_model(a, env, fuel),
            ).contains(#[trigger] t.properties->0[i].0),
{
    let merged = merge_from_target(a, t);
    assert(merged.properties == t.properties);
    let out = resolve_children(merged, env, (fuel - 1) as nat);
    assert(resolve_model(a, env, fuel) == out);
    let ps = t.properties->0;
    lemma_resolve_props_no_refs(ps, env, (fuel - 1) as nat);
    let rps = resolve_props(ps, env, (fuel - 1) as nat);
    assert(out.properties == Option::Some(rps));
    assert forall|i: int| 0 <= i < ps.len() implies spec_field_names(out).contains(
        #[trigger] ps[i].0,
    ) by {
        assert(prop_names(rps)[i] == ps[i].0);
        assert(spec_field_names(out)[i] == ps[i].0);
    }
}

} // verus!
