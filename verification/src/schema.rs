//! The schema tree: one node of a composite type definition, with its
//! property map, array-item sub-schema, composition lists and an optional
//! internal reference string.
//!
//! Contracts speak of [`SchemaModel`], the mathematical value of a node.
//! The model covers every attribute the resolver and the field extractor
//! read; the opaque example / enumeration / default payloads are carried
//! through the tree but deliberately left out of the model.

use vstd::prelude::*;

verus! {

/// serde_json::Value: opaque JSON payloads (examples, defaults,
/// enumeration members) carried through the schema tree untouched.
#[verifier::external_type_specification]
#[verifier::external_body]
pub struct ExValue(serde_json::Value);

/// Relies on the derived Clone of serde_json::Value; nothing is assumed
/// of the copy, since the model never reads these payloads.
pub assume_specification[ <serde_json::Value as Clone>::clone ](
    v: &serde_json::Value,
) -> serde_json::Value;

/// One schema node. `properties` maps field names to sub-schemas
/// (an association list with no duplicate names expected but not required);
/// `reference` holds an internal pointer of the form
/// `#/components/schemas/<Name>` until resolution clears it.
pub struct Schema {
    pub schema_type: Option<String>,
    pub format: Option<String>,
    pub description: Option<String>,
    pub properties: Option<Vec<(String, Schema)>>,
    pub items: Option<Box<Schema>>,
    pub required: Option<Vec<String>>,
    pub all_of: Option<Vec<Schema>>,
    pub one_of: Option<Vec<Schema>>,
    pub any_of: Option<Vec<Schema>>,
    pub not_schema: Option<Box<Schema>>,
    pub additional_properties: Option<Box<Schema>>,
    pub nullable: Option<bool>,
    pub read_only: Option<bool>,
    pub write_only: Option<bool>,
    pub example: Option<serde_json::Value>,
    pub enum_: Option<Vec<serde_json::Value>>,
    pub default: Option<serde_json::Value>,
    pub reference: Option<String>,
}

/// The mathematical value of a schema node: the attributes the resolver
/// and the extractor read, with names as character sequences.
pub ghost struct SchemaModel {
    pub schema_type: Option<Seq<char>>,
    pub format: Option<Seq<char>>,
    pub description: Option<Seq<char>>,
    pub properties: Option<Seq<(Seq<char>, SchemaModel)>>,
    pub items: Option<Box<SchemaModel>>,
    pub required: Option<Seq<Seq<char>>>,
    pub all_of: Option<Seq<SchemaModel>>,
    pub one_of: Option<Seq<SchemaModel>>,
    pub any_of: Option<Seq<SchemaModel>>,
    pub not_schema: Option<Box<SchemaModel>>,
    pub additional_properties: Option<Box<SchemaModel>>,
    pub nullable: Option<bool>,
    pub read_only: Option<bool>,
    pub write_only: Option<bool>,
    pub enum_len: Option<nat>,
    pub reference: Option<Seq<char>>,
}

/// The views of a sequence of names.
pub open spec fn names_view(v: Seq<String>) -> Seq<Seq<char>> {
    Seq::new(v.len(), |i: int| v[i]@)
}

/// Models of a property list, names paired with sub-schema models.
pub open spec fn model_props(ps: Seq<(String, Schema)>) -> Seq<(Seq<char>, SchemaModel)>
    decreases ps,
{
    if ps.len() == 0 {
        Seq::empty()
    } else {
        model_props(ps.drop_last()).push((ps.last().0@, ps.last().1.model()))
    }
}

/// Models of a schema list.
pub open spec fn model_list(ss: Seq<Schema>) -> Seq<SchemaModel>
    decreases ss,
{
    if ss.len() == 0 {
        Seq::empty()
    } else {
        model_list(ss.drop_last()).push(ss.last().model())
    }
}

impl Schema {
    /// The model of this node.
    pub open spec fn model(self) -> SchemaModel
        decreases self,
    {
        SchemaModel {
            schema_type: match self.schema_type {
                Option::Some(s) => Option::Some(s@),
                Option::None => Option::None,
            },
            format: match self.format {
                Option::Some(s) => Option::Some(s@),
                Option::None => Option::None,
            },
            description: match self.description {
                Option::Some(s) => Option::Some(s@),
                Option::None => Option::None,
            },
            properties: match self.properties {
                Option::Some(ps) => Option::Some(model_props(ps@)),
                Option::None => Option::None,
            },
            items: match self.items {
                Option::Some(b) => Option::Some(Box::new((*b).model())),
                Option::None => Option::None,
            },
            required: match self.required {
                Option::Some(v) => Option::Some(names_view(v@)),
                Option::None => Option::None,
            },
            all_of: match self.all_of {
                Option::Some(l) => Option::Some(model_list(l@)),
                Option::None => Option::None,
            },
            one_of: match self.one_of {
                Option::Some(l) => Option::Some(model_list(l@)),
                Option::None => Option::None,
            },
            any_of: match self.any_of {
                Option::Some(l) => Option::Some(model_list(l@)),
                Option::None => Option::None,
            },
            not_schema: match self.not_schema {
                Option::Some(b) => Option::Some(Box::new((*b).model())),
                Option::None => Option::None,
            },
            additional_properties: match self.additional_properties {
                Option::Some(b) => Option::Some(Box::new((*b).model())),
                Option::None => Option::None,
            },
            nullable: self.nullable,
            read_only: self.read_only,
            write_only: self.write_only,
            enum_len: match self.enum_ {
                Option::Some(v) => Option::Some(v@.len() as nat),
                Option::None => Option::None,
            },
            reference: match self.reference {
                Option::Some(s) => Option::Some(s@),
                Option::None => Option::None,
            },
        }
    }
}

pub proof fn lemma_model_props(ps: Seq<(String, Schema)>)
    ensures
        model_props(ps).len() == ps.len(),
        forall|i: int|
            0 <= i < ps.len() ==> #[trigger] model_props(ps)[i] == (ps[i].0@, ps[i].1.model()),
    decreases ps,
{
    if ps.len() > 0 {
        lemma_model_props(ps.drop_last());
    }
}

pub proof fn lemma_model_list(ss: Seq<Schema>)
    ensures
        model_list(ss).len() == ss.len(),
        forall|i: int| 0 <= i < ss.len() ==> #[trigger] model_list(ss)[i] == ss[i].model(),
    decreases ss,
{
    if ss.len() > 0 {
        lemma_model_list(ss.drop_last());
    }
}

/// The property names of a node, in declaration order.
pub open spec fn prop_names(ps: Seq<(Seq<char>, SchemaModel)>) -> Seq<Seq<char>> {
    ps.map_values(|p: (Seq<char>, SchemaModel)| p.0)
}

/// Every field name reachable from a schema: its own property names,
/// then the names of the item sub-schema, then those of each member of
/// the three composition lists, in that order, duplicates kept.
pub open spec fn spec_field_names(m: SchemaModel) -> Seq<Seq<char>>
    decreases m,
{
    (match m.properties {
        Option::Some(ps) => prop_names(ps),
        Option::None => Seq::empty(),
    }) + (match m.items {
        Option::Some(b) => spec_field_names(*b),
        Option::None => Seq::empty(),
    }) + (match m.all_of {
        Option::Some(l) => list_field_names(l),
        Option::None => Seq::empty(),
    }) + (match m.one_of {
        Option::Some(l) => list_field_names(l),
        Option::None => Seq::empty(),
    }) + (match m.any_of {
        Option::Some(l) => list_field_names(l),
        Option::None => Seq::empty(),
    })
}

/// Field names of a list of schemas, concatenated in order.
pub open spec fn list_field_names(l: Seq<SchemaModel>) -> Seq<Seq<char>>
    decreases l,
{
    if l.len() == 0 {
        Seq::empty()
    } else {
        list_field_names(l.drop_last()) + spec_field_names(l.last())
    }
}

/// The type attribute recorded for a directly declared property.
pub open spec fn spec_field_type(m: SchemaModel, name: Seq<char>) -> Option<Seq<char>> {
    match m.properties {
        Option::Some(ps) => match crate::assoc::assoc_lookup(ps, name) {
            Option::Some(p) => p.schema_type,
            Option::None => Option::None,
        },
        Option::None => Option::None,
    }
}

/// The description recorded for a directly declared property.
pub open spec fn spec_field_description(m: SchemaModel, name: Seq<char>) -> Option<Seq<char>> {
    match m.properties {
        Option::Some(ps) => match crate::assoc::assoc_lookup(ps, name) {
            Option::Some(p) => p.description,
            Option::None => Option::None,
        },
        Option::None => Option::None,
    }
}

/// The format recorded for a directly declared property.
pub open spec fn spec_field_format(m: SchemaModel, name: Seq<char>) -> Option<Seq<char>> {
    match m.properties {
        Option::Some(ps) => match crate::assoc::assoc_lookup(ps, name) {
            Option::Some(p) => p.format,
            Option::None => Option::None,
        },
        Option::None => Option::None,
    }
}

/// The view of an optional owned string.
pub open spec fn opt_view(o: Option<String>) -> Option<Seq<char>> {
    match o {
        Option::Some(s) => Option::Some(s@),
        Option::None => Option::None,
    }
}

impl Schema {
    /// Every field name reachable from this node, in extraction order.
    pub fn get_field_names(&self) -> (r: Vec<String>)
        ensures
            names_view(r@) == spec_field_names(self.model()),
        decreases *self,
    {
        let mut r: Vec<String> = Vec::new();
        if let Option::Some(ps) = &self.properties {
            let mut i: usize = 0;
            while i < ps.len()
                invariant
                    i <= ps@.len(),
                    r@.len() == i,
                    forall|k: int| 0 <= k < i ==> #[trigger] r@[k]@ == ps@[k].0@,
                decreases ps@.len() - i,
            {
                r.push(ps[i].0.clone());
                i = i + 1;
            }
            proof {
                lemma_model_props(ps@);
                assert(names_view(r@) =~= prop_names(model_props(ps@)));
            }
        }
        if let Option::Some(b) = &self.items {
            let mut sub = b.get_field_names();
            proof {
                assert(names_view(r@ + sub@) =~= names_view(r@) + names_view(sub@));
            }
            r.append(&mut sub);
        }
        if let Option::Some(l) = &self.all_of {
            let mut sub = fields_of_schema_list(l);
            proof {
                assert(names_view(r@ + sub@) =~= names_view(r@) + names_view(sub@));
            }
            r.append(&mut sub);
        }
        if let Option::Some(l) = &self.one_of {
            let mut sub = fields_of_schema_list(l);
            proof {
                assert(names_view(r@ + sub@) =~= names_view(r@) + names_view(sub@));
            }
            r.append(&mut sub);
        }
        if let Option::Some(l) = &self.any_of {
            let mut sub = fields_of_schema_list(l);
            proof {
                assert(names_view(r@ + sub@) =~= names_view(r@) + names_view(sub@));
            }
            r.append(&mut sub);
        }
        r
    }

    /// Scan of the property list for a name; first declaration wins.
    fn find_property(&self, field_name: &str) -> (r: Option<&Schema>)
        ensures
            match self.model().properties {
                Option::Some(ps) => match crate::assoc::assoc_lookup(ps, field_name@) {
                    Option::Some(p) => r is Some && r->0.model() == p,
                    Option::None => r is None,
                },
                Option::None => r is None,
            },
    {
        if let Option::Some(ps) = &self.properties {
            proof {
                lemma_model_props(ps@);
            }
            let mut i: usize = 0;
            while i < ps.len()
                invariant
                    self.model().properties == Option::Some(model_props(ps@)),
                    i <= ps@.len(),
                    model_props(ps@).len() == ps@.len(),
                    forall|k: int|
                        0 <= k < ps@.len() ==> #[trigger] model_props(ps@)[k] == (
                        ps@[k].0@,
                        ps@[k].1.model(),
                        ),
                    forall|k: int| 0 <= k < i ==> #[trigger] ps@[k].0@ != field_name@,
                decreases ps@.len() - i,
            {
                if crate::text::str_eq(ps[i].0.as_str(), field_name) {
                    proof {
                        crate::assoc::lemma_assoc_match_at(model_props(ps@), field_name@, i as int);
                    }
                    return Option::Some(&ps[i].1);
                }
                i = i + 1;
            }
            proof {
                crate::assoc::lemma_assoc_no_match(model_props(ps@), field_name@);
            }
            Option::None
        } else {
            Option::None
        }
    }

    /// The declared type of a directly declared property, if any.
    pub fn get_field_type(&self, field_name: &str) -> (r: Option<String>)
        ensures
            opt_view(r) == spec_field_type(self.model(), field_name@),
    {
        match self.find_property(field_name) {
            Option::Some(p) => match &p.schema_type {
                Option::Some(t) => Option::Some(t.clone()),
                Option::None => Option::None,
            },
            Option::None => Option::None,
        }
    }

    /// The description of a directly declared property, if any.
    pub fn get_field_description(&self, field_name: &str) -> (r: Option<String>)
        ensures
            opt_view(r) == spec_field_description(self.model(), field_name@),
    {
        match self.find_property(field_name) {
            Option::Some(p) => match &p.description {
                Option::Some(t) => Option::Some(t.clone()),
                Option::None => Option::None,
            },
            Option::None => Option::None,
        }
    }

    /// The format of a directly declared property, if any.
    pub fn get_field_format(&self, field_name: &str) -> (r: Option<String>)
        ensures
            opt_view(r) == spec_field_format(self.model(), field_name@),
    {
        match self.find_property(field_name) {
            Option::Some(p) => match &p.format {
                Option::Some(t) => Option::Some(t.clone()),
                Option::None => Option::None,
            },
            Option::None => Option::None,
        }
    }

    /// Whether the name stands in the required list.
    pub fn is_field_required(&self, field_name: &str) -> (r: bool)
        ensures
            r == match self.model().required {
                Option::Some(names) => names.contains(field_name@),
                Option::None => false,
            },
    {
        if let Option::Some(req) = &self.required {
            let mut i: usize = 0;
            while i < req.len()
                invariant
                    self.model().required == Option::Some(names_view(req@)),
                    i <= req@.len(),
                    forall|k: int| 0 <= k < i ==> #[trigger] req@[k]@ != field_name@,
                decreases req@.len() - i,
            {
                if crate::text::str_eq(req[i].as_str(), field_name) {
                    proof {
                        assert(self.model().required == Option::Some(names_view(req@)));
                        assert(names_view(req@)[i as int] == field_name@);
                        assert(names_view(req@).contains(field_name@));
                    }
                    return true;
                }
                i = i + 1;
            }
            proof {
                assert forall|k: int| 0 <= k < names_view(req@).len() implies names_view(req@)[k]
                    != field_name@ by {}
            }
            false
        } else {
            false
        }
    }

    /// The enumeration members declared for a property. The payloads are
    /// opaque JSON values; their presence and number are stated, their
    /// content is not.
    pub fn get_field_enum_values(&self, field_name: &str) -> (r: Option<Vec<serde_json::Value>>)
        ensures
            match self.model().properties {
                Option::Some(ps) => match crate::assoc::assoc_lookup(ps, field_name@) {
                    Option::Some(p) => (r is Some <==> p.enum_len is Some) && (r matches
                        Option::Some(v) ==> Option::Some(v@.len() as nat) == p.enum_len),
                    Option::None => r is None,
                },
                Option::None => r is None,
            },
    {
        match self.find_property(field_name) {
            Option::Some(p) => match &p.enum_ {
                Option::Some(vals) => {
                    let mut out: Vec<serde_json::Value> = Vec::new();
                    let mut i: usize = 0;
                    while i < vals.len()
                        invariant
                            i <= vals@.len(),
                            out@.len() == i,
                        decreases vals@.len() - i,
                    {
                        out.push(vals[i].clone());
                        i = i + 1;
                    }
                    proof {
                        assert(out@.len() == vals@.len());
                        assert(p.model().enum_len == Option::Some(vals@.len() as nat));
                    }
                    Option::Some(out)
                },
                Option::None => Option::None,
            },
            Option::None => Option::None,
        }
    }
}

/// The model of a node with every attribute unset.
pub open spec fn empty_schema_model() -> SchemaModel {
    SchemaModel {
        schema_type: Option::None,
        format: Option::None,
        description: Option::None,
        properties: Option::None,
        items: Option::None,
        required: Option::None,
        all_of: Option::None,
        one_of: Option::None,
        any_of: Option::None,
        not_schema: Option::None,
        additional_properties: Option::None,
        nullable: Option::None,
        read_only: Option::None,
        write_only: Option::None,
        enum_len: Option::None,
        reference: Option::None,
    }
}

impl Default for Schema {
    /// A node with every attribute unset.
    fn default() -> (r: Schema)
        ensures
            r.model() == empty_schema_model(),
    {
        Schema {
            schema_type: Option::None,
            format: Option::None,
            description: Option::None,
            properties: Option::None,
            items: Option::None,
            required: Option::None,
            all_of: Option::None,
            one_of: Option::None,
            any_of: Option::None,
            not_schema: Option::None,
            additional_properties: Option::None,
            nullable: Option::None,
            read_only: Option::None,
            write_only: Option::None,
            example: Option::None,
            enum_: Option::None,
            default: Option::None,
            reference: Option::None,
        }
    }
}

/// A copy of an optional owned string, with the same view.
pub fn clone_opt_string(o: &Option<String>) -> (r: Option<String>)
    ensures
        opt_view(r) == opt_view(*o),
{
    match o {
        Option::Some(s) => Option::Some(s.clone()),
        Option::None => Option::None,
    }
}

/// A copy of a name list, with the same views.
pub fn clone_string_vec(v: &Vec<String>) -> (r: Vec<String>)
    ensures
        names_view(r@) == names_view(v@),
{
    let mut r: Vec<String> = Vec::new();
    let mut i: usize = 0;
    while i < v.len()
        invariant
            i <= v@.len(),
            r@.len() == i,
            forall|k: int| 0 <= k < i ==> #[trigger] r@[k]@ == v@[k]@,
        decreases v@.len() - i,
    {
        r.push(v[i].clone());
        i = i + 1;
    }
    proof {
        assert(names_view(r@) =~= names_view(v@));
    }
    r
}

/// Membership of a name in a name list.
pub fn contains_name(v: &Vec<String>, s: &str) -> (r: bool)
    ensures
        r == names_view(v@).contains(s@),
{
    let mut i: usize = 0;
    while i < v.len()
        invariant
            i <= v@.len(),
            forall|k: int| 0 <= k < i ==> #[trigger] v@[k]@ != s@,
        decreases v@.len() - i,
    {
        if crate::text::str_eq(v[i].as_str(), s) {
            proof {
                assert(names_view(v@)[i as int] == s@);
            }
            return true;
        }
        i = i + 1;
    }
    proof {
        assert forall|k: int| 0 <= k < names_view(v@).len() implies names_view(v@)[k] != s@ by {}
    }
    false
}

/// A copy of a list of opaque JSON payloads.
pub fn clone_value_vec(v: &Vec<serde_json::Value>) -> (r: Vec<serde_json::Value>)
    ensures
        r@.len() == v@.len(),
{
    let mut r: Vec<serde_json::Value> = Vec::new();
    let mut i: usize = 0;
    while i < v.len()
        invariant
            i <= v@.len(),
            r@.len() == i,
        decreases v@.len() - i,
    {
        r.push(v[i].clone());
        i = i + 1;
    }
    r
}

/// A deep copy of a schema node, with the same model.
pub fn clone_schema(s: &Schema) -> (r: Schema)
    ensures
        r.model() == s.model(),
    decreases *s,
{
    Schema {
        schema_type: clone_opt_string(&s.schema_type),
        format: clone_opt_string(&s.format),
        description: clone_opt_string(&s.description),
        properties: match &s.properties {
            Option::Some(ps) => Option::Some(clone_props(ps)),
            Option::None => Option::None,
        },
        items: match &s.items {
            Option::Some(b) => Option::Some(Box::new(clone_schema(b))),
            Option::None => Option::None,
        },
        required: match &s.required {
            Option::Some(v) => Option::Some(clone_string_vec(v)),
            Option::None => Option::None,
        },
        all_of: match &s.all_of {
            Option::Some(l) => Option::Some(clone_schema_list(l)),
            Option::None => Option::None,
        },
        one_of: match &s.one_of {
            Option::Some(l) => Option::Some(clone_schema_list(l)),
            Option::None => Option::None,
        },
        any_of: match &s.any_of {
            Option::Some(l) => Option::Some(clone_schema_list(l)),
            Option::None => Option::None,
        },
        not_schema: match &s.not_schema {
            Option::Some(b) => Option::Some(Box::new(clone_schema(b))),
            Option::None => Option::None,
        },
        additional_properties: match &s.additional_properties {
            Option::Some(b) => Option::Some(Box::new(clone_schema(b))),
            Option::None => Option::None,
        },
        nullable: s.nullable,
        read_only: s.read_only,
        write_only: s.write_only,
        example: match &s.example {
            Option::Some(v) => Option::Some(v.clone()),
            Option::None => Option::None,
        },
        enum_: match &s.enum_ {
            Option::Some(v) => Option::Some(clone_value_vec(v)),
            Option::None => Option::None,
        },
        default: match &s.default {
            Option::Some(v) => Option::Some(v.clone()),
            Option::None => Option::None,
        },
        reference: clone_opt_string(&s.reference),
    }
}

/// A deep copy of a property list, with the same models.
pub fn clone_props(ps: &Vec<(String, Schema)>) -> (r: Vec<(String, Schema)>)
    ensures
        model_props(r@) == model_props(ps@),
    decreases *ps,
{
    let mut r: Vec<(String, Schema)> = Vec::new();
    let mut i: usize = 0;
    while i < ps.len()
        invariant
            i <= ps@.len(),
            r@.len() == i,
            forall|k: int|
                0 <= k < i ==> #[trigger] r@[k].0@ == ps@[k].0@ && r@[k].1.model()
                    == ps@[k].1.model(),
        decreases ps@.len() - i,
    {
        proof {
            assert(decreases_to!(*ps => ps@[i as int].1));
        }
        let name = ps[i].0.clone();
        let sub = clone_schema(&ps[i].1);
        r.push((name, sub));
        i = i + 1;
    }
    proof {
        lemma_model_props(r@);
        lemma_model_props(ps@);
        assert(model_props(r@) =~= model_props(ps@));
    }
    r
}

/// A deep copy of a schema list, with the same models.
pub fn clone_schema_list(l: &Vec<Schema>) -> (r: Vec<Schema>)
    ensures
        model_list(r@) == model_list(l@),
    decreases *l,
{
    let mut r: Vec<Schema> = Vec::new();
    let mut i: usize = 0;
    while i < l.len()
        invariant
            i <= l@.len(),
            r@.len() == i,
            forall|k: int| 0 <= k < i ==> #[trigger] r@[k].model() == l@[k].model(),
        decreases l@.len() - i,
    {
        proof {
            assert(decreases_to!(*l => l@[i as int]));
        }
        let sub = clone_schema(&l[i]);
        r.push(sub);
        i = i + 1;
    }
    proof {
        lemma_model_list(r@);
        lemma_model_list(l@);
        assert(model_list(r@) =~= model_list(l@));
    }
    r
}

/// Field names of each member of a schema list, concatenated.
fn fields_of_schema_list(l: &Vec<Schema>) -> (r: Vec<String>)
    ensures
        names_view(r@) == list_field_names(model_list(l@)),
    decreases *l,
{
    let mut r: Vec<String> = Vec::new();
    let mut i: usize = 0;
    proof {
        assert(l@.subrange(0, 0) =~= Seq::<Schema>::empty());
    }
    while i < l.len()
        invariant
            i <= l@.len(),
            names_view(r@) == list_field_names(model_list(l@.subrange(0, i as int))),
        decreases l@.len() - i,
    {
        proof {
            assert(decreases_to!(*l => l@[i as int]));
        }
        let mut sub = l[i].get_field_names();
        proof {
            let pre = l@.subrange(0, i as int);
            let ext = l@.subrange(0, i + 1 as int);
            assert(ext.drop_last() =~= pre);
            assert(ext.last() == l@[i as int]);
            assert(model_list(ext).drop_last() =~= model_list(pre)) by {
                assert(model_list(ext) == model_list(ext.drop_last()).push(ext.last().model()));
            }
            assert(list_field_names(model_list(ext)) == list_field_names(model_list(pre))
                + spec_field_names(l@[i as int].model())) by {
                assert(model_list(ext) == model_list(pre).push(ext.last().model()));
                assert(model_list(pre).push(ext.last().model()).drop_last() =~= model_list(pre));
            }
            assert(names_view(r@ + sub@) =~= names_view(r@) + names_view(sub@));
        }
        r.append(&mut sub);
        i = i + 1;
    }
    proof {
        assert(l@.subrange(0, l@.len() as int) =~= l@);
    }
    r
}

} // verus!
