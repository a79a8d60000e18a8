//! The validation pass: structural anomalies of a built index, each one
//! a human-readable warning. The pass never fails; no warnings is itself
//! a valid outcome.

use vstd::prelude::*;
use vstd::string::StringExecFns;
use crate::document::{OpenApiSpec, DocumentModel, PathItemModel, OperationModel};
use crate::indexer::{FieldIndex, FieldIndexModel, FieldDataModel};
use crate::schema::names_view;
use crate::text::{dec_digits, u64_to_string};

verus! {

/// The warnings about the components section: a missing section, or one
/// without schemas.
pub open spec fn components_warnings(d: DocumentModel) -> Seq<Seq<char>> {
    match d.components {
        Option::None => seq!["No components section found in OpenAPI spec"@],
        Option::Some(c) => match c.schemas {
            Option::None => seq!["No schemas defined in components"@],
            Option::Some(ss) => if ss.len() == 0 {
                seq!["No schemas defined in components"@]
            } else {
                Seq::empty()
            },
        },
    }
}

pub open spec fn paths_warning(d: DocumentModel) -> Seq<Seq<char>> {
    if d.paths.len() == 0 {
        seq!["No paths/endpoints defined in spec"@]
    } else {
        Seq::empty()
    }
}

/// One warning per indexed field whose recorded type is `unknown`, in
/// index order.
pub open spec fn unknown_type_warnings(fs: Seq<(Seq<char>, FieldDataModel)>) -> Seq<Seq<char>>
    decreases fs,
{
    if fs.len() == 0 {
        Seq::empty()
    } else {
        unknown_type_warnings(fs.drop_last()) + (if fs.last().1.field_type == "unknown"@ {
            seq!["Field '"@ + fs.last().0 + "' has unknown type"@]
        } else {
            Seq::empty()
        })
    }
}

/// One warning per path without operations, in document order.
pub open spec fn no_ops_warnings(paths: Seq<(Seq<char>, PathItemModel)>) -> Seq<Seq<char>>
    decreases paths,
{
    if paths.len() == 0 {
        Seq::empty()
    } else {
        no_ops_warnings(paths.drop_last()) + (if paths.last().1.operations.len() == 0 {
            seq!["Path '"@ + paths.last().0 + "' has no operations defined"@]
        } else {
            Seq::empty()
        })
    }
}

/// An operation describing itself neither by summary nor by description.
pub open spec fn op_undescribed(o: OperationModel) -> bool {
    o.summary is None && o.description is None
}

/// A count stepped up by one, held at the machine limit: a document
/// cannot hold that many operations, and the counter cannot overflow.
pub open spec fn sat_inc(n: nat) -> nat {
    if n < u64::MAX {
        n + 1
    } else {
        n
    }
}

pub open spec fn undescribed_in_path(ops: Seq<(Seq<char>, OperationModel)>, acc: nat) -> nat
    decreases ops,
{
    if ops.len() == 0 {
        acc
    } else {
        if op_undescribed(ops.last().1) {
            sat_inc(undescribed_in_path(ops.drop_last(), acc))
        } else {
            undescribed_in_path(ops.drop_last(), acc)
        }
    }
}

/// How many operations of the document carry neither summary nor
/// description.
pub open spec fn undescribed_count(paths: Seq<(Seq<char>, PathItemModel)>, acc: nat) -> nat
    decreases paths,
{
    if paths.len() == 0 {
        acc
    } else {
        undescribed_in_path(paths.last().1.operations, undescribed_count(paths.drop_last(), acc))
    }
}

pub open spec fn undescribed_warning(paths: Seq<(Seq<char>, PathItemModel)>) -> Seq<Seq<char>> {
    if undescribed_count(paths, 0) > 0 {
        seq![dec_digits(undescribed_count(paths, 0)) + " endpoint(s) missing description/summary"@]
    } else {
        Seq::empty()
    }
}

/// A stored schema is used when some field owned by it stands in at
/// least one endpoint.
pub open spec fn schema_used(m: FieldIndexModel, sname: Seq<char>) -> bool {
    exists|i: int|
        0 <= i < m.fields.len() && (#[trigger] m.fields[i].1).schemas.contains(sname)
            && m.fields[i].1.endpoints.len() > 0
}

pub open spec fn unused_count(m: FieldIndexModel, upto: int) -> nat
    decreases upto,
{
    if upto <= 0 {
        0
    } else {
        unused_count(m, upto - 1) + (if schema_used(m, m.schemas[upto - 1].0) {
            0nat
        } else {
            1nat
        })
    }
}

pub open spec fn unused_warning(m: FieldIndexModel) -> Seq<Seq<char>> {
    if unused_count(m, m.schemas.len() as int) > 0 {
        seq![
            dec_digits(unused_count(m, m.schemas.len() as int))
                + " schema(s) not used in any endpoint"@,
        ]
    } else {
        Seq::empty()
    }
}

/// Every warning of one document and its index, in a fixed order:
/// components, paths, unknown field types, paths without operations,
/// undescribed operations, unused schemas.
pub open spec fn spec_warnings(d: DocumentModel, m: FieldIndexModel) -> Seq<Seq<char>> {
    components_warnings(d) + paths_warning(d) + unknown_type_warnings(m.fields) + no_ops_warnings(
        d.paths,
    ) + undescribed_warning(d.paths) + unused_warning(m)
}

/// Whether some field owned by the named schema stands in an endpoint.
fn schema_used_exec(index: &FieldIndex, sname: &str) -> (r: bool)
    ensures
        r == schema_used(index.model(), sname@),
{
    let ghost m = index.model();
    let mut i: usize = 0;
    while i < index.fields.len()
        invariant
            m == index.model(),
            m.fields.len() == index.fields@.len(),
            i <= index.fields@.len(),
            forall|k: int|
                0 <= k < i ==> !((#[trigger] m.fields[k].1).schemas.contains(sname@)
                    && m.fields[k].1.endpoints.len() > 0),
        decreases index.fields@.len() - i,
    {
        let fd = &index.fields[i].1;
        proof {
            assert(m.fields[i as int].1 == fd.model());
        }
        if crate::schema::contains_name(&fd.schemas, sname) && fd.endpoints.len() > 0 {
            return true;
        }
        i = i + 1;
    }
    false
}

/// One warning per indexed field of unknown type, in index order.
fn unknown_type_pass(index: &FieldIndex) -> (r: Vec<String>)
    ensures
        names_view(r@) == unknown_type_warnings(index.model().fields),
{
    let ghost m = index.model();
    let mut r: Vec<String> = Vec::new();
    let mut i: usize = 0;
    proof {
        assert(m.fields.subrange(0, 0) =~= Seq::<(Seq<char>, FieldDataModel)>::empty());
        assert(names_view(r@) =~= unknown_type_warnings(m.fields.subrange(0, 0)));
    }
    while i < index.fields.len()
        invariant
            m == index.model(),
            m.fields.len() == index.fields@.len(),
            i <= index.fields@.len(),
            names_view(r@) == unknown_type_warnings(m.fields.subrange(0, i as int)),
        decreases index.fields@.len() - i,
    {
        proof {
            let sub1 = m.fields.subrange(0, i + 1 as int);
            assert(sub1.drop_last() =~= m.fields.subrange(0, i as int));
            assert(sub1.last() == m.fields[i as int]);
            assert(m.fields[i as int] == (index.fields@[i as int].0@, index.fields@[
                i as int].1.model()));
        }
        let entry = &index.fields[i];
        if crate::text::str_eq(entry.1.field_type.as_str(), "unknown") {
            let msg = String::from_str("Field '").concat(entry.0.as_str()).concat(
                "' has unknown type",
            );
            r.push(msg);
            proof {
                assert(names_view(r@) =~= unknown_type_warnings(
                    m.fields.subrange(0, i + 1 as int),
                ));
            }
        } else {
            proof {
                assert(names_view(r@) =~= unknown_type_warnings(
                    m.fields.subrange(0, i + 1 as int),
                ));
            }
        }
        i = i + 1;
    }
    proof {
        assert(m.fields.subrange(0, m.fields.len() as int) =~= m.fields);
    }
    r
}

/// One warning per path without operations, in document order.
fn no_ops_pass(doc: &OpenApiSpec) -> (r: Vec<String>)
    ensures
        names_view(r@) == no_ops_warnings(doc.model().paths),
{
    let ghost d = doc.model();
    let mut r: Vec<String> = Vec::new();
    let mut i: usize = 0;
    proof {
        assert(d.paths.subrange(0, 0) =~= Seq::<(Seq<char>, PathItemModel)>::empty());
        assert(names_view(r@) =~= no_ops_warnings(d.paths.subrange(0, 0)));
    }
    while i < doc.paths.len()
        invariant
            d == doc.model(),
            d.paths.len() == doc.paths@.len(),
            i <= doc.paths@.len(),
            names_view(r@) == no_ops_warnings(d.paths.subrange(0, i as int)),
        decreases doc.paths@.len() - i,
    {
        proof {
            let sub1 = d.paths.subrange(0, i + 1 as int);
            assert(sub1.drop_last() =~= d.paths.subrange(0, i as int));
            assert(sub1.last() == d.paths[i as int]);
            assert(d.paths[i as int] == (doc.paths@[i as int].0@, doc.paths@[i as int].1.model()));
        }
        if doc.paths[i].1.operations.len() == 0 {
            let msg = String::from_str("Path '").concat(doc.paths[i].0.as_str()).concat(
                "' has no operations defined",
            );
            r.push(msg);
            proof {
                assert(names_view(r@) =~= no_ops_warnings(d.paths.subrange(0, i + 1 as int)));
            }
        } else {
            proof {
                assert(names_view(r@) =~= no_ops_warnings(d.paths.subrange(0, i + 1 as int)));
            }
        }
        i = i + 1;
    }
    proof {
        assert(d.paths.subrange(0, d.paths.len() as int) =~= d.paths);
    }
    r
}

/// How many operations carry neither summary nor description, held at
/// the machine limit.
fn undescribed_pass(doc: &OpenApiSpec) -> (count: u64)
    ensures
        count as nat == undescribed_count(doc.model().paths, 0),
{
    let ghost d = doc.model();
    let mut count: u64 = 0;
    let mut i: usize = 0;
    proof {
        assert(d.paths.subrange(0, 0) =~= Seq::<(Seq<char>, PathItemModel)>::empty());
    }
    while i < doc.paths.len()
        invariant
            d == doc.model(),
            d.paths.len() == doc.paths@.len(),
            i <= doc.paths@.len(),
            count as nat == undescribed_count(d.paths.subrange(0, i as int), 0),
        decreases doc.paths@.len() - i,
    {
        let ghost base = undescribed_count(d.paths.subrange(0, i as int), 0);
        let ops = &doc.paths[i].1.operations;
        proof {
            assert(d.paths[i as int] == (doc.paths@[i as int].0@, doc.paths@[i as int].1.model()));
            assert(d.paths[i as int].1.operations == crate::document::model_operations(ops@));
        }
        let mut j: usize = 0;
        proof {
            let om = crate::document::model_operations(ops@);
            assert(om.subrange(0, 0) =~= Seq::<(Seq<char>, OperationModel)>::empty());
        }
        while j < ops.len()
            invariant
                i < doc.paths@.len(),
                *ops == doc.paths@[i as int].1.operations,
                crate::document::model_operations(ops@).len() == ops@.len(),
                j <= ops@.len(),
                count as nat == undescribed_in_path(
                    crate::document::model_operations(ops@).subrange(0, j as int),
                    base,
                ),
            decreases ops@.len() - j,
        {
            proof {
                let om = crate::document::model_operations(ops@);
                assert(om.subrange(0, j + 1 as int).drop_last() =~= om.subrange(0, j as int));
                assert(om.subrange(0, j + 1 as int).last() == om[j as int]);
                assert(om[j as int] == (ops@[j as int].0@, ops@[j as int].1.model()));
            }
            let op = &ops[j].1;
            if op.summary.is_none() && op.description.is_none() {
                if count < u64::MAX {
                    count = count + 1;
                }
            }
            j = j + 1;
        }
        proof {
            let om = crate::document::model_operations(ops@);
            assert(om.subrange(0, om.len() as int) =~= om);
            let sub1 = d.paths.subrange(0, i + 1 as int);
            assert(sub1.drop_last() =~= d.paths.subrange(0, i as int));
            assert(sub1.last() == d.paths[i as int]);
        }
        i = i + 1;
    }
    proof {
        assert(d.paths.subrange(0, d.paths.len() as int) =~= d.paths);
    }
    count
}

/// How many stored schemas own no field that stands in an endpoint.
fn unused_pass(index: &FieldIndex) -> (unused: u64)
    ensures
        unused as nat == unused_count(index.model(), index.model().schemas.len() as int),
{
    let ghost m = index.model();
    proof {
        crate::schema::lemma_model_props(index.schemas@);
    }
    let mut unused: u64 = 0;
    let mut k: usize = 0;
    while k < index.schemas.len()
        invariant
            m == index.model(),
            m.schemas.len() == index.schemas@.len(),
            forall|t: int|
                0 <= t < index.schemas@.len() ==> #[trigger] m.schemas[t] == (
                index.schemas@[t].0@,
                index.schemas@[t].1.model(),
                ),
            k <= index.schemas@.len(),
            unused as nat == unused_count(m, k as int),
            unused <= k,
        decreases index.schemas@.len() - k,
    {
        if !schema_used_exec(index, index.schemas[k].0.as_str()) {
            unused = unused + 1;
        }
        k = k + 1;
    }
    unused
}

/// Every warning of the document and its index, in a fixed order.
pub fn compute_validation_warnings(doc: &OpenApiSpec, index: &FieldIndex) -> (r: Vec<String>)
    ensures
        names_view(r@) == spec_warnings(doc.model(), index.model()),
{
    let ghost d = doc.model();
    let ghost m = index.model();
    let mut r: Vec<String> = Vec::new();
    match &doc.components {
        Option::None => {
            r.push(String::from_str("No components section found in OpenAPI spec"));
        },
        Option::Some(c) => match &c.schemas {
            Option::None => {
                r.push(String::from_str("No schemas defined in components"));
            },
            Option::Some(ss) => {
                if ss.len() == 0 {
                    proof {
                        crate::schema::lemma_model_props(ss@);
                    }
                    r.push(String::from_str("No schemas defined in components"));
                } else {
                    proof {
                        crate::schema::lemma_model_props(ss@);
                    }
                }
            },
        },
    }
    proof {
        assert(names_view(r@) =~= components_warnings(d));
    }
    let ghost w1 = names_view(r@);
    if doc.paths.len() == 0 {
        r.push(String::from_str("No paths/endpoints defined in spec"));
    }
    proof {
        assert(names_view(r@) =~= w1 + paths_warning(d));
    }
    let ghost w2 = names_view(r@);
    let mut unknowns = unknown_type_pass(index);
    proof {
        assert(names_view(r@ + unknowns@) =~= names_view(r@) + names_view(unknowns@));
    }
    r.append(&mut unknowns);
    let ghost w3 = names_view(r@);
    let mut no_ops = no_ops_pass(doc);
    proof {
        assert(names_view(r@ + no_ops@) =~= names_view(r@) + names_view(no_ops@));
    }
    r.append(&mut no_ops);
    let ghost w4 = names_view(r@);
    let count = undescribed_pass(doc);
    if count > 0 {
        let msg = u64_to_string(count).concat(" endpoint(s) missing description/summary");
        r.push(msg);
        proof {
            assert(names_view(r@) =~= w4 + undescribed_warning(d.paths));
        }
    } else {
        proof {
            assert(names_view(r@) =~= w4 + undescribed_warning(d.paths));
        }
    }
    let ghost w5 = names_view(r@);
    let unused = unused_pass(index);
    if unused > 0 {
        let msg = u64_to_string(unused).concat(" schema(s) not used in any endpoint");
        r.push(msg);
        proof {
            assert(names_view(r@) =~= w5 + unused_warning(m));
        }
    } else {
        proof {
            assert(names_view(r@) =~= w5 + unused_warning(m));
        }
    }
    proof {
        assert(names_view(r@) =~= spec_warnings(d, m));
    }
    r
}

} // verus!
