//! The ingested document: metadata, a path map of operations, and an
//! optional components section of named schemas. All maps are association
//! lists in document order; models mirror them with names as character
//! sequences.

use vstd::prelude::*;
use crate::schema::{Schema, SchemaModel, model_props, names_view, opt_view};

verus! {

pub struct Info {
    pub title: String,
    pub version: String,
    pub description: Option<String>,
}

pub ghost struct InfoModel {
    pub title: Seq<char>,
    pub version: Seq<char>,
    pub description: Option<Seq<char>>,
}

pub struct Parameter {
    pub name: String,
    pub in_: String,
    pub description: Option<String>,
    pub required: Option<bool>,
    pub schema: Option<Schema>,
}

pub ghost struct ParameterModel {
    pub name: Seq<char>,
    pub in_: Seq<char>,
    pub description: Option<Seq<char>>,
    pub required: Option<bool>,
    pub schema: Option<SchemaModel>,
}

pub struct MediaType {
    pub schema: Option<Schema>,
}

pub ghost struct MediaTypeModel {
    pub schema: Option<SchemaModel>,
}

pub struct RequestBody {
    pub description: Option<String>,
    pub content: Vec<(String, MediaType)>,
}

pub ghost struct RequestBodyModel {
    pub description: Option<Seq<char>>,
    pub content: Seq<(Seq<char>, MediaTypeModel)>,
}

pub struct Response {
    pub description: String,
    pub content: Option<Vec<(String, MediaType)>>,
}

pub ghost struct ResponseModel {
    pub description: Seq<char>,
    pub content: Option<Seq<(Seq<char>, MediaTypeModel)>>,
}

pub struct Operation {
    pub operation_id: Option<String>,
    pub summary: Option<String>,
    pub description: Option<String>,
    pub tags: Option<Vec<String>>,
    pub parameters: Option<Vec<Parameter>>,
    pub request_body: Option<RequestBody>,
    pub responses: Vec<(String, Response)>,
}

pub ghost struct OperationModel {
    pub operation_id: Option<Seq<char>>,
    pub summary: Option<Seq<char>>,
    pub description: Option<Seq<char>>,
    pub tags: Option<Seq<Seq<char>>>,
    pub parameters: Option<Seq<ParameterModel>>,
    pub request_body: Option<RequestBodyModel>,
    pub responses: Seq<(Seq<char>, ResponseModel)>,
}

pub struct PathItem {
    pub operations: Vec<(String, Operation)>,
}

pub ghost struct PathItemModel {
    pub operations: Seq<(Seq<char>, OperationModel)>,
}

pub struct Components {
    pub schemas: Option<Vec<(String, Schema)>>,
}

pub ghost struct ComponentsModel {
    pub schemas: Option<Seq<(Seq<char>, SchemaModel)>>,
}

pub struct OpenApiSpec {
    pub openapi: String,
    pub info: Info,
    pub paths: Vec<(String, PathItem)>,
    pub components: Option<Components>,
}

pub ghost struct DocumentModel {
    pub openapi: Seq<char>,
    pub info: InfoModel,
    pub paths: Seq<(Seq<char>, PathItemModel)>,
    pub components: Option<ComponentsModel>,
}

impl Info {
    pub open spec fn model(self) -> InfoModel {
        InfoModel { title: self.title@, version: self.version@, description: opt_view(self.description) }
    }
}

impl Parameter {
    pub open spec fn model(self) -> ParameterModel {
        ParameterModel {
            name: self.name@,
            in_: self.in_@,
            description: opt_view(self.description),
            required: self.required,
            schema: match self.schema {
                Option::Some(s) => Option::Some(s.model()),
                Option::None => Option::None,
            },
        }
    }
}

impl MediaType {
    pub open spec fn model(self) -> MediaTypeModel {
        MediaTypeModel {
            schema: match self.schema {
                Option::Some(s) => Option::Some(s.model()),
                Option::None => Option::None,
            },
        }
    }
}

pub open spec fn model_media(ms: Seq<(String, MediaType)>) -> Seq<(Seq<char>, MediaTypeModel)> {
    Seq::new(ms.len(), |i: int| (ms[i].0@, ms[i].1.model()))
}

impl RequestBody {
    pub open spec fn model(self) -> RequestBodyModel {
        RequestBodyModel {
            description: opt_view(self.description),
            content: model_media(self.content@),
        }
    }
}

impl Response {
    pub open spec fn model(self) -> ResponseModel {
        ResponseModel {
            description: self.description@,
            content: match self.content {
                Option::Some(c) => Option::Some(model_media(c@)),
                Option::None => Option::None,
            },
        }
    }
}

pub open spec fn model_params(ps: Seq<Parameter>) -> Seq<ParameterModel> {
    Seq::new(ps.len(), |i: int| ps[i].model())
}

pub open spec fn model_responses(rs: Seq<(String, Response)>) -> Seq<(Seq<char>, ResponseModel)> {
    Seq::new(rs.len(), |i: int| (rs[i].0@, rs[i].1.model()))
}

impl Operation {
    pub open spec fn model(self) -> OperationModel {
        OperationModel {
            operation_id: opt_view(self.operation_id),
            summary: opt_view(self.summary),
            description: opt_view(self.description),
            tags: match self.tags {
                Option::Some(t) => Option::Some(names_view(t@)),
                Option::None => Option::None,
            },
            parameters: match self.parameters {
                Option::Some(p) => Option::Some(model_params(p@)),
                Option::None => Option::None,
            },
            request_body: match self.request_body {
                Option::Some(b) => Option::Some(b.model()),
                Option::None => Option::None,
            },
            responses: model_responses(self.responses@),
        }
    }
}

pub open spec fn model_operations(os: Seq<(String, Operation)>) -> Seq<(Seq<char>, OperationModel)> {
    Seq::new(os.len(), |i: int| (os[i].0@, os[i].1.model()))
}

impl PathItem {
    pub open spec fn model(self) -> PathItemModel {
        PathItemModel { operations: model_operations(self.operations@) }
    }
}

impl Components {
    pub open spec fn model(self) -> ComponentsModel {
        ComponentsModel {
            schemas: match self.schemas {
                Option::Some(ss) => Option::Some(model_props(ss@)),
                Option::None => Option::None,
            },
        }
    }
}

pub open spec fn model_paths(ps: Seq<(String, PathItem)>) -> Seq<(Seq<char>, PathItemModel)> {
    Seq::new(ps.len(), |i: int| (ps[i].0@, ps[i].1.model()))
}

impl OpenApiSpec {
    pub open spec fn model(self) -> DocumentModel {
        DocumentModel {
            openapi: self.openapi@,
            info: self.info.model(),
            paths: model_paths(self.paths@),
            components: match self.components {
                Option::Some(c) => Option::Some(c.model()),
                Option::None => Option::None,
            },
        }
    }

    /// The named schemas of the components section; an absent section is
    /// an empty map.
    pub open spec fn schema_entries(self) -> Seq<(Seq<char>, SchemaModel)> {
        doc_schema_entries(self.model())
    }
}

/// The named schemas of a document model; an absent components section is
/// an empty map.
pub open spec fn doc_schema_entries(d: DocumentModel) -> Seq<(Seq<char>, SchemaModel)> {
    match d.components {
        Option::Some(c) => match c.schemas {
            Option::Some(ss) => ss,
            Option::None => Seq::empty(),
        },
        Option::None => Seq::empty(),
    }
}

} // verus!
