//! Assembly of a handler's metadata from its doc comment and body analysis.
use vstd::prelude::*;
use crate::analysis::{HandlerVisitor, ParamInfo, ParamInfoView, apply_updates, content_type_of_builders};
use crate::doc::{DocAnnotations, parse_doc_annotations, doc_annotations_spec};
use crate::openapi::{
    HandlerMeta, HandlerMetaView, ParamMeta, ParamLocation, ParamView, RequestBodyMeta, opt_str_view,
    pair_views,
};
use crate::order::views;
use crate::parser::views_of;
use crate::text::lit;

verus! {

/// Collects the parts of a handler's metadata, then builds it.
pub struct MetaTokenBuilder {
    pub summary: Option<String>,
    pub description: Option<String>,
    pub tags: Vec<String>,
    pub security: Vec<String>,
    pub params: Vec<ParamInfo>,
    pub request_body: Option<String>,
    pub response_content_type: String,
    pub response_fields: Vec<String>,
    pub deprecated: bool,
    pub responses: Vec<(String, String)>,
}

/// A detected parameter as documented: path parameters in the path, the
/// others in the query.
pub open spec fn param_meta_of(p: ParamInfoView) -> ParamView {
    (p.0, if p.1 { ParamLocation::Path } else { ParamLocation::Query }, p.2, p.3, p.4)
}

pub open spec fn param_metas_of(ps: Seq<ParamInfoView>) -> Seq<ParamView> {
    ps.map_values(|p: ParamInfoView| param_meta_of(p))
}

impl MetaTokenBuilder {
    /// A builder with nothing set: no summary, description or body, empty
    /// lists, an empty content type, not deprecated.
    pub fn new() -> (r: Self)
        ensures
            r.summary.is_none(),
            r.description.is_none(),
            r.tags@.len() == 0,
            r.security@.len() == 0,
            r.params@.len() == 0,
            r.request_body.is_none(),
            r.response_content_type@.len() == 0,
            r.response_fields@.len() == 0,
            !r.deprecated,
            r.responses@.len() == 0,
    {
        MetaTokenBuilder {
            summary: None,
            description: None,
            tags: Vec::new(),
            security: Vec::new(),
            params: Vec::new(),
            request_body: None,
            response_content_type: String::new(),
            response_fields: Vec::new(),
            deprecated: false,
            responses: Vec::new(),
        }
    }

    /// Sets the summary.
    pub fn summary(self, v: Option<String>) -> (r: Self)
        ensures
            r == (MetaTokenBuilder { summary: v, ..self }),
    {
        MetaTokenBuilder { summary: v, ..self }
    }

    /// Sets the description.
    pub fn description(self, v: Option<String>) -> (r: Self)
        ensures
            r == (MetaTokenBuilder { description: v, ..self }),
    {
        MetaTokenBuilder { description: v, ..self }
    }

    /// Sets the tags.
    pub fn tags(self, v: Vec<String>) -> (r: Self)
        ensures
            r == (MetaTokenBuilder { tags: v, ..self }),
    {
        MetaTokenBuilder { tags: v, ..self }
    }

    /// Sets the security requirements.
    pub fn security(self, v: Vec<String>) -> (r: Self)
        ensures
            r == (MetaTokenBuilder { security: v, ..self }),
    {
        MetaTokenBuilder { security: v, ..self }
    }

    /// Sets the detected parameters.
    pub fn params(self, v: Vec<ParamInfo>) -> (r: Self)
        ensures
            r == (MetaTokenBuilder { params: v, ..self }),
    {
        MetaTokenBuilder { params: v, ..self }
    }

    /// Sets the request body type name.
    pub fn request_body(self, v: Option<String>) -> (r: Self)
        ensures
            r == (MetaTokenBuilder { request_body: v, ..self }),
    {
        MetaTokenBuilder { request_body: v, ..self }
    }

    /// Sets the response content type.
    pub fn response_content_type(self, v: &str) -> (r: Self)
        ensures
            r.response_content_type@ == v@,
            r == (MetaTokenBuilder { response_content_type: r.response_content_type, ..self }),
    {
        MetaTokenBuilder { response_content_type: lit(v), ..self }
    }

    /// Sets the response field names.
    pub fn response_fields(self, v: Vec<String>) -> (r: Self)
        ensures
            r == (MetaTokenBuilder { response_fields: v, ..self }),
    {
        MetaTokenBuilder { response_fields: v, ..self }
    }

    /// Sets the deprecation flag.
    pub fn deprecated(self, v: bool) -> (r: Self)
        ensures
            r == (MetaTokenBuilder { deprecated: v, ..self }),
    {
        MetaTokenBuilder { deprecated: v, ..self }
    }

    /// Sets the extra response descriptions.
    pub fn responses(self, v: Vec<(String, String)>) -> (r: Self)
        ensures
            r == (MetaTokenBuilder { responses: v, ..self }),
    {
        MetaTokenBuilder { responses: v, ..self }
    }

    /// The metadata these parts describe. A request body is JSON; a path
    /// parameter is documented in the path, any other in the query.
    pub open spec fn meta_spec(&self) -> HandlerMetaView {
        HandlerMetaView {
            summary: opt_str_view(self.summary),
            description: opt_str_view(self.description),
            tags: views_of(self.tags@),
            security: views_of(self.security@),
            parameters: param_metas_of(views(self.params@)),
            request_body: match self.request_body {
                Some(t) => Some(("application/json"@, t@)),
                None => None,
            },
            response_content_type: self.response_content_type@,
            response_schema_fields: views_of(self.response_fields@),
            deprecated: self.deprecated,
            responses: pair_views(self.responses@),
        }
    }

    /// Builds the handler metadata.
    pub fn build(self) -> (r: HandlerMeta)
        ensures
            r@ == self.meta_spec(),
    {
        let ghost pv = views(self.params@);
        let mut parameters: Vec<ParamMeta> = Vec::new();
        let mut i: usize = 0;
        while i < self.params.len()
            invariant
                i <= self.params@.len(),
                pv == views(self.params@),
                views(parameters@) == param_metas_of(pv.take(i as int)),
            decreases self.params@.len() - i,
        {
            let p = &self.params[i];
            let location = if p.is_path { ParamLocation::Path } else { ParamLocation::Query };
            let m = ParamMeta {
                name: p.name.clone(),
                location: location,
                required: p.required,
                schema_type: p.schema_type.clone(),
                schema_format: crate::openapi::clone_opt_string(&p.schema_format),
            };
            let ghost before = views(parameters@);
            parameters.push(m);
            assert(views(parameters@) =~= before.push(param_meta_of(pv[i as int])));
            assert(pv.take(i + 1) =~= pv.take(i as int).push(pv[i as int]));
            assert(param_metas_of(pv.take(i + 1)) =~= param_metas_of(pv.take(i as int)).push(param_meta_of(pv[i as int])));
            i = i + 1;
        }
        assert(pv.take(self.params@.len() as int) =~= pv);
        let request_body = match self.request_body {
            Some(t) => Some(RequestBodyMeta { content_type: lit("application/json"), schema_type_name: t }),
            None => None,
        };
        HandlerMeta {
            summary: self.summary,
            description: self.description,
            tags: self.tags,
            security: self.security,
            parameters: parameters,
            request_body: request_body,
            response_content_type: self.response_content_type,
            response_schema_fields: self.response_fields,
            deprecated: self.deprecated,
            responses: self.responses,
        }
    }
}

/// The metadata of a handler, from its doc lines and from the analysis of
/// its body: the doc comment gives summary, description, tags, security,
/// deprecation and extra responses; the body gives the parameters (with the
/// scheduled type updates applied), the request body type, the response
/// content type and the response field names.
pub open spec fn handler_meta_spec(docs: Seq<Seq<char>>, v: HandlerVisitor) -> HandlerMetaView {
    let d = doc_annotations_spec(docs);
    HandlerMetaView {
        summary: d.summary,
        description: d.description,
        tags: d.tags,
        security: d.security,
        parameters: param_metas_of(apply_updates(views(v.params@), v.pending_updates())),
        request_body: match v.body_type_name {
            Some(t) => Some(("application/json"@, t@)),
            None => None,
        },
        response_content_type: content_type_of_builders(views_of(v.response_builders@)),
        response_schema_fields: views_of(v.json_macro_keys@),
        deprecated: d.deprecated,
        responses: d.responses,
    }
}

/// Analyzes a handler: `docs` are its doc lines in order, `visitor` has
/// walked its body. Returns the handler's metadata.
pub fn analyze_handler(docs: &[String], visitor: HandlerVisitor) -> (r: HandlerMeta)
    ensures
        r@ == handler_meta_spec(views_of(docs@), visitor),
{
    let doc: DocAnnotations = parse_doc_annotations(docs);
    let mut visitor = visitor;
    visitor.apply_deferred_type_updates();
    let response_ct = visitor.response_content_type();
    MetaTokenBuilder::new()
        .summary(doc.summary)
        .description(doc.description)
        .tags(doc.tags)
        .security(doc.security)
        .params(visitor.params)
        .request_body(visitor.body_type_name)
        .response_content_type(response_ct)
        .response_fields(visitor.json_macro_keys)
        .deprecated(doc.deprecated)
        .responses(doc.responses)
        .build()
}

/// Every parameter that the body analysis detected is documented, in the
/// order detected, under its own name: a path parameter in the path, any
/// other in the query, required exactly when it was detected as required.
pub proof fn law_detected_params_documented(docs: Seq<Seq<char>>, v: HandlerVisitor)
    ensures
        handler_meta_spec(docs, v).parameters.len() == v.params@.len(),
        forall|k: int| 0 <= k < v.params@.len() ==> {
            let p = #[trigger] handler_meta_spec(docs, v).parameters[k];
            &&& p.0 == v.params@[k].name@
            &&& (p.1 == ParamLocation::Path) == v.params@[k].is_path
            &&& (p.1 == ParamLocation::Query) == !v.params@[k].is_path
            &&& p.2 == v.params@[k].required
        },
{
    let ps = views(v.params@);
    crate::analysis::lemma_updates_keep_flags(ps, v.pending_updates());
    assert forall|k: int| 0 <= k < v.params@.len() implies {
        let p = #[trigger] handler_meta_spec(docs, v).parameters[k];
        &&& p.0 == v.params@[k].name@
        &&& (p.1 == ParamLocation::Path) == v.params@[k].is_path
        &&& (p.1 == ParamLocation::Query) == !v.params@[k].is_path
        &&& p.2 == v.params@[k].required
    } by {
        assert(ps[k] == v.params@[k]@);
        assert(apply_updates(ps, v.pending_updates())[k].0 == ps[k].0);
    }
}

} // verus!
