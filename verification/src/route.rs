//! Standalone route expansion: scans the handler signature for a request
//! body and an authenticated-user extension, infers the typed response, and
//! assembles the documentation attribute and wiring constant for one route.

use vstd::prelude::*;
use vstd::string::*;

use crate::parse::{
    clone_opt_string, clone_opt_strs, opt_str_view, strs_view, HttpMethod, RouteInfo, RouteInfoV,
};
use crate::docs::{spec_or_empty};
use crate::shape::{render_type, spec_render_type, TypeTree, TypeTreeV};
use crate::text::{concat2, str_eq, to_upper, upper_seq};
use crate::transform::{params_view, HandlerDef, HandlerDefV, Param, ParamV};

verus! {

/// The request body a parameter contributes: the payload of a `Json<T>`
/// extractor.
pub open spec fn spec_param_body(p: ParamV) -> Option<Seq<char>> {
    if p.ty.name == "Json"@ && p.ty.args.len() > 0 {
        Some(spec_render_type(p.ty.args[0]))
    } else {
        None
    }
}

/// The request body read off a parameter list: the payload of the last
/// `Json` extractor, if any.
pub open spec fn spec_scan_body(params: Seq<ParamV>) -> Option<Seq<char>>
    decreases params,
{
    if params.len() == 0 {
        None
    } else {
        match spec_param_body(params.last()) {
            Some(b) => Some(b),
            None => spec_scan_body(params.drop_last()),
        }
    }
}

/// Whether a parameter marks the route as authenticated: an
/// `Extension<UserId>` extractor.
pub open spec fn spec_param_security(p: ParamV) -> bool {
    p.ty.name == "Extension"@ && p.ty.args.len() > 0 && p.ty.args[0].name == "UserId"@
}

/// Whether any parameter marks the route as authenticated.
pub open spec fn spec_scan_security(params: Seq<ParamV>) -> bool
    decreases params,
{
    if params.len() == 0 {
        false
    } else {
        spec_param_security(params.last()) || spec_scan_security(params.drop_last())
    }
}

/// The typed response read off the return type: the payload of
/// `Result<Json<T>>` or `ApiResult<Json<T>>`.
pub open spec fn spec_response_type(output: Option<TypeTreeV>) -> Option<Seq<char>> {
    match output {
        None => None,
        Some(ty) => if (ty.name == "Result"@ || ty.name == "ApiResult"@) && ty.args.len() > 0
            && ty.args[0].name == "Json"@ && ty.args[0].args.len() > 0 {
            Some(spec_render_type(ty.args[0].args[0]))
        } else {
            None
        },
    }
}

/// The assembled documentation attribute of one route.
#[derive(Debug)]
pub struct RouteDocAttr {
    /// HTTP method of the route.
    pub method: HttpMethod,
    /// The route path, as declared.
    pub path: String,
    /// Summary; empty when none was declared.
    pub summary: String,
    /// Description; empty when none was declared.
    pub description: String,
    /// The route's tag list, when declared.
    pub tags: Option<Vec<String>>,
    /// The route's single tag, when declared and no list is.
    pub tag: Option<String>,
    /// The request body type read off the parameters.
    pub request_body: Option<String>,
    /// The typed success response read off the return type.
    pub response_type: Option<String>,
    /// Whether the route requires bearer authentication.
    pub security: bool,
    /// Whether the route is deprecated.
    pub deprecated: bool,
}

/// Mathematical view of a [`RouteDocAttr`].
#[verifier::ext_equal]
pub ghost struct RouteDocAttrV {
    pub method: HttpMethod,
    pub path: Seq<char>,
    pub summary: Seq<char>,
    pub description: Seq<char>,
    pub tags: Option<Seq<Seq<char>>>,
    pub tag: Option<Seq<char>>,
    pub request_body: Option<Seq<char>>,
    pub response_type: Option<Seq<char>>,
    pub security: bool,
    pub deprecated: bool,
}

impl View for RouteDocAttr {
    type V = RouteDocAttrV;

    open spec fn view(&self) -> RouteDocAttrV {
        RouteDocAttrV {
            method: self.method,
            path: self.path@,
            summary: self.summary@,
            description: self.description@,
            tags: match self.tags {
                Some(ts) => Some(strs_view(ts@)),
                None => None,
            },
            tag: opt_str_view(self.tag),
            request_body: opt_str_view(self.request_body),
            response_type: opt_str_view(self.response_type),
            security: self.security,
            deprecated: self.deprecated,
        }
    }
}

/// The documentation attribute synthesized for one route: declared fields
/// carried over, request body and security read off the parameters, typed
/// response read off the return type; the explicit security flag and the
/// detected one combine by disjunction.
pub open spec fn spec_route_doc_attr(
    r: RouteInfoV,
    params: Seq<ParamV>,
    output: Option<TypeTreeV>,
) -> RouteDocAttrV {
    RouteDocAttrV {
        method: r.method,
        path: r.path,
        summary: spec_or_empty(r.summary),
        description: spec_or_empty(r.description),
        tags: r.tags,
        tag: r.tag,
        request_body: spec_scan_body(params),
        response_type: spec_response_type(output),
        security: spec_scan_security(params) || r.security,
        deprecated: r.deprecated,
    }
}

/// The whole expansion of one standalone route.
#[derive(Debug)]
pub struct RouteExpansion {
    /// The synthesized documentation attribute.
    pub attr: RouteDocAttr,
    /// The name of the emitted wiring constant: a fixed prefix, then the
    /// uppercased handler name.
    pub const_name: String,
    /// The lowercase routing-builder method name.
    pub method_name: String,
    /// The route path.
    pub path: String,
}

/// Mathematical view of a [`RouteExpansion`].
#[verifier::ext_equal]
pub ghost struct RouteExpansionV {
    pub attr: RouteDocAttrV,
    pub const_name: Seq<char>,
    pub method_name: Seq<char>,
    pub path: Seq<char>,
}

impl View for RouteExpansion {
    type V = RouteExpansionV;

    open spec fn view(&self) -> RouteExpansionV {
        RouteExpansionV {
            attr: self.attr@,
            const_name: self.const_name@,
            method_name: self.method_name@,
            path: self.path@,
        }
    }
}

/// The name of the wiring constant emitted for a handler.
pub open spec fn spec_route_const_name(fn_name: Seq<char>) -> Seq<char> {
    "__ROUTE_INFO_"@ + upper_seq(fn_name)
}

/// The whole expansion of one standalone route, as one value.
pub open spec fn spec_route_impl(r: RouteInfoV, h: HandlerDefV) -> RouteExpansionV {
    RouteExpansionV {
        attr: spec_route_doc_attr(r, h.params, h.output),
        const_name: spec_route_const_name(h.name),
        method_name: r.method.spec_axum_method(),
        path: r.path,
    }
}

/// Scans the parameters for the request body of the last `Json` extractor.
fn scan_request_body(params: &Vec<Param>) -> (r: Option<String>)
    ensures
        opt_str_view(r) == spec_scan_body(params_view(params@)),
{
    let ghost pv = params_view(params@);
    let mut found: Option<String> = None;
    let mut i: usize = 0;
    proof {
        assert(pv.take(0) =~= Seq::<ParamV>::empty());
    }
    while i < params.len()
        invariant
            0 <= i <= params.len(),
            pv == params_view(params@),
            pv.len() == params@.len(),
            opt_str_view(found) == spec_scan_body(pv.take(i as int)),
        decreases params.len() - i,
    {
        proof {
            assert(pv[i as int] == params@[i as int]@);
            assert(pv.take(i as int + 1).drop_last() =~= pv.take(i as int));
            assert(pv.take(i as int + 1).last() == pv[i as int]);
        }
        let ty = &params[i].ty;
        if str_eq(ty.name.as_str(), "Json") && ty.args.len() > 0 {
            proof {
                crate::shape::lemma_types_view(ty.args@);
            }
            found = Some(render_type(&ty.args[0]));
        }
        i = i + 1;
    }
    proof {
        assert(pv.take(pv.len() as int) =~= pv);
    }
    found
}

/// Scans the parameters for an `Extension<UserId>` extractor.
fn scan_security(params: &Vec<Param>) -> (r: bool)
    ensures
        r == spec_scan_security(params_view(params@)),
{
    let ghost pv = params_view(params@);
    let mut found = false;
    let mut i: usize = 0;
    proof {
        assert(pv.take(0) =~= Seq::<ParamV>::empty());
    }
    while i < params.len()
        invariant
            0 <= i <= params.len(),
            pv == params_view(params@),
            pv.len() == params@.len(),
            found == spec_scan_security(pv.take(i as int)),
        decreases params.len() - i,
    {
        proof {
            assert(pv[i as int] == params@[i as int]@);
            assert(pv.take(i as int + 1).drop_last() =~= pv.take(i as int));
            assert(pv.take(i as int + 1).last() == pv[i as int]);
        }
        let ty = &params[i].ty;
        if str_eq(ty.name.as_str(), "Extension") && ty.args.len() > 0 {
            proof {
                crate::shape::lemma_types_view(ty.args@);
            }
            if str_eq(ty.args[0].name.as_str(), "UserId") {
                found = true;
            }
        }
        i = i + 1;
    }
    proof {
        assert(pv.take(pv.len() as int) =~= pv);
    }
    found
}

/// Reads the typed response off the return type.
fn scan_response_type(output: &Option<TypeTree>) -> (r: Option<String>)
    ensures
        opt_str_view(r) == spec_response_type(
            match *output {
                Some(t) => Some(crate::shape::type_view(t)),
                None => None,
            },
        ),
{
    match output {
        None => None,
        Some(ty) => {
            proof {
                crate::shape::lemma_types_view(ty.args@);
            }
            if (str_eq(ty.name.as_str(), "Result") || str_eq(ty.name.as_str(), "ApiResult"))
                && ty.args.len() > 0 {
                let json = &ty.args[0];
                proof {
                    crate::shape::lemma_types_view(json.args@);
                }
                if str_eq(json.name.as_str(), "Json") && json.args.len() > 0 {
                    Some(render_type(&json.args[0]))
                } else {
                    None
                }
            } else {
                None
            }
        },
    }
}

/// Expands one standalone route: synthesizes its documentation attribute
/// and the wiring constant derived from the handler name.
pub fn route_impl(route: &RouteInfo, func: &HandlerDef) -> (r: RouteExpansion)
    ensures
        r@ == spec_route_impl(route@, func@),
{
    let request_body = scan_request_body(&func.params);
    let detected = scan_security(&func.params);
    let response_type = scan_response_type(&func.output);
    let summary = match &route.summary {
        Some(s) => s.clone(),
        None => String::new(),
    };
    let description = match &route.description {
        Some(s) => s.clone(),
        None => String::new(),
    };
    let attr = RouteDocAttr {
        method: route.method,
        path: route.path.clone(),
        summary,
        description,
        tags: clone_opt_strs(&route.tags),
        tag: clone_opt_string(&route.tag),
        request_body,
        response_type,
        security: detected || route.security,
        deprecated: route.deprecated,
    };
    let upper = to_upper(func.name.as_str());
    let const_name = concat2("__ROUTE_INFO_", upper.as_str());
    let method_name = String::from_str(route.method.to_axum_method());
    let r = RouteExpansion { attr, const_name, method_name, path: route.path.clone() };
    proof {
        assert(r@ =~= spec_route_impl(route@, func@));
    }
    r
}

} // verus!
