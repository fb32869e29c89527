//! Link-wrapping transform: splits a link-bearing handler into a hidden
//! implementation variant and a public forwarding variant that wraps the
//! success payload in a hyperlink envelope.

use vstd::prelude::*;
use vstd::string::*;

use crate::parse::{
    clone_links, links_view, strs_view, LinkInfo, LinkInfoV, RouteInfo, RouteInfoV,
};
use crate::shape::{
    clone_pat, clone_type, extract_inner_type, lemma_pats_view, lemma_types_view, pat_view,
    pats_view, spec_pats_idents, type_view, types_view, PatTree, PatTreeV, TypeTree, TypeTreeV,
};
use crate::text::concat2;

verus! {

/// One handler parameter: the binding pattern and its declared type.
#[derive(Debug)]
pub struct Param {
    pub pat: PatTree,
    pub ty: TypeTree,
}

/// Mathematical view of a [`Param`].
#[verifier::ext_equal]
pub ghost struct ParamV {
    pub pat: PatTreeV,
    pub ty: TypeTreeV,
}

impl View for Param {
    type V = ParamV;

    open spec fn view(&self) -> ParamV {
        ParamV { pat: pat_view(self.pat), ty: type_view(self.ty) }
    }
}

/// View of a parameter list.
pub open spec fn params_view(s: Seq<Param>) -> Seq<ParamV> {
    s.map_values(|p: Param| p@)
}

/// The body of a handler definition.
#[derive(Debug)]
pub enum HandlerBody {
    /// The handler's own body, carried through as an opaque fragment.
    Opaque(String),
    /// A forwarding body: call the target with the given argument bindings,
    /// then wrap the unwrapped success payload in a hyperlink envelope with
    /// one entry per link, in declaration order.
    ForwardWrap { target: String, args: Vec<String>, links: Vec<LinkInfo> },
}


/// Mathematical view of a [`HandlerBody`].
#[verifier::ext_equal]
pub ghost enum HandlerBodyV {
    Opaque(Seq<char>),
    ForwardWrap { target: Seq<char>, args: Seq<Seq<char>>, links: Seq<LinkInfoV> },
}

impl View for HandlerBody {
    type V = HandlerBodyV;

    open spec fn view(&self) -> HandlerBodyV {
        match self {
            HandlerBody::Opaque(s) => HandlerBodyV::Opaque(s@),
            HandlerBody::ForwardWrap { target, args, links } => HandlerBodyV::ForwardWrap {
                target: target@,
                args: strs_view(args@),
                links: links_view(links@),
            },
        }
    }
}

/// One annotated handler definition.
#[derive(Debug)]
pub struct HandlerDef {
    /// Handler identifier.
    pub name: String,
    /// Parameters, in declaration order.
    pub params: Vec<Param>,
    /// Declared return type, when one is written.
    pub output: Option<TypeTree>,
    /// The parsed route directive; absent when the item carries none or its
    /// grammar was rejected, which leaves the item untouched.
    pub route: Option<RouteInfo>,
    /// The handler body.
    pub body: HandlerBody,
    /// Whether the definition is hidden from documentation.
    pub doc_hidden: bool,
    /// Whether the definition suppresses the naming convention lint.
    pub allow_non_snake: bool,
}

/// Mathematical view of a [`HandlerDef`].
#[verifier::ext_equal]
pub ghost struct HandlerDefV {
    pub name: Seq<char>,
    pub params: Seq<ParamV>,
    pub output: Option<TypeTreeV>,
    pub route: Option<RouteInfoV>,
    pub body: HandlerBodyV,
    pub doc_hidden: bool,
    pub allow_non_snake: bool,
}

impl View for HandlerDef {
    type V = HandlerDefV;

    open spec fn view(&self) -> HandlerDefV {
        HandlerDefV {
            name: self.name@,
            params: params_view(self.params@),
            output: match self.output {
                Some(t) => Some(type_view(t)),
                None => None,
            },
            route: match self.route {
                Some(r) => Some(r@),
                None => None,
            },
            body: self.body@,
            doc_hidden: self.doc_hidden,
            allow_non_snake: self.allow_non_snake,
        }
    }
}

/// View of a handler list.
pub open spec fn handlers_view(s: Seq<HandlerDef>) -> Seq<HandlerDefV> {
    s.map_values(|h: HandlerDef| h@)
}

/// The derived name of the hidden implementation variant.
pub open spec fn spec_impl_name(name: Seq<char>) -> Seq<char> {
    "__impl_"@ + name
}

/// The wrapped return type of the public variant:
/// `Result<Json<HateoasResponse<T>>>`.
pub open spec fn spec_wrapped_output(t: TypeTreeV) -> TypeTreeV {
    TypeTreeV {
        name: "Result"@,
        args: seq![
            TypeTreeV {
                name: "Json"@,
                args: seq![TypeTreeV { name: "HateoasResponse"@, args: seq![t] }],
            },
        ],
    }
}

/// The argument bindings forwarded from the public variant to the
/// implementation variant: every identifier bound by a parameter pattern,
/// in declaration order.
pub open spec fn spec_forward_args(params: Seq<ParamV>) -> Seq<Seq<char>> {
    spec_pats_idents(params.map_values(|p: ParamV| p.pat))
}

/// The hidden implementation variant: same signature and body, derived
/// name, no route, hidden from documentation.
pub open spec fn spec_impl_variant(h: HandlerDefV) -> HandlerDefV {
    HandlerDefV {
        name: spec_impl_name(h.name),
        params: h.params,
        output: h.output,
        route: None,
        body: h.body,
        doc_hidden: true,
        allow_non_snake: true,
    }
}

/// The public variant: original name and route, wrapped return type, and a
/// forwarding body that adds one link per declared relation, in order.
pub open spec fn spec_wrapper_variant(h: HandlerDefV, r: RouteInfoV, inner: TypeTreeV) -> HandlerDefV {
    HandlerDefV {
        name: h.name,
        params: h.params,
        output: Some(spec_wrapped_output(inner)),
        route: Some(r),
        body: HandlerBodyV::ForwardWrap {
            target: spec_impl_name(h.name),
            args: spec_forward_args(h.params),
            links: r.links,
        },
        doc_hidden: false,
        allow_non_snake: false,
    }
}

/// The link-wrapping transform of one handler. A handler without links, or
/// whose return type matches no recognized response shape, passes through
/// unchanged; otherwise it is split into the implementation variant followed
/// by the public variant.
pub open spec fn spec_transform(h: HandlerDefV) -> Seq<HandlerDefV> {
    match h.route {
        None => seq![h],
        Some(r) => if r.links.len() == 0 {
            seq![h]
        } else {
            match h.output {
                None => seq![h],
                Some(ty) => match crate::shape::spec_extract_inner(ty) {
                    None => seq![h],
                    Some(inner) => seq![spec_impl_variant(h), spec_wrapper_variant(h, r, inner)],
                },
            }
        },
    }
}

/// A handler with an empty link list is passed through unchanged.
pub proof fn lemma_empty_links_passthrough(h: HandlerDefV)
    requires
        match h.route {
            Some(r) => r.links.len() == 0,
            None => true,
        },
    ensures
        spec_transform(h) == seq![h],
{
}

/// A view-preserving copy of a parameter list.
fn clone_params(v: &Vec<Param>) -> (r: Vec<Param>)
    ensures
        params_view(r@) == params_view(v@),
{
    let mut out: Vec<Param> = Vec::new();
    let mut i: usize = 0;
    while i < v.len()
        invariant
            0 <= i <= v.len(),
            out@.len() == i,
            forall|k: int| 0 <= k < i ==> #[trigger] out@[k]@ == v@[k]@,
        decreases v.len() - i,
    {
        let p = Param { pat: clone_pat(&v[i].pat), ty: clone_type(&v[i].ty) };
        proof {
            assert(p@ =~= v@[i as int]@);
        }
        out.push(p);
        i = i + 1;
    }
    proof {
        assert(params_view(out@) =~= params_view(v@));
    }
    out
}

/// Collects the forwarded argument bindings of a parameter list.
pub fn forward_args(params: &Vec<Param>) -> (r: Vec<String>)
    ensures
        strs_view(r@) == spec_forward_args(params_view(params@)),
{
    let mut pats: Vec<PatTree> = Vec::new();
    let mut i: usize = 0;
    while i < params.len()
        invariant
            0 <= i <= params.len(),
            pats@.len() == i,
            forall|k: int| 0 <= k < i ==> pat_view(#[trigger] pats@[k]) == pat_view(
                params@[k].pat,
            ),
        decreases params.len() - i,
    {
        let p = clone_pat(&params[i].pat);
        pats.push(p);
        i = i + 1;
    }
    let r = crate::shape::collect_pats_idents(&pats);
    proof {
        lemma_pats_view(pats@);
        let ghost mapped = params_view(params@).map_values(|p: ParamV| p.pat);
        assert forall|k: int| 0 <= k < pats@.len() implies pats_view(pats@)[k] == mapped[k] by {
            assert(pat_view(pats@[k]) == pat_view(params@[k].pat));
        }
        assert(pats_view(pats@) =~= mapped);
    }
    r
}

/// Builds the wrapped return type `Result<Json<HateoasResponse<T>>>`.
fn wrap_output(t: TypeTree) -> (r: TypeTree)
    ensures
        type_view(r) == spec_wrapped_output(type_view(t)),
{
    let ghost tv = type_view(t);
    let mut a0: Vec<TypeTree> = Vec::new();
    a0.push(t);
    let hateoas = TypeTree { name: String::from_str("HateoasResponse"), args: a0 };
    proof {
        lemma_types_view(hateoas.args@);
        assert(types_view(hateoas.args@) =~= seq![tv]);
    }
    let mut a1: Vec<TypeTree> = Vec::new();
    a1.push(hateoas);
    let json = TypeTree { name: String::from_str("Json"), args: a1 };
    proof {
        lemma_types_view(json.args@);
        assert(types_view(json.args@) =~= seq![TypeTreeV { name: "HateoasResponse"@, args: seq![tv] }]);
    }
    let mut a2: Vec<TypeTree> = Vec::new();
    a2.push(json);
    let r = TypeTree { name: String::from_str("Result"), args: a2 };
    proof {
        lemma_types_view(r.args@);
        assert(type_view(r) =~= spec_wrapped_output(tv));
    }
    r
}

/// Applies the link-wrapping transform to one handler definition.
pub fn transform_handler(h: HandlerDef) -> (r: Vec<HandlerDef>)
    ensures
        handlers_view(r@) == spec_transform(h@),
{
    let ghost orig = h@;
    let HandlerDef { name, params, output, route, body, doc_hidden, allow_non_snake } = h;
    let route = match route {
        None => {
            let back = HandlerDef { name, params, output, route: None, body, doc_hidden, allow_non_snake };
            proof {
                assert(back@ =~= orig);
            }
            let mut out: Vec<HandlerDef> = Vec::new();
            out.push(back);
            proof {
                assert(handlers_view(out@) =~= spec_transform(orig));
            }
            return out;
        },
        Some(ri) => ri,
    };
    if route.links.len() == 0 {
        let back = HandlerDef { name, params, output, route: Some(route), body, doc_hidden, allow_non_snake };
        proof {
            assert(back@ =~= orig);
        }
        let mut out: Vec<HandlerDef> = Vec::new();
        out.push(back);
        proof {
            assert(handlers_view(out@) =~= spec_transform(orig));
        }
        return out;
    }
    let inner: Option<TypeTree> = match &output {
        Some(ty) => match extract_inner_type(ty) {
            Some(x) => Some(clone_type(x)),
            None => None,
        },
        None => None,
    };
    let inner = match inner {
        None => {
            let back = HandlerDef { name, params, output, route: Some(route), body, doc_hidden, allow_non_snake };
            proof {
                assert(back@ =~= orig);
            }
            let mut out: Vec<HandlerDef> = Vec::new();
            out.push(back);
            proof {
                assert(handlers_view(out@) =~= spec_transform(orig));
            }
            return out;
        },
        Some(t) => t,
    };
    let impl_name = concat2("__impl_", name.as_str());
    let target = impl_name.clone();
    let wrapper_params = clone_params(&params);
    let args = forward_args(&params);
    let wrapper_links = clone_links(&route.links);
    let impl_variant = HandlerDef {
        name: impl_name,
        params,
        output,
        route: None,
        body,
        doc_hidden: true,
        allow_non_snake: true,
    };
    proof {
        assert(impl_variant@ =~= spec_impl_variant(orig));
    }
    let wrapper = HandlerDef {
        name,
        params: wrapper_params,
        output: Some(wrap_output(inner)),
        route: Some(route),
        body: HandlerBody::ForwardWrap { target, args, links: wrapper_links },
        doc_hidden: false,
        allow_non_snake: false,
    };
    proof {
        assert(wrapper@ =~= spec_wrapper_variant(
            orig,
            orig.route->Some_0,
            crate::shape::spec_extract_inner(orig.output->Some_0)->Some_0,
        ));
    }
    let mut out: Vec<HandlerDef> = Vec::new();
    out.push(impl_variant);
    out.push(wrapper);
    proof {
        assert(handlers_view(out@) =~= spec_transform(orig));
    }
    out
}

} // verus!
