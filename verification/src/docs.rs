//! Documentation synthesizer: full-path composition, tag resolution and
//! precedence, the links section of a description, payload inference and the
//! response-catalog merge.

use vstd::prelude::*;
use vstd::string::*;

use crate::parse::{
    clone_opt_string, clone_pairs, clone_strs, opt_str_view, pairs_view, strs_view,
    ControllerArgs, ControllerArgsV, HttpMethod, LinkInfo, LinkInfoV, RouteInfo, RouteInfoV,
};
use crate::shape::{spec_extract_hateoas, spec_extract_inner, spec_render_type, render_type,
    extract_inner_type, extract_hateoas_inner_type, type_view, TypeTree, TypeTreeV};
use crate::text::{concat2, contains_sub, str_contains, str_eq};

verus! {

/// The version part of a controller prefix: `"/" + version` when a version
/// is declared, empty otherwise.
pub open spec fn spec_version_prefix(version: Option<Seq<char>>) -> Seq<char> {
    match version {
        Some(v) => "/"@ + v,
        None => Seq::empty(),
    }
}

/// The path part of a controller prefix: the preferred `path`, else the
/// legacy `prefix`, else empty.
pub open spec fn spec_path_or_prefix(path: Option<Seq<char>>, prefix: Option<Seq<char>>) -> Seq<char> {
    match path {
        Some(p) => p,
        None => match prefix {
            Some(p) => p,
            None => Seq::empty(),
        },
    }
}

/// The full controller prefix: version part, then path part.
pub open spec fn spec_full_prefix(args: ControllerArgsV) -> Seq<char> {
    spec_version_prefix(args.version) + spec_path_or_prefix(args.path, args.prefix)
}

/// Composes the full controller prefix.
pub fn full_prefix(args: &ControllerArgs) -> (r: String)
    ensures
        r@ == spec_full_prefix(args@),
{
    let mut out = String::new();
    match &args.version {
        Some(v) => {
            out.append("/");
            out.append(v.as_str());
        },
        None => {},
    }
    match &args.path {
        Some(p) => out.append(p.as_str()),
        None => match &args.prefix {
            Some(p) => out.append(p.as_str()),
            None => {},
        },
    }
    out
}

/// The full path of a route: controller prefix, then route path.
pub open spec fn spec_full_path(prefix: Seq<char>, path: Seq<char>) -> Seq<char> {
    prefix + path
}

/// The default controller tag: the owning type name with a trailing
/// `Controller` suffix stripped; a fixed fallback when no type name is known.
pub open spec fn spec_default_tag(owner_name: Seq<char>) -> Seq<char> {
    if owner_name.len() == 0 {
        "API"@
    } else if owner_name.len() >= "Controller"@.len() && owner_name.subrange(
        owner_name.len() - "Controller"@.len(),
        owner_name.len() as int,
    ) == "Controller"@ {
        owner_name.take(owner_name.len() - "Controller"@.len())
    } else {
        owner_name
    }
}

/// The resolved controller tag: the declared tag when present, else the
/// default derived from the type name.
pub open spec fn spec_controller_tag(tag: Option<Seq<char>>, owner_name: Seq<char>) -> Seq<char> {
    match tag {
        Some(t) => t,
        None => spec_default_tag(owner_name),
    }
}

/// Resolves the controller tag.
pub fn controller_tag(tag: &Option<String>, owner_name: &str) -> (r: String)
    ensures
        r@ == spec_controller_tag(opt_str_view(*tag), owner_name@),
{
    match tag {
        Some(t) => t.clone(),
        None => {
            let tl = owner_name.unicode_len();
            if tl == 0 {
                return String::from_str("API");
            }
            let suffix = "Controller";
            let sl = suffix.unicode_len();
            if tl >= sl {
                let tail = owner_name.substring_char(tl - sl, tl);
                if str_eq(tail, suffix) {
                    let head = owner_name.substring_char(0, tl - sl);
                    proof {
                        assert(head@ =~= owner_name@.take(owner_name@.len()
                            - "Controller"@.len()));
                    }
                    return String::from_str(head);
                }
            }
            String::from_str(owner_name)
        },
    }
}

/// The method shown for a link: the declared one, else `GET`.
pub open spec fn spec_link_method(m: Option<Seq<char>>) -> Seq<char> {
    match m {
        Some(x) => x,
        None => "GET"@,
    }
}

/// One bullet line of the links section.
pub open spec fn spec_bullet(l: LinkInfoV) -> Seq<char> {
    "- `"@ + l.rel + "`: `"@ + spec_link_method(l.method) + " "@ + l.href + "`\n"@
}

/// The bullet lines of a link list, one per relation, in declaration order.
pub open spec fn spec_bullet_lines(links: Seq<LinkInfoV>) -> Seq<Seq<char>> {
    links.map_values(|l: LinkInfoV| spec_bullet(l))
}

/// The links section body: the concatenation of the bullet lines.
pub open spec fn spec_links_block(links: Seq<LinkInfoV>) -> Seq<char>
    decreases links,
{
    if links.len() == 0 {
        Seq::empty()
    } else {
        spec_bullet(links[0]) + spec_links_block(links.subrange(1, links.len() as int))
    }
}

/// The links section holds exactly one bullet line per declared relation,
/// in declaration order.
pub proof fn lemma_links_block_bullets(links: Seq<LinkInfoV>)
    ensures
        spec_bullet_lines(links).len() == links.len(),
        forall|i: int| 0 <= i < links.len() ==> spec_bullet_lines(links)[i] == spec_bullet(
            #[trigger] links[i],
        ),
        spec_links_block(links) == spec_bullet_lines(links).flatten(),
    decreases links.len(),
{
    if links.len() == 0 {
        assert(spec_bullet_lines(links) =~= Seq::<Seq<char>>::empty());
    } else {
        let t = links.subrange(1, links.len() as int);
        lemma_links_block_bullets(t);
        assert(spec_bullet_lines(links).drop_first() =~= spec_bullet_lines(t));
        assert(spec_bullet_lines(links).first() == spec_bullet(links[0]));
    }
}

/// The description of a handler: the declared description, and when the
/// handler has links, a blank-line-separated section headed
/// `**Available Links:**` with one bullet per relation.
pub open spec fn spec_description(desc: Option<Seq<char>>, links: Seq<LinkInfoV>) -> Seq<char> {
    let base = match desc {
        Some(d) => d,
        None => Seq::empty(),
    };
    if links.len() == 0 {
        base
    } else {
        (if base.len() > 0 {
            base + "\n\n"@
        } else {
            base
        }) + "**Available Links:**\n"@ + spec_links_block(links)
    }
}

/// Prefix of the links section covering the first `n` relations.
pub open spec fn spec_links_prefix(links: Seq<LinkInfoV>, n: int) -> Seq<char>
    decreases n,
{
    if n <= 0 {
        Seq::empty()
    } else {
        spec_links_prefix(links, n - 1) + spec_bullet(links[n - 1])
    }
}

/// The full prefix coincides with the links section.
proof fn lemma_links_prefix_all(links: Seq<LinkInfoV>)
    ensures
        spec_links_prefix(links, links.len() as int) == spec_links_block(links),
    decreases links.len(),
{
    if links.len() == 0 {
        assert(spec_links_prefix(links, 0) =~= spec_links_block(links));
    } else {
        let t = links.subrange(1, links.len() as int);
        lemma_links_prefix_all(t);
        lemma_links_prefix_shift(links, links.len() as int);
        assert(spec_links_prefix(links, links.len() as int) =~= spec_links_block(links));
    }
}

/// Shifting a links prefix past the head relation.
proof fn lemma_links_prefix_shift(links: Seq<LinkInfoV>, n: int)
    requires
        links.len() >= 1,
        1 <= n <= links.len(),
    ensures
        spec_links_prefix(links, n) == spec_bullet(links[0]) + spec_links_prefix(
            links.subrange(1, links.len() as int),
            n - 1,
        ),
    decreases n,
{
    let t = links.subrange(1, links.len() as int);
    if n == 1 {
        assert(spec_links_prefix(links, 1) == spec_links_prefix(links, 0) + spec_bullet(links[0]));
        assert(spec_links_prefix(links, 1) =~= spec_bullet(links[0]) + spec_links_prefix(t, 0));
    } else {
        lemma_links_prefix_shift(links, n - 1);
        assert(t[n - 2] == links[n - 1]);
        assert(spec_links_prefix(links, n) =~= spec_bullet(links[0]) + spec_links_prefix(t, n - 1));
    }
}

/// Appends one bullet line for a link.
fn append_bullet(out: &mut String, l: &LinkInfo)
    ensures
        final(out)@ == old(out)@ + spec_bullet(l@),
{
    out.append("- `");
    out.append(l.rel.as_str());
    out.append("`: `");
    match &l.method {
        Some(m) => out.append(m.as_str()),
        None => out.append("GET"),
    }
    out.append(" ");
    out.append(l.href.as_str());
    out.append("`\n");
}

/// Synthesizes the description of a handler, appending the links section
/// when the handler declares link relations.
pub fn description_with_links(desc: &Option<String>, links: &Vec<LinkInfo>) -> (r: String)
    ensures
        r@ == spec_description(opt_str_view(*desc), crate::parse::links_view(links@)),
{
    let mut out = match desc {
        Some(d) => d.clone(),
        None => String::new(),
    };
    if links.len() == 0 {
        return out;
    }
    if out.unicode_len() > 0 {
        out.append("\n\n");
    }
    out.append("**Available Links:**\n");
    let ghost lv = crate::parse::links_view(links@);
    let ghost head = out@;
    let mut i: usize = 0;
    while i < links.len()
        invariant
            0 <= i <= links.len(),
            lv == crate::parse::links_view(links@),
            lv.len() == links@.len(),
            forall|k: int| 0 <= k < links@.len() ==> lv[k] == #[trigger] links@[k]@,
            out@ == head + spec_links_prefix(lv, i as int),
        decreases links.len() - i,
    {
        append_bullet(&mut out, &links[i]);
        i = i + 1;
    }
    proof {
        lemma_links_prefix_all(lv);
    }
    out
}

/// The tags shown for a route, by precedence: the route's tag list, else
/// the route's single tag, else the controller tag.
pub open spec fn spec_resolved_tags(
    tags: Option<Seq<Seq<char>>>,
    tag: Option<Seq<char>>,
    ctag: Seq<char>,
) -> Seq<Seq<char>> {
    match tags {
        Some(ts) => ts,
        None => match tag {
            Some(t) => seq![t],
            None => seq![ctag],
        },
    }
}

/// A route-level tag list always wins: the controller tag never appears in
/// its place.
pub proof fn lemma_tag_precedence(ts: Seq<Seq<char>>, tag: Option<Seq<char>>, ctag: Seq<char>)
    ensures
        spec_resolved_tags(Some(ts), tag, ctag) == ts,
        spec_resolved_tags(None, Some(ctag + "x"@), ctag) == seq![ctag + "x"@],
{
}

/// Resolves the tags of a route.
pub fn resolved_tags(tags: &Option<Vec<String>>, tag: &Option<String>, ctag: &String) -> (r: Vec<
    String,
>)
    ensures
        strs_view(r@) == spec_resolved_tags(
            match *tags {
                Some(ts) => Some(strs_view(ts@)),
                None => None,
            },
            opt_str_view(*tag),
            ctag@,
        ),
{
    match tags {
        Some(ts) => clone_strs(ts),
        None => match tag {
            Some(t) => {
                let mut out: Vec<String> = Vec::new();
                out.push(t.clone());
                proof {
                    assert(strs_view(out@) =~= seq![t@]);
                }
                out
            },
            None => {
                let mut out: Vec<String> = Vec::new();
                out.push(ctag.clone());
                proof {
                    assert(strs_view(out@) =~= seq![ctag@]);
                }
                out
            },
        },
    }
}

/// The success body documented for a route.
#[derive(Debug)]
pub enum SuccessDoc {
    /// A bare inferred payload type.
    Plain(String),
    /// A synthesized hyperlink-envelope schema: its registered name and the
    /// rendered payload type inside it.
    Envelope { schema_name: String, data: String },
}

/// Mathematical view of a [`SuccessDoc`].
#[verifier::ext_equal]
pub ghost enum SuccessDocV {
    Plain(Seq<char>),
    Envelope { schema_name: Seq<char>, data: Seq<char> },
}

impl View for SuccessDoc {
    type V = SuccessDocV;

    open spec fn view(&self) -> SuccessDocV {
        match self {
            SuccessDoc::Plain(s) => SuccessDocV::Plain(s@),
            SuccessDoc::Envelope { schema_name, data } => SuccessDocV::Envelope {
                schema_name: schema_name@,
                data: data@,
            },
        }
    }
}

/// View of an optional success body.
pub open spec fn opt_success_view(o: Option<SuccessDoc>) -> Option<SuccessDocV> {
    match o {
        Some(s) => Some(s@),
        None => None,
    }
}

/// The name of the synthesized envelope schema for a handler.
pub open spec fn spec_envelope_schema_name(fn_name: Seq<char>) -> Seq<char> {
    "__HateoasSchema_"@ + fn_name
}

/// The success body inferred from a handler's return type: the envelope
/// schema when the payload is itself a hyperlink envelope, the bare payload
/// otherwise, and nothing when the shape is not recognized.
pub open spec fn spec_success_of_output(fn_name: Seq<char>, output: Option<TypeTreeV>) -> Option<
    SuccessDocV,
> {
    match output {
        None => None,
        Some(ty) => match spec_extract_inner(ty) {
            None => None,
            Some(inner) => match spec_extract_hateoas(inner) {
                Some(data) => Some(
                    SuccessDocV::Envelope {
                        schema_name: spec_envelope_schema_name(fn_name),
                        data: spec_render_type(data),
                    },
                ),
                None => Some(SuccessDocV::Plain(spec_render_type(inner))),
            },
        },
    }
}

/// Infers the documented success body from a handler's return type.
pub fn infer_success(fn_name: &str, output: &Option<TypeTree>) -> (r: Option<SuccessDoc>)
    ensures
        opt_success_view(r) == spec_success_of_output(
            fn_name@,
            match *output {
                Some(t) => Some(type_view(t)),
                None => None,
            },
        ),
{
    match output {
        None => None,
        Some(ty) => match extract_inner_type(ty) {
            None => None,
            Some(inner) => match extract_hateoas_inner_type(inner) {
                Some(data) => {
                    let schema_name = concat2("__HateoasSchema_", fn_name);
                    let data_txt = render_type(data);
                    Some(SuccessDoc::Envelope { schema_name, data: data_txt })
                },
                None => Some(SuccessDoc::Plain(render_type(inner))),
            },
        },
    }
}

/// Whether a user fragment mentions either of two detection tokens, by
/// plain substring matching over the raw fragment text.
pub open spec fn spec_mentions(user: Option<Seq<char>>, a: Seq<char>, b: Seq<char>) -> bool {
    match user {
        Some(u) => contains_sub(u, a) || contains_sub(u, b),
        None => false,
    }
}

/// The merged response catalog of one operation.
#[derive(Debug)]
pub struct ResponsesDoc {
    /// The user-authored fragment, always included verbatim when present.
    pub user_fragment: Option<String>,
    /// The automatic success entry, when not suppressed by the fragment.
    pub auto_success: Option<SuccessDoc>,
    /// Whether the automatic unauthorized entry is included.
    pub auto_unauthorized: bool,
    /// Whether the automatic server-error entry is included.
    pub auto_server_error: bool,
}

/// Mathematical view of a [`ResponsesDoc`].
#[verifier::ext_equal]
pub ghost struct ResponsesDocV {
    pub user_fragment: Option<Seq<char>>,
    pub auto_success: Option<SuccessDocV>,
    pub auto_unauthorized: bool,
    pub auto_server_error: bool,
}

impl View for ResponsesDoc {
    type V = ResponsesDocV;

    open spec fn view(&self) -> ResponsesDocV {
        ResponsesDocV {
            user_fragment: opt_str_view(self.user_fragment),
            auto_success: opt_success_view(self.auto_success),
            auto_unauthorized: self.auto_unauthorized,
            auto_server_error: self.auto_server_error,
        }
    }
}

/// The response-catalog merge: the user fragment is kept verbatim; the
/// automatic success entry is added unless the fragment mentions `200` or
/// `OK`; the automatic unauthorized entry unless it mentions `401` or
/// `Unauthorized`; the automatic server-error entry unless it mentions `500`
/// or `Internal server error`.
pub open spec fn spec_merge_responses(user: Option<Seq<char>>, inferred: Option<SuccessDocV>) -> ResponsesDocV {
    ResponsesDocV {
        user_fragment: user,
        auto_success: if !spec_mentions(user, "200"@, "OK"@) {
            inferred
        } else {
            None
        },
        auto_unauthorized: !spec_mentions(user, "401"@, "Unauthorized"@),
        auto_server_error: !spec_mentions(user, "500"@, "Internal server error"@),
    }
}

/// Merges the user fragment with the automatic entries.
pub fn merge_responses(user: Option<String>, inferred: Option<SuccessDoc>) -> (r: ResponsesDoc)
    ensures
        r@ == spec_merge_responses(opt_str_view(user), opt_success_view(inferred)),
{
    let mentions_success = match &user {
        Some(u) => str_contains(u.as_str(), "200") || str_contains(u.as_str(), "OK"),
        None => false,
    };
    let mentions_unauthorized = match &user {
        Some(u) => str_contains(u.as_str(), "401") || str_contains(u.as_str(), "Unauthorized"),
        None => false,
    };
    let mentions_server_error = match &user {
        Some(u) => str_contains(u.as_str(), "500") || str_contains(
            u.as_str(),
            "Internal server error",
        ),
        None => false,
    };
    ResponsesDoc {
        user_fragment: user,
        auto_success: if !mentions_success {
            inferred
        } else {
            None
        },
        auto_unauthorized: !mentions_unauthorized,
        auto_server_error: !mentions_server_error,
    }
}

/// A user fragment that mentions the success status suppresses the
/// automatic success entry.
pub proof fn lemma_user_success_suppresses(user: Seq<char>, inferred: Option<SuccessDocV>)
    requires
        contains_sub(user, "200"@) || contains_sub(user, "OK"@),
    ensures
        spec_merge_responses(Some(user), inferred).auto_success is None,
{
}

/// Without a user fragment every automatic entry is kept, the success entry
/// carrying the inferred body schema.
pub proof fn lemma_absent_fragment_keeps_auto(inferred: Option<SuccessDocV>)
    ensures
        spec_merge_responses(None, inferred).auto_success == inferred,
        spec_merge_responses(None, inferred).auto_unauthorized,
        spec_merge_responses(None, inferred).auto_server_error,
{
}

/// One documented operation of the documentation model.
#[derive(Debug)]
pub struct OperationDoc {
    /// HTTP method of the operation.
    pub method: HttpMethod,
    /// Full path: controller prefix, then route path.
    pub full_path: String,
    /// Summary; empty when none was declared.
    pub summary: String,
    /// Description, with the links section appended when links exist.
    pub description: String,
    /// Resolved tags, by the route-over-controller precedence.
    pub tags: Vec<String>,
    /// Whether the operation is deprecated.
    pub deprecated: bool,
    /// Whether the operation requires bearer authentication.
    pub security: bool,
    /// Preserved unrecognized directives, in declaration order.
    pub other_attrs: Vec<(String, String)>,
    /// Merged response catalog.
    pub responses: ResponsesDoc,
}

/// Mathematical view of an [`OperationDoc`].
#[verifier::ext_equal]
pub ghost struct OperationDocV {
    pub method: HttpMethod,
    pub full_path: Seq<char>,
    pub summary: Seq<char>,
    pub description: Seq<char>,
    pub tags: Seq<Seq<char>>,
    pub deprecated: bool,
    pub security: bool,
    pub other_attrs: Seq<(Seq<char>, Seq<char>)>,
    pub responses: ResponsesDocV,
}

impl View for OperationDoc {
    type V = OperationDocV;

    open spec fn view(&self) -> OperationDocV {
        OperationDocV {
            method: self.method,
            full_path: self.full_path@,
            summary: self.summary@,
            description: self.description@,
            tags: strs_view(self.tags@),
            deprecated: self.deprecated,
            security: self.security,
            other_attrs: pairs_view(self.other_attrs@),
            responses: self.responses@,
        }
    }
}

/// A declared string, or empty when absent.
pub open spec fn spec_or_empty(o: Option<Seq<char>>) -> Seq<char> {
    match o {
        Some(s) => s,
        None => Seq::empty(),
    }
}

/// The documented operation synthesized for one route: full path, summary,
/// description with links, resolved tags, combined security, preserved
/// directives and merged responses.
pub open spec fn spec_operation_doc(
    r: RouteInfoV,
    prefix: Seq<char>,
    ctag: Seq<char>,
    controller_security: bool,
    inferred: Option<SuccessDocV>,
) -> OperationDocV {
    OperationDocV {
        method: r.method,
        full_path: spec_full_path(prefix, r.path),
        summary: spec_or_empty(r.summary),
        description: spec_description(r.description, r.links),
        tags: spec_resolved_tags(r.tags, r.tag, ctag),
        deprecated: r.deprecated,
        security: r.security || controller_security,
        other_attrs: r.other_attrs,
        responses: spec_merge_responses(r.responses, inferred),
    }
}

/// An operation requires security exactly when its own flag or the
/// controller's flag is set.
pub proof fn lemma_security_union(
    r: RouteInfoV,
    prefix: Seq<char>,
    ctag: Seq<char>,
    controller_security: bool,
    inferred: Option<SuccessDocV>,
)
    ensures
        spec_operation_doc(r, prefix, ctag, controller_security, inferred).security == (r.security
            || controller_security),
{
}

/// Synthesizes the documented operation for one route.
pub fn build_operation_doc(
    route: &RouteInfo,
    prefix: &str,
    ctag: &String,
    controller_security: bool,
    inferred: Option<SuccessDoc>,
) -> (r: OperationDoc)
    ensures
        r@ == spec_operation_doc(
            route@,
            prefix@,
            ctag@,
            controller_security,
            opt_success_view(inferred),
        ),
{
    let full_path = concat2(prefix, route.path.as_str());
    let summary = match &route.summary {
        Some(s) => s.clone(),
        None => String::new(),
    };
    let description = description_with_links(&route.description, &route.links);
    let tags = resolved_tags(&route.tags, &route.tag, ctag);
    let other_attrs = clone_pairs(&route.other_attrs);
    let responses = merge_responses(clone_opt_string(&route.responses), inferred);
    let r = OperationDoc {
        method: route.method,
        full_path,
        summary,
        description,
        tags,
        deprecated: route.deprecated,
        security: route.security || controller_security,
        other_attrs,
        responses,
    };
    proof {
        assert(r@ =~= spec_operation_doc(
            route@,
            prefix@,
            ctag@,
            controller_security,
            opt_success_view(inferred),
        ));
    }
    r
}

} // verus!
