//! Annotation model: typed representation of parsed controller- and
//! route-level directives, plus the route-directive grammar itself.

use vstd::prelude::*;
use vstd::string::*;

use crate::text::{str_eq, to_upper, upper_seq};
use crate::attr::AttrTok;

verus! {

/// HTTP method of a route.
#[derive(Clone, Copy, PartialEq, Eq, Structural, Debug)]
pub enum HttpMethod {
    Get,
    Post,
    Put,
    Patch,
    Delete,
    Head,
    Options,
    Trace,
}

impl HttpMethod {
    /// Lowercase name of the routing-builder function for this method.
    pub open spec fn spec_axum_method(self) -> Seq<char> {
        match self {
            HttpMethod::Get => "get"@,
            HttpMethod::Post => "post"@,
            HttpMethod::Put => "put"@,
            HttpMethod::Patch => "patch"@,
            HttpMethod::Delete => "delete"@,
            HttpMethod::Head => "head"@,
            HttpMethod::Options => "options"@,
            HttpMethod::Trace => "trace"@,
        }
    }

    /// Uppercase display name of this method.
    pub open spec fn spec_upper_name(self) -> Seq<char> {
        match self {
            HttpMethod::Get => "GET"@,
            HttpMethod::Post => "POST"@,
            HttpMethod::Put => "PUT"@,
            HttpMethod::Patch => "PATCH"@,
            HttpMethod::Delete => "DELETE"@,
            HttpMethod::Head => "HEAD"@,
            HttpMethod::Options => "OPTIONS"@,
            HttpMethod::Trace => "TRACE"@,
        }
    }

    /// The method, if any, whose uppercase display name the given word
    /// matches up to ASCII case.
    pub open spec fn spec_from_ident(s: Seq<char>) -> Option<HttpMethod> {
        let u = upper_seq(s);
        if u == "GET"@ {
            Some(HttpMethod::Get)
        } else if u == "POST"@ {
            Some(HttpMethod::Post)
        } else if u == "PUT"@ {
            Some(HttpMethod::Put)
        } else if u == "PATCH"@ {
            Some(HttpMethod::Patch)
        } else if u == "DELETE"@ {
            Some(HttpMethod::Delete)
        } else if u == "HEAD"@ {
            Some(HttpMethod::Head)
        } else if u == "OPTIONS"@ {
            Some(HttpMethod::Options)
        } else if u == "TRACE"@ {
            Some(HttpMethod::Trace)
        } else {
            None
        }
    }

    /// Recognizes a method name written in any ASCII case.
    pub fn from_ident(name: &str) -> (r: Option<HttpMethod>)
        ensures
            r == HttpMethod::spec_from_ident(name@),
    {
        let u = to_upper(name);
        if str_eq(u.as_str(), "GET") {
            Some(HttpMethod::Get)
        } else if str_eq(u.as_str(), "POST") {
            Some(HttpMethod::Post)
        } else if str_eq(u.as_str(), "PUT") {
            Some(HttpMethod::Put)
        } else if str_eq(u.as_str(), "PATCH") {
            Some(HttpMethod::Patch)
        } else if str_eq(u.as_str(), "DELETE") {
            Some(HttpMethod::Delete)
        } else if str_eq(u.as_str(), "HEAD") {
            Some(HttpMethod::Head)
        } else if str_eq(u.as_str(), "OPTIONS") {
            Some(HttpMethod::Options)
        } else if str_eq(u.as_str(), "TRACE") {
            Some(HttpMethod::Trace)
        } else {
            None
        }
    }

    /// Returns the lowercase routing-builder function name for this method.
    pub fn to_axum_method(&self) -> (r: &'static str)
        ensures
            r@ == self.spec_axum_method(),
    {
        match self {
            HttpMethod::Get => "get",
            HttpMethod::Post => "post",
            HttpMethod::Put => "put",
            HttpMethod::Patch => "patch",
            HttpMethod::Delete => "delete",
            HttpMethod::Head => "head",
            HttpMethod::Options => "options",
            HttpMethod::Trace => "trace",
        }
    }

    /// Returns the uppercase display name for this method.
    pub fn upper_name(&self) -> (r: &'static str)
        ensures
            r@ == self.spec_upper_name(),
    {
        match self {
            HttpMethod::Get => "GET",
            HttpMethod::Post => "POST",
            HttpMethod::Put => "PUT",
            HttpMethod::Patch => "PATCH",
            HttpMethod::Delete => "DELETE",
            HttpMethod::Head => "HEAD",
            HttpMethod::Options => "OPTIONS",
            HttpMethod::Trace => "TRACE",
        }
    }
}

/// The uppercase display name is the uppercased routing-builder name.
pub proof fn lemma_upper_name_consistent(m: HttpMethod)
    ensures
        m.spec_upper_name() == upper_seq(m.spec_axum_method()),
{
    reveal_strlit("get");
    reveal_strlit("GET");
    reveal_strlit("post");
    reveal_strlit("POST");
    reveal_strlit("put");
    reveal_strlit("PUT");
    reveal_strlit("patch");
    reveal_strlit("PATCH");
    reveal_strlit("delete");
    reveal_strlit("DELETE");
    reveal_strlit("head");
    reveal_strlit("HEAD");
    reveal_strlit("options");
    reveal_strlit("OPTIONS");
    reveal_strlit("trace");
    reveal_strlit("TRACE");
    assert(m.spec_upper_name() =~= upper_seq(m.spec_axum_method()));
}

/// View of an `Option`al string as an optional character sequence.
pub open spec fn opt_str_view(o: Option<String>) -> Option<Seq<char>> {
    match o {
        Some(s) => Some(s@),
        None => None,
    }
}

/// View of a list of strings as a sequence of character sequences.
pub open spec fn strs_view(s: Seq<String>) -> Seq<Seq<char>> {
    s.map_values(|x: String| x@)
}

/// One declared hyperlink relation of a route.
#[derive(Debug)]
pub struct LinkInfo {
    /// Relation name.
    pub rel: String,
    /// Target href template.
    pub href: String,
    /// HTTP method of the link; `GET` is understood when absent.
    pub method: Option<String>,
}

/// Mathematical view of a [`LinkInfo`].
#[verifier::ext_equal]
pub ghost struct LinkInfoV {
    pub rel: Seq<char>,
    pub href: Seq<char>,
    pub method: Option<Seq<char>>,
}

impl View for LinkInfo {
    type V = LinkInfoV;

    open spec fn view(&self) -> LinkInfoV {
        LinkInfoV { rel: self.rel@, href: self.href@, method: opt_str_view(self.method) }
    }
}

/// View of a list of links.
pub open spec fn links_view(s: Seq<LinkInfo>) -> Seq<LinkInfoV> {
    s.map_values(|l: LinkInfo| l@)
}

/// View of a list of named opaque fragments.
pub open spec fn pairs_view(s: Seq<(String, String)>) -> Seq<(Seq<char>, Seq<char>)> {
    s.map_values(|p: (String, String)| (p.0@, p.1@))
}

/// Parsed route-level directives of one handler.
#[derive(Debug)]
pub struct RouteInfo {
    /// HTTP method.
    pub method: HttpMethod,
    /// Route path template, possibly with parameter placeholders.
    pub path: String,
    /// Documentation summary.
    pub summary: Option<String>,
    /// Documentation description.
    pub description: Option<String>,
    /// Whether the route is deprecated.
    pub deprecated: bool,
    /// Whether the route requires bearer authentication.
    pub security: bool,
    /// Reserved collection-wrapping flag.
    pub collection: bool,
    /// Reserved hyperlink-wrapping flag.
    pub hateoas: bool,
    /// Single documentation tag (legacy form).
    pub tag: Option<String>,
    /// Ordered documentation tag list (preferred form).
    pub tags: Option<Vec<String>>,
    /// Unrecognized directives, preserved in order as opaque fragments.
    pub other_attrs: Vec<(String, String)>,
    /// Declared hyperlink relations, in declaration order.
    pub links: Vec<LinkInfo>,
    /// Raw user-authored response-catalog fragment.
    pub responses: Option<String>,
}

/// Mathematical view of a [`RouteInfo`].
#[verifier::ext_equal]
pub ghost struct RouteInfoV {
    pub method: HttpMethod,
    pub path: Seq<char>,
    pub summary: Option<Seq<char>>,
    pub description: Option<Seq<char>>,
    pub deprecated: bool,
    pub security: bool,
    pub collection: bool,
    pub hateoas: bool,
    pub tag: Option<Seq<char>>,
    pub tags: Option<Seq<Seq<char>>>,
    pub other_attrs: Seq<(Seq<char>, Seq<char>)>,
    pub links: Seq<LinkInfoV>,
    pub responses: Option<Seq<char>>,
}

impl View for RouteInfo {
    type V = RouteInfoV;

    open spec fn view(&self) -> RouteInfoV {
        RouteInfoV {
            method: self.method,
            path: self.path@,
            summary: opt_str_view(self.summary),
            description: opt_str_view(self.description),
            deprecated: self.deprecated,
            security: self.security,
            collection: self.collection,
            hateoas: self.hateoas,
            tag: opt_str_view(self.tag),
            tags: match self.tags {
                Some(ts) => Some(strs_view(ts@)),
                None => None,
            },
            other_attrs: pairs_view(self.other_attrs@),
            links: links_view(self.links@),
            responses: opt_str_view(self.responses),
        }
    }
}

/// A view-preserving copy of an optional string.
pub fn clone_opt_string(o: &Option<String>) -> (r: Option<String>)
    ensures
        opt_str_view(r) == opt_str_view(*o),
{
    match o {
        Some(s) => Some(s.clone()),
        None => None,
    }
}

/// A view-preserving copy of a list of strings.
pub fn clone_strs(v: &Vec<String>) -> (r: Vec<String>)
    ensures
        strs_view(r@) == strs_view(v@),
{
    let mut out: Vec<String> = Vec::new();
    let mut i: usize = 0;
    while i < v.len()
        invariant
            0 <= i <= v.len(),
            out@.len() == i,
            forall|k: int| 0 <= k < i ==> #[trigger] out@[k]@ == v@[k]@,
        decreases v.len() - i,
    {
        out.push(v[i].clone());
        i = i + 1;
    }
    proof {
        assert(strs_view(out@) =~= strs_view(v@));
    }
    out
}

/// A view-preserving copy of a list of named opaque fragments.
pub fn clone_pairs(v: &Vec<(String, String)>) -> (r: Vec<(String, String)>)
    ensures
        pairs_view(r@) == pairs_view(v@),
{
    let mut out: Vec<(String, String)> = Vec::new();
    let mut i: usize = 0;
    while i < v.len()
        invariant
            0 <= i <= v.len(),
            out@.len() == i,
            forall|k: int| 0 <= k < i ==> #[trigger] out@[k].0@ == v@[k].0@ && out@[k].1@
                == v@[k].1@,
        decreases v.len() - i,
    {
        let p = (v[i].0.clone(), v[i].1.clone());
        out.push(p);
        i = i + 1;
    }
    proof {
        assert(pairs_view(out@) =~= pairs_view(v@));
    }
    out
}

impl Clone for LinkInfo {
    /// A view-preserving copy.
    fn clone(&self) -> (r: Self)
        ensures
            r@ == self@,
    {
        LinkInfo {
            rel: self.rel.clone(),
            href: self.href.clone(),
            method: clone_opt_string(&self.method),
        }
    }
}

/// A view-preserving copy of a list of links.
pub fn clone_links(v: &Vec<LinkInfo>) -> (r: Vec<LinkInfo>)
    ensures
        links_view(r@) == links_view(v@),
{
    let mut out: Vec<LinkInfo> = Vec::new();
    let mut i: usize = 0;
    while i < v.len()
        invariant
            0 <= i <= v.len(),
            out@.len() == i,
            forall|k: int| 0 <= k < i ==> #[trigger] out@[k]@ == v@[k]@,
        decreases v.len() - i,
    {
        out.push(v[i].clone());
        i = i + 1;
    }
    proof {
        assert(links_view(out@) =~= links_view(v@));
    }
    out
}

/// A view-preserving copy of an optional list of strings.
pub fn clone_opt_strs(o: &Option<Vec<String>>) -> (r: Option<Vec<String>>)
    ensures
        match r {
            Some(ts) => o matches Some(os) && strs_view(ts@) == strs_view(os@),
            None => o is None,
        },
{
    match o {
        Some(ts) => Some(clone_strs(ts)),
        None => None,
    }
}

impl Clone for RouteInfo {
    /// A view-preserving copy.
    fn clone(&self) -> (r: Self)
        ensures
            r@ == self@,
    {
        let r = RouteInfo {
            method: self.method,
            path: self.path.clone(),
            summary: clone_opt_string(&self.summary),
            description: clone_opt_string(&self.description),
            deprecated: self.deprecated,
            security: self.security,
            collection: self.collection,
            hateoas: self.hateoas,
            tag: clone_opt_string(&self.tag),
            tags: clone_opt_strs(&self.tags),
            other_attrs: clone_pairs(&self.other_attrs),
            links: clone_links(&self.links),
            responses: clone_opt_string(&self.responses),
        };
        proof {
            assert(r@ =~= self@);
        }
        r
    }
}

/// Parsed controller-level directives.
#[derive(Debug)]
pub struct ControllerArgs {
    /// Version segment, prepended to every route path when present.
    pub version: Option<String>,
    /// Legacy path prefix; consulted only when `path` is absent.
    pub prefix: Option<String>,
    /// Preferred path prefix.
    pub path: Option<String>,
    /// Application-state type name.
    pub state: String,
    /// Documentation tag of the controller.
    pub tag: Option<String>,
    /// Middleware function applied to every route.
    pub middleware: Option<String>,
    /// Whether every owned route requires bearer authentication.
    pub security: bool,
    /// Schema type names to register in the documentation model.
    pub schemas: Vec<String>,
}

/// Mathematical view of [`ControllerArgs`].
#[verifier::ext_equal]
pub ghost struct ControllerArgsV {
    pub version: Option<Seq<char>>,
    pub prefix: Option<Seq<char>>,
    pub path: Option<Seq<char>>,
    pub state: Seq<char>,
    pub tag: Option<Seq<char>>,
    pub middleware: Option<Seq<char>>,
    pub security: bool,
    pub schemas: Seq<Seq<char>>,
}

impl View for ControllerArgs {
    type V = ControllerArgsV;

    open spec fn view(&self) -> ControllerArgsV {
        ControllerArgsV {
            version: opt_str_view(self.version),
            prefix: opt_str_view(self.prefix),
            path: opt_str_view(self.path),
            state: self.state@,
            tag: opt_str_view(self.tag),
            middleware: opt_str_view(self.middleware),
            security: self.security,
            schemas: strs_view(self.schemas@),
        }
    }
}

/// A malformed directive grammar: the error is scoped to the one annotated
/// item whose attribute list it was read from.
#[derive(Debug, PartialEq, Eq, Structural, Clone, Copy)]
pub struct SyntaxError;

/// The route information right after the positional method and path, before
/// any directive is applied.
pub open spec fn spec_route_init(m: HttpMethod, path: Seq<char>) -> RouteInfoV {
    RouteInfoV {
        method: m,
        path: path,
        summary: None,
        description: None,
        deprecated: false,
        security: false,
        collection: false,
        hateoas: false,
        tag: None,
        tags: None,
        other_attrs: Seq::empty(),
        links: Seq::empty(),
        responses: None,
    }
}

/// Parse of a bracketed string list from position `j`: string literals
/// separated by commas, a trailing comma allowed.
pub open spec fn spec_parse_str_list(s: Seq<AttrTok>, j: int) -> Result<Seq<Seq<char>>, ()>
    decreases s.len() - j,
{
    if j < 0 || j >= s.len() {
        Ok(Seq::empty())
    } else {
        match s[j] {
            AttrTok::StrLit(v) => if j == s.len() - 1 {
                Ok(seq![v@])
            } else if s[j + 1] is Comma {
                match spec_parse_str_list(s, j + 2) {
                    Ok(rest) => Ok(seq![v@] + rest),
                    Err(e) => Err(e),
                }
            } else {
                Err(())
            },
            _ => Err(()),
        }
    }
}

/// Parse of one link tuple body from position `j`: `key = "value"` pairs
/// separated by commas, a trailing comma allowed; `rel`, `href` and `method`
/// set their fields, any other key is ignored.
pub open spec fn spec_parse_link_kvs(s: Seq<AttrTok>, j: int, acc: LinkInfoV) -> Result<
    LinkInfoV,
    (),
>
    decreases s.len() - j,
{
    if j < 0 || j >= s.len() {
        Ok(acc)
    } else {
        if s.len() - j >= 3 && s[j] is Ident && s[j + 1] is Eq && s[j + 2] is StrLit {
            let key = s[j]->Ident_0;
            let v = s[j + 2]->StrLit_0;
            let acc2 = if key@ == "rel"@ {
                LinkInfoV { rel: v@, ..acc }
            } else if key@ == "href"@ {
                LinkInfoV { href: v@, ..acc }
            } else if key@ == "method"@ {
                LinkInfoV { method: Some(v@), ..acc }
            } else {
                acc
            };
            if j + 3 == s.len() {
                Ok(acc2)
            } else if s[j + 3] is Comma {
                spec_parse_link_kvs(s, j + 4, acc2)
            } else {
                Err(())
            }
        } else {
            Err(())
        }
    }
}

/// A link with every field empty.
pub open spec fn spec_link_init() -> LinkInfoV {
    LinkInfoV { rel: Seq::empty(), href: Seq::empty(), method: None }
}

/// Parse of the `links(...)` body from position `j`: parenthesized link
/// tuples separated by commas, a trailing comma allowed.
pub open spec fn spec_parse_links(s: Seq<AttrTok>, j: int) -> Result<Seq<LinkInfoV>, ()>
    decreases s.len() - j,
{
    if j < 0 || j >= s.len() {
        Ok(Seq::empty())
    } else {
        match s[j] {
            AttrTok::Group(d, c) => if d is Paren {
                match spec_parse_link_kvs(c@, 0, spec_link_init()) {
                    Ok(link) => if j == s.len() - 1 {
                        Ok(seq![link])
                    } else if s[j + 1] is Comma {
                        match spec_parse_links(s, j + 2) {
                            Ok(rest) => Ok(seq![link] + rest),
                            Err(e) => Err(e),
                        }
                    } else {
                        Err(())
                    },
                    Err(e) => Err(e),
                }
            } else {
                Err(())
            },
            _ => Err(()),
        }
    }
}

/// The application of one directive run to the accumulated route
/// information. Recognized directives set their fields, later writes
/// winning; an unrecognized directive is preserved generically: a bare word
/// as a flag, `word = value` capturing the value text, `word(...)` capturing
/// the parenthesized text.
pub open spec fn spec_apply_directive(acc: RouteInfoV, seg: Seq<AttrTok>) -> Result<RouteInfoV, ()> {
    match seg[0] {
        AttrTok::Ident(key) => if key@ == "summary"@ {
            if seg.len() == 3 && seg[1] is Eq && seg[2] is StrLit {
                Ok(RouteInfoV { summary: Some(seg[2]->StrLit_0@), ..acc })
            } else {
                Err(())
            }
        } else if key@ == "description"@ {
            if seg.len() == 3 && seg[1] is Eq && seg[2] is StrLit {
                Ok(RouteInfoV { description: Some(seg[2]->StrLit_0@), ..acc })
            } else {
                Err(())
            }
        } else if key@ == "tag"@ {
            if seg.len() == 3 && seg[1] is Eq && seg[2] is StrLit {
                Ok(RouteInfoV { tag: Some(seg[2]->StrLit_0@), ..acc })
            } else {
                Err(())
            }
        } else if key@ == "deprecated"@ {
            if seg.len() == 1 {
                Ok(RouteInfoV { deprecated: true, ..acc })
            } else {
                Err(())
            }
        } else if key@ == "security"@ {
            if seg.len() == 1 {
                Ok(RouteInfoV { security: true, ..acc })
            } else {
                Err(())
            }
        } else if key@ == "collection"@ {
            if seg.len() == 1 {
                Ok(RouteInfoV { collection: true, ..acc })
            } else {
                Err(())
            }
        } else if key@ == "hateoas"@ {
            if seg.len() == 1 {
                Ok(RouteInfoV { hateoas: true, ..acc })
            } else {
                Err(())
            }
        } else if key@ == "tags"@ {
            if seg.len() == 3 && seg[1] is Eq && seg[2] is Group && seg[2]->Group_0 is Bracket {
                match spec_parse_str_list(seg[2]->Group_1@, 0) {
                    Ok(ts) => Ok(RouteInfoV { tags: Some(ts), ..acc }),
                    Err(e) => Err(e),
                }
            } else {
                Err(())
            }
        } else if key@ == "links"@ {
            if seg.len() == 2 && seg[1] is Group && seg[1]->Group_0 is Paren {
                match spec_parse_links(seg[1]->Group_1@, 0) {
                    Ok(ls) => Ok(RouteInfoV { links: ls, ..acc }),
                    Err(e) => Err(e),
                }
            } else {
                Err(())
            }
        } else if key@ == "responses"@ {
            if seg.len() == 2 && seg[1] is Group && seg[1]->Group_0 is Paren {
                Ok(
                    RouteInfoV {
                        responses: Some(crate::attr::spec_render_toks(seg[1]->Group_1@)),
                        ..acc
                    },
                )
            } else {
                Err(())
            }
        } else {
            if seg.len() == 1 {
                Ok(RouteInfoV { other_attrs: acc.other_attrs.push((key@, Seq::empty())), ..acc })
            } else if seg[1] is Eq {
                if seg.len() >= 3 {
                    Ok(
                        RouteInfoV {
                            other_attrs: acc.other_attrs.push(
                                (
                                    key@,
                                    crate::attr::spec_render_toks(seg.subrange(2, seg.len() as int)),
                                ),
                            ),
                            ..acc
                        },
                    )
                } else {
                    Err(())
                }
            } else if seg.len() == 2 && seg[1] is Group && seg[1]->Group_0 is Paren {
                Ok(
                    RouteInfoV {
                        other_attrs: acc.other_attrs.push(
                            (
                                key@,
                                "("@ + crate::attr::spec_render_toks(seg[1]->Group_1@) + ")"@,
                            ),
                        ),
                        ..acc
                    },
                )
            } else {
                Err(())
            }
        },
        _ => Err(()),
    }
}

/// The fold of the directive runs from index `i` on: an empty run is
/// accepted only as the last (a trailing comma); any directive error aborts
/// the whole parse.
pub open spec fn spec_parse_directives(
    segs: Seq<Seq<AttrTok>>,
    i: int,
    acc: RouteInfoV,
) -> Result<RouteInfoV, ()>
    decreases segs.len() - i,
{
    if i < 0 || i >= segs.len() {
        Ok(acc)
    } else if segs[i].len() == 0 {
        if i == segs.len() - 1 {
            Ok(acc)
        } else {
            Err(())
        }
    } else {
        match spec_apply_directive(acc, segs[i]) {
            Ok(a) => spec_parse_directives(segs, i + 1, a),
            Err(e) => Err(e),
        }
    }
}

/// The whole route-directive parse: a method word and a path literal, then
/// comma-separated directives. It fails exactly when the method word is not
/// one of the eight recognized values, the path literal is missing, or a
/// directive run is malformed.
pub open spec fn spec_parse_route(toks: Seq<AttrTok>) -> Result<RouteInfoV, ()> {
    let segs = crate::attr::spec_split(toks);
    if segs[0].len() == 2 && segs[0][0] is Ident && segs[0][1] is StrLit {
        match HttpMethod::spec_from_ident(segs[0][0]->Ident_0@) {
            Some(m) => spec_parse_directives(segs, 1, spec_route_init(m, segs[0][1]->StrLit_0@)),
            None => Err(()),
        }
    } else {
        Err(())
    }
}


/// A list result with a parsed prefix prepended.
pub open spec fn with_strs_prefix(o: Seq<Seq<char>>, r: Result<Seq<Seq<char>>, ()>) -> Result<
    Seq<Seq<char>>,
    (),
> {
    match r {
        Ok(x) => Ok(o + x),
        Err(e) => Err(e),
    }
}

/// A link-list result with a parsed prefix prepended.
pub open spec fn with_links_prefix(o: Seq<LinkInfoV>, r: Result<Seq<LinkInfoV>, ()>) -> Result<
    Seq<LinkInfoV>,
    (),
> {
    match r {
        Ok(x) => Ok(o + x),
        Err(e) => Err(e),
    }
}

/// A pushed string extends the view by its own view.
proof fn lemma_strs_view_push(v1: Seq<String>, v2: Seq<String>)
    requires
        v2.len() == v1.len() + 1,
        v2 == v1.push(v2.last()),
    ensures
        strs_view(v2) == strs_view(v1).push(v2.last()@),
{
    assert forall|j: int| 0 <= j < v2.len() implies strs_view(v2)[j] == strs_view(v1).push(
        v2.last()@,
    )[j] by {
        if j < v1.len() {
            assert(v2[j] == v1[j]);
        } else {
            assert(v2[j] == v2.last());
        }
    }
    assert(strs_view(v2) =~= strs_view(v1).push(v2.last()@));
}

/// A pushed link extends the view by its own view.
proof fn lemma_links_view_push(v1: Seq<LinkInfo>, v2: Seq<LinkInfo>)
    requires
        v2.len() == v1.len() + 1,
        v2 == v1.push(v2.last()),
    ensures
        links_view(v2) == links_view(v1).push(v2.last()@),
{
    assert forall|j: int| 0 <= j < v2.len() implies links_view(v2)[j] == links_view(v1).push(
        v2.last()@,
    )[j] by {
        if j < v1.len() {
            assert(v2[j] == v1[j]);
        } else {
            assert(v2[j] == v2.last());
        }
    }
    assert(links_view(v2) =~= links_view(v1).push(v2.last()@));
}

/// A pushed fragment pair extends the view by its own view.
proof fn lemma_pairs_view_push(v1: Seq<(String, String)>, v2: Seq<(String, String)>)
    requires
        v2.len() == v1.len() + 1,
        v2 == v1.push(v2.last()),
    ensures
        pairs_view(v2) == pairs_view(v1).push((v2.last().0@, v2.last().1@)),
{
    assert forall|j: int| 0 <= j < v2.len() implies pairs_view(v2)[j] == pairs_view(v1).push(
        (v2.last().0@, v2.last().1@),
    )[j] by {
        if j < v1.len() {
            assert(v2[j] == v1[j]);
        } else {
            assert(v2[j] == v2.last());
        }
    }
    assert(pairs_view(v2) =~= pairs_view(v1).push((v2.last().0@, v2.last().1@)));
}

/// Parses a bracketed string list.
fn parse_str_list(s: &Vec<AttrTok>) -> (r: Result<Vec<String>, SyntaxError>)
    ensures
        match r {
            Ok(v) => spec_parse_str_list(s@, 0) == Ok::<Seq<Seq<char>>, ()>(strs_view(v@)),
            Err(_) => spec_parse_str_list(s@, 0) is Err,
        },
{
    let mut out: Vec<String> = Vec::new();
    let mut j: usize = 0;
    proof {
        assert(strs_view(out@) =~= Seq::<Seq<char>>::empty());
        if spec_parse_str_list(s@, 0) is Ok {
            assert(Seq::<Seq<char>>::empty() + spec_parse_str_list(s@, 0)->Ok_0
                =~= spec_parse_str_list(s@, 0)->Ok_0);
        }
        assert(with_strs_prefix(strs_view(out@), spec_parse_str_list(s@, 0))
            == spec_parse_str_list(s@, 0));
    }
    while j < s.len()
        invariant
            0 <= j <= s@.len(),
            with_strs_prefix(strs_view(out@), spec_parse_str_list(s@, j as int))
                == spec_parse_str_list(s@, 0),
        decreases s@.len() - j,
    {
        let v = match &s[j] {
            AttrTok::StrLit(v) => v.clone(),
            _ => {
                return Err(SyntaxError);
            },
        };
        let ghost out_pre = out@;
        out.push(v);
        proof {
            lemma_strs_view_push(out_pre, out@);
        }
        if j + 1 >= s.len() {
            proof {
                assert(spec_parse_str_list(s@, j as int) == Ok::<Seq<Seq<char>>, ()>(
                    seq![s@[j as int]->StrLit_0@],
                ));
                assert(strs_view(out_pre) + seq![s@[j as int]->StrLit_0@] =~= strs_view(out@));
            }
            return Ok(out);
        }
        match &s[j + 1] {
            AttrTok::Comma => {},
            _ => {
                return Err(SyntaxError);
            },
        }
        proof {
            let rest = spec_parse_str_list(s@, j as int + 2);
            if rest is Ok {
                assert(spec_parse_str_list(s@, j as int) == Ok::<Seq<Seq<char>>, ()>(
                    seq![s@[j as int]->StrLit_0@] + rest->Ok_0,
                ));
                assert(strs_view(out_pre) + (seq![s@[j as int]->StrLit_0@] + rest->Ok_0)
                    =~= strs_view(out@) + rest->Ok_0);
            }
        }
        j = j + 2;
    }
    proof {
        assert(spec_parse_str_list(s@, j as int) == Ok::<Seq<Seq<char>>, ()>(Seq::empty()));
        assert(strs_view(out@) + Seq::<Seq<char>>::empty() =~= strs_view(out@));
    }
    Ok(out)
}

/// Parses the body of one link tuple.
fn parse_link_kvs(s: &Vec<AttrTok>) -> (r: Result<LinkInfo, SyntaxError>)
    ensures
        match r {
            Ok(l) => spec_parse_link_kvs(s@, 0, spec_link_init()) == Ok::<LinkInfoV, ()>(l@),
            Err(_) => spec_parse_link_kvs(s@, 0, spec_link_init()) is Err,
        },
{
    let mut acc = LinkInfo { rel: String::new(), href: String::new(), method: None };
    proof {
        assert(acc@ =~= spec_link_init());
    }
    let mut j: usize = 0;
    while j < s.len()
        invariant
            0 <= j <= s@.len(),
            spec_parse_link_kvs(s@, j as int, acc@) == spec_parse_link_kvs(
                s@,
                0,
                spec_link_init(),
            ),
        decreases s@.len() - j,
    {
        if s.len() - j < 3 {
            return Err(SyntaxError);
        }
        let key = match &s[j] {
            AttrTok::Ident(k) => k,
            _ => {
                return Err(SyntaxError);
            },
        };
        match &s[j + 1] {
            AttrTok::Eq => {},
            _ => {
                return Err(SyntaxError);
            },
        }
        let v = match &s[j + 2] {
            AttrTok::StrLit(v) => v.clone(),
            _ => {
                return Err(SyntaxError);
            },
        };
        if str_eq(key.as_str(), "rel") {
            acc.rel = v;
        } else if str_eq(key.as_str(), "href") {
            acc.href = v;
        } else if str_eq(key.as_str(), "method") {
            acc.method = Some(v);
        }
        if j + 3 >= s.len() {
            return Ok(acc);
        }
        match &s[j + 3] {
            AttrTok::Comma => {},
            _ => {
                return Err(SyntaxError);
            },
        }
        j = j + 4;
    }
    Ok(acc)
}

/// Parses the body of the `links(...)` directive.
fn parse_links(s: &Vec<AttrTok>) -> (r: Result<Vec<LinkInfo>, SyntaxError>)
    ensures
        match r {
            Ok(v) => spec_parse_links(s@, 0) == Ok::<Seq<LinkInfoV>, ()>(links_view(v@)),
            Err(_) => spec_parse_links(s@, 0) is Err,
        },
{
    let mut out: Vec<LinkInfo> = Vec::new();
    let mut j: usize = 0;
    proof {
        assert(links_view(out@) =~= Seq::<LinkInfoV>::empty());
        if spec_parse_links(s@, 0) is Ok {
            assert(Seq::<LinkInfoV>::empty() + spec_parse_links(s@, 0)->Ok_0 =~= spec_parse_links(
                s@,
                0,
            )->Ok_0);
        }
        assert(with_links_prefix(links_view(out@), spec_parse_links(s@, 0)) == spec_parse_links(
            s@,
            0,
        ));
    }
    while j < s.len()
        invariant
            0 <= j <= s@.len(),
            with_links_prefix(links_view(out@), spec_parse_links(s@, j as int))
                == spec_parse_links(s@, 0),
        decreases s@.len() - j,
    {
        let link = match &s[j] {
            AttrTok::Group(d, c) => match d {
                crate::attr::Delim::Paren => match parse_link_kvs(c) {
                    Ok(l) => l,
                    Err(e) => {
                        return Err(e);
                    },
                },
                _ => {
                    return Err(SyntaxError);
                },
            },
            _ => {
                return Err(SyntaxError);
            },
        };
        let ghost out_pre = out@;
        let ghost linkv = link@;
        out.push(link);
        proof {
            lemma_links_view_push(out_pre, out@);
        }
        if j + 1 >= s.len() {
            proof {
                assert(spec_parse_links(s@, j as int) == Ok::<Seq<LinkInfoV>, ()>(seq![linkv]));
                assert(links_view(out_pre) + seq![linkv] =~= links_view(out@));
            }
            return Ok(out);
        }
        match &s[j + 1] {
            AttrTok::Comma => {},
            _ => {
                return Err(SyntaxError);
            },
        }
        proof {
            let rest = spec_parse_links(s@, j as int + 2);
            if rest is Ok {
                assert(spec_parse_links(s@, j as int) == Ok::<Seq<LinkInfoV>, ()>(
                    seq![linkv] + rest->Ok_0,
                ));
                assert(links_view(out_pre) + (seq![linkv] + rest->Ok_0) =~= links_view(out@)
                    + rest->Ok_0);
            }
        }
        j = j + 2;
    }
    proof {
        assert(spec_parse_links(s@, j as int) == Ok::<Seq<LinkInfoV>, ()>(Seq::empty()));
        assert(links_view(out@) + Seq::<LinkInfoV>::empty() =~= links_view(out@));
    }
    Ok(out)
}

/// Applies one directive run to the accumulated route information.
fn apply_directive(acc: RouteInfo, seg: &Vec<AttrTok>) -> (r: Result<RouteInfo, SyntaxError>)
    requires
        seg@.len() > 0,
    ensures
        match r {
            Ok(a) => spec_apply_directive(acc@, seg@) == Ok::<RouteInfoV, ()>(a@),
            Err(_) => spec_apply_directive(acc@, seg@) is Err,
        },
{
    let ghost acc0 = acc@;
    let mut acc = acc;
    let key = match &seg[0] {
        AttrTok::Ident(k) => k,
        _ => {
            return Err(SyntaxError);
        },
    };
    if str_eq(key.as_str(), "summary") {
        if seg.len() == 3 {
            match (&seg[1], &seg[2]) {
                (AttrTok::Eq, AttrTok::StrLit(v)) => {
                    acc.summary = Some(v.clone());
                    proof {
                        assert(acc@ =~= spec_apply_directive(acc0, seg@)->Ok_0);
                    }
                    return Ok(acc);
                },
                _ => {
                    return Err(SyntaxError);
                },
            }
        }
        return Err(SyntaxError);
    }
    if str_eq(key.as_str(), "description") {
        if seg.len() == 3 {
            match (&seg[1], &seg[2]) {
                (AttrTok::Eq, AttrTok::StrLit(v)) => {
                    acc.description = Some(v.clone());
                    proof {
                        assert(acc@ =~= spec_apply_directive(acc0, seg@)->Ok_0);
                    }
                    return Ok(acc);
                },
                _ => {
                    return Err(SyntaxError);
                },
            }
        }
        return Err(SyntaxError);
    }
    if str_eq(key.as_str(), "tag") {
        if seg.len() == 3 {
            match (&seg[1], &seg[2]) {
                (AttrTok::Eq, AttrTok::StrLit(v)) => {
                    acc.tag = Some(v.clone());
                    proof {
                        assert(acc@ =~= spec_apply_directive(acc0, seg@)->Ok_0);
                    }
                    return Ok(acc);
                },
                _ => {
                    return Err(SyntaxError);
                },
            }
        }
        return Err(SyntaxError);
    }
    if str_eq(key.as_str(), "deprecated") {
        if seg.len() == 1 {
            acc.deprecated = true;
            proof {
                assert(acc@ =~= spec_apply_directive(acc0, seg@)->Ok_0);
            }
            return Ok(acc);
        }
        return Err(SyntaxError);
    }
    if str_eq(key.as_str(), "security") {
        if seg.len() == 1 {
            acc.security = true;
            proof {
                assert(acc@ =~= spec_apply_directive(acc0, seg@)->Ok_0);
            }
            return Ok(acc);
        }
        return Err(SyntaxError);
    }
    if str_eq(key.as_str(), "collection") {
        if seg.len() == 1 {
            acc.collection = true;
            proof {
                assert(acc@ =~= spec_apply_directive(acc0, seg@)->Ok_0);
            }
            return Ok(acc);
        }
        return Err(SyntaxError);
    }
    if str_eq(key.as_str(), "hateoas") {
        if seg.len() == 1 {
            acc.hateoas = true;
            proof {
                assert(acc@ =~= spec_apply_directive(acc0, seg@)->Ok_0);
            }
            return Ok(acc);
        }
        return Err(SyntaxError);
    }
    if str_eq(key.as_str(), "tags") {
        if seg.len() == 3 {
            match (&seg[1], &seg[2]) {
                (AttrTok::Eq, AttrTok::Group(crate::attr::Delim::Bracket, elems)) => {
                    match parse_str_list(elems) {
                        Ok(ts) => {
                            acc.tags = Some(ts);
                            proof {
                                assert(acc@ =~= spec_apply_directive(acc0, seg@)->Ok_0);
                            }
                            return Ok(acc);
                        },
                        Err(e) => {
                            return Err(e);
                        },
                    }
                },
                _ => {
                    return Err(SyntaxError);
                },
            }
        }
        return Err(SyntaxError);
    }
    if str_eq(key.as_str(), "links") {
        if seg.len() == 2 {
            match &seg[1] {
                AttrTok::Group(crate::attr::Delim::Paren, c) => match parse_links(c) {
                    Ok(ls) => {
                        acc.links = ls;
                        proof {
                            assert(acc@ =~= spec_apply_directive(acc0, seg@)->Ok_0);
                        }
                        return Ok(acc);
                    },
                    Err(e) => {
                        return Err(e);
                    },
                },
                _ => {
                    return Err(SyntaxError);
                },
            }
        }
        return Err(SyntaxError);
    }
    if str_eq(key.as_str(), "responses") {
        if seg.len() == 2 {
            match &seg[1] {
                AttrTok::Group(crate::attr::Delim::Paren, c) => {
                    acc.responses = Some(crate::attr::render_toks(c));
                    proof {
                        assert(acc@ =~= spec_apply_directive(acc0, seg@)->Ok_0);
                    }
                    return Ok(acc);
                },
                _ => {
                    return Err(SyntaxError);
                },
            }
        }
        return Err(SyntaxError);
    }
    if seg.len() == 1 {
        let ghost pairs_pre = acc.other_attrs@;
        acc.other_attrs.push((key.clone(), String::new()));
        proof {
            lemma_pairs_view_push(pairs_pre, acc.other_attrs@);
            assert(acc@ =~= spec_apply_directive(acc0, seg@)->Ok_0);
        }
        return Ok(acc);
    }
    let is_eq = match &seg[1] {
        AttrTok::Eq => true,
        _ => false,
    };
    if is_eq {
        if seg.len() >= 3 {
            let frag = crate::attr::render_toks_from(seg, 2);
            let ghost pairs_pre = acc.other_attrs@;
            acc.other_attrs.push((key.clone(), frag));
            proof {
                lemma_pairs_view_push(pairs_pre, acc.other_attrs@);
                assert(acc@ =~= spec_apply_directive(acc0, seg@)->Ok_0);
            }
            return Ok(acc);
        }
        return Err(SyntaxError);
    }
    if seg.len() == 2 {
        match &seg[1] {
            AttrTok::Group(crate::attr::Delim::Paren, c) => {
                let mut frag = String::from_str("(");
                let inner = crate::attr::render_toks(c);
                frag.append(inner.as_str());
                frag.append(")");
                let ghost pairs_pre = acc.other_attrs@;
                acc.other_attrs.push((key.clone(), frag));
                proof {
                    lemma_pairs_view_push(pairs_pre, acc.other_attrs@);
                    assert(acc@ =~= spec_apply_directive(acc0, seg@)->Ok_0);
                }
                return Ok(acc);
            },
            _ => {
                return Err(SyntaxError);
            },
        }
    }
    Err(SyntaxError)
}

impl RouteInfo {
    /// Parses the route directive list: a method word and a path literal,
    /// then comma-separated directives. Fails with a syntax error exactly
    /// when the method word is not one of the eight recognized values, the
    /// path literal is missing, or a directive run is malformed.
    pub fn parse(tokens: Vec<AttrTok>) -> (r: Result<RouteInfo, SyntaxError>)
        ensures
            match r {
                Ok(ri) => spec_parse_route(tokens@) == Ok::<RouteInfoV, ()>(ri@),
                Err(_) => spec_parse_route(tokens@) is Err,
            },
    {
        let ghost toksv = tokens@;
        let segs = crate::attr::split_top(tokens);
        let ghost segsv = crate::attr::segs_view(segs@);
        proof {
            crate::attr::lemma_split_len(toksv);
            assert(segsv[0] == segs@[0]@);
        }
        if segs[0].len() != 2 {
            return Err(SyntaxError);
        }
        let head = &segs[0];
        let method = match &head[0] {
            AttrTok::Ident(m) => match HttpMethod::from_ident(m.as_str()) {
                Some(method) => method,
                None => {
                    return Err(SyntaxError);
                },
            },
            _ => {
                return Err(SyntaxError);
            },
        };
        let path = match &head[1] {
            AttrTok::StrLit(p) => p.clone(),
            _ => {
                return Err(SyntaxError);
            },
        };
        let mut acc = RouteInfo {
            method,
            path,
            summary: None,
            description: None,
            deprecated: false,
            security: false,
            collection: false,
            hateoas: false,
            tag: None,
            tags: None,
            other_attrs: Vec::new(),
            links: Vec::new(),
            responses: None,
        };
        let ghost initv = acc@;
        proof {
            assert(initv =~= spec_route_init(
                HttpMethod::spec_from_ident(segsv[0][0]->Ident_0@)->Some_0,
                segsv[0][1]->StrLit_0@,
            ));
            assert(spec_parse_route(toksv) == spec_parse_directives(segsv, 1, initv));
        }
        let mut i: usize = 1;
        let n = segs.len();
        while i < n
            invariant
                1 <= i <= n,
                n == segs@.len(),
                segsv == crate::attr::segs_view(segs@),
                spec_parse_route(tokens@) == spec_parse_directives(segsv, 1, initv),
                spec_parse_directives(segsv, i as int, acc@) == spec_parse_directives(
                    segsv,
                    1,
                    initv,
                ),
            decreases n - i,
        {
            proof {
                assert(segsv[i as int] == segs@[i as int]@);
            }
            let seg = &segs[i];
            if seg.len() == 0 {
                if i + 1 != n {
                    return Err(SyntaxError);
                }
            } else {
                match apply_directive(acc, seg) {
                    Ok(a) => {
                        acc = a;
                    },
                    Err(e) => {
                        return Err(e);
                    },
                }
            }
            i = i + 1;
        }
        Ok(acc)
    }
}

} // verus!
