//! The controller pipeline: applies the link-wrapping transform to every
//! handler, then assembles the wiring table, the middleware stack, the route
//! metadata listing, the documentation stubs and the path-name roster.

use vstd::prelude::*;
use vstd::string::*;

use crate::docs::{
    build_operation_doc, controller_tag, full_prefix, infer_success, opt_success_view,
    spec_controller_tag, spec_full_prefix, spec_operation_doc, spec_or_empty,
    spec_success_of_output, OperationDoc, OperationDocV, SuccessDoc, SuccessDocV,
};
use crate::parse::{
    clone_strs, opt_str_view, strs_view, ControllerArgs, ControllerArgsV, HttpMethod,
};
use crate::registry::{paths_view, spec_register_path_entry, DocModel, PathItemDocV};
use crate::text::concat2;
use crate::transform::{
    handlers_view, spec_transform, transform_handler, HandlerDef, HandlerDefV,
};

verus! {

/// One wiring entry: method, path and handler reference, in declaration
/// order.
#[derive(Debug)]
pub struct RouteEntry {
    pub method: HttpMethod,
    pub path: String,
    pub handler: String,
}

/// Mathematical view of a [`RouteEntry`].
#[verifier::ext_equal]
pub ghost struct RouteEntryV {
    pub method: HttpMethod,
    pub path: Seq<char>,
    pub handler: Seq<char>,
}

impl View for RouteEntry {
    type V = RouteEntryV;

    open spec fn view(&self) -> RouteEntryV {
        RouteEntryV { method: self.method, path: self.path@, handler: self.handler@ }
    }
}

/// One route-metadata record for external consumption.
#[derive(Debug)]
pub struct OpenApiPathEntry {
    pub path: String,
    pub method: String,
    pub summary: String,
    pub description: String,
    pub tag: String,
}

/// Mathematical view of an [`OpenApiPathEntry`].
#[verifier::ext_equal]
pub ghost struct OpenApiPathEntryV {
    pub path: Seq<char>,
    pub method: Seq<char>,
    pub summary: Seq<char>,
    pub description: Seq<char>,
    pub tag: Seq<char>,
}

impl View for OpenApiPathEntry {
    type V = OpenApiPathEntryV;

    open spec fn view(&self) -> OpenApiPathEntryV {
        OpenApiPathEntryV {
            path: self.path@,
            method: self.method@,
            summary: self.summary@,
            description: self.description@,
            tag: self.tag@,
        }
    }
}

/// One documentation stub: the fully resolved operation for a handler, plus
/// the raw inferred success body, from which a synthesized envelope schema
/// definition is emitted when the payload is a hyperlink envelope.
#[derive(Debug)]
pub struct StubDoc {
    pub name: String,
    pub op: OperationDoc,
    pub inferred: Option<SuccessDoc>,
}

/// Mathematical view of a [`StubDoc`].
#[verifier::ext_equal]
pub ghost struct StubDocV {
    pub name: Seq<char>,
    pub op: OperationDocV,
    pub inferred: Option<SuccessDocV>,
}

impl View for StubDoc {
    type V = StubDocV;

    open spec fn view(&self) -> StubDocV {
        StubDocV { name: self.name@, op: self.op@, inferred: opt_success_view(self.inferred) }
    }
}

/// Everything the controller pipeline emits for one controller.
#[derive(Debug)]
pub struct ControllerOutput {
    /// The composed full prefix.
    pub prefix: String,
    /// The resolved controller tag.
    pub tag: String,
    /// The handler definitions after the link-wrapping transform.
    pub items: Vec<HandlerDef>,
    /// The wiring table, in declaration order.
    pub routes: Vec<RouteEntry>,
    /// The middleware stack, in declaration order; the first entry is the
    /// outermost layer.
    pub middleware: Vec<String>,
    /// Route metadata for external consumption.
    pub openapi_routes: Vec<OpenApiPathEntry>,
    /// Documentation stubs, one per routed handler.
    pub stubs: Vec<StubDoc>,
    /// The routed handler names, in declaration order.
    pub path_names: Vec<String>,
    /// The number of routed handlers.
    pub path_count: usize,
    /// Schema type names to register.
    pub schemas: Vec<String>,
    /// The application-state type name.
    pub state: String,
}

/// View of a route-entry list.
pub open spec fn route_entries_view(s: Seq<RouteEntry>) -> Seq<RouteEntryV> {
    s.map_values(|e: RouteEntry| e@)
}

/// View of a route-metadata list.
pub open spec fn openapi_entries_view(s: Seq<OpenApiPathEntry>) -> Seq<OpenApiPathEntryV> {
    s.map_values(|e: OpenApiPathEntry| e@)
}

/// View of a stub list.
pub open spec fn stubs_view(s: Seq<StubDoc>) -> Seq<StubDocV> {
    s.map_values(|e: StubDoc| e@)
}

/// Mathematical view of a [`ControllerOutput`].
#[verifier::ext_equal]
pub ghost struct ControllerOutputV {
    pub prefix: Seq<char>,
    pub tag: Seq<char>,
    pub items: Seq<HandlerDefV>,
    pub routes: Seq<RouteEntryV>,
    pub middleware: Seq<Seq<char>>,
    pub openapi_routes: Seq<OpenApiPathEntryV>,
    pub stubs: Seq<StubDocV>,
    pub path_names: Seq<Seq<char>>,
    pub path_count: nat,
    pub schemas: Seq<Seq<char>>,
    pub state: Seq<char>,
}

impl View for ControllerOutput {
    type V = ControllerOutputV;

    open spec fn view(&self) -> ControllerOutputV {
        ControllerOutputV {
            prefix: self.prefix@,
            tag: self.tag@,
            items: handlers_view(self.items@),
            routes: route_entries_view(self.routes@),
            middleware: strs_view(self.middleware@),
            openapi_routes: openapi_entries_view(self.openapi_routes@),
            stubs: stubs_view(self.stubs@),
            path_names: strs_view(self.path_names@),
            path_count: self.path_count as nat,
            schemas: strs_view(self.schemas@),
            state: self.state@,
        }
    }
}

/// The link-wrapping transform applied to a whole handler list, splices
/// included, in declaration order.
pub open spec fn spec_transform_all(hs: Seq<HandlerDefV>) -> Seq<HandlerDefV>
    decreases hs,
{
    if hs.len() == 0 {
        Seq::empty()
    } else {
        spec_transform(hs[0]) + spec_transform_all(hs.subrange(1, hs.len() as int))
    }
}

/// The transform of the first `n` handlers.
pub open spec fn spec_transform_prefix(hs: Seq<HandlerDefV>, n: int) -> Seq<HandlerDefV>
    decreases n,
{
    if n <= 0 {
        Seq::empty()
    } else {
        spec_transform_prefix(hs, n - 1) + spec_transform(hs[n - 1])
    }
}

/// The full transform prefix coincides with the whole transform.
proof fn lemma_transform_prefix_all(hs: Seq<HandlerDefV>)
    ensures
        spec_transform_prefix(hs, hs.len() as int) == spec_transform_all(hs),
    decreases hs.len(),
{
    if hs.len() == 0 {
        assert(spec_transform_prefix(hs, 0) =~= spec_transform_all(hs));
    } else {
        let t = hs.subrange(1, hs.len() as int);
        lemma_transform_prefix_all(t);
        lemma_transform_prefix_shift(hs, hs.len() as int);
        assert(spec_transform_prefix(hs, hs.len() as int) =~= spec_transform_all(hs));
    }
}

/// Shifting a transform prefix past the head handler.
proof fn lemma_transform_prefix_shift(hs: Seq<HandlerDefV>, n: int)
    requires
        hs.len() >= 1,
        1 <= n <= hs.len(),
    ensures
        spec_transform_prefix(hs, n) == spec_transform(hs[0]) + spec_transform_prefix(
            hs.subrange(1, hs.len() as int),
            n - 1,
        ),
    decreases n,
{
    let t = hs.subrange(1, hs.len() as int);
    if n == 1 {
        assert(spec_transform_prefix(hs, 0) == Seq::<HandlerDefV>::empty());
        assert(spec_transform_prefix(t, 0) == Seq::<HandlerDefV>::empty());
        assert(spec_transform_prefix(hs, 1) == spec_transform_prefix(hs, 0) + spec_transform(
            hs[0],
        ));
        assert(spec_transform_prefix(hs, 1) =~= spec_transform(hs[0]) + spec_transform_prefix(
            t,
            0,
        ));
    } else {
        lemma_transform_prefix_shift(hs, n - 1);
        assert(t[n - 2] == hs[n - 1]);
        assert(spec_transform_prefix(hs, n) =~= spec_transform(hs[0]) + spec_transform_prefix(
            t,
            n - 1,
        ));
    }
}

/// The routed handlers of an item list: those that carry a route, in order.
pub open spec fn spec_routed(items: Seq<HandlerDefV>) -> Seq<HandlerDefV>
    decreases items,
{
    if items.len() == 0 {
        Seq::empty()
    } else {
        (if items[0].route is Some {
            seq![items[0]]
        } else {
            Seq::empty()
        }) + spec_routed(items.subrange(1, items.len() as int))
    }
}

/// The routed handlers among the first `n` items.
pub open spec fn spec_routed_prefix(items: Seq<HandlerDefV>, n: int) -> Seq<HandlerDefV>
    decreases n,
{
    if n <= 0 {
        Seq::empty()
    } else {
        spec_routed_prefix(items, n - 1) + (if items[n - 1].route is Some {
            seq![items[n - 1]]
        } else {
            Seq::empty()
        })
    }
}

/// The full routed prefix coincides with the routed handler list.
proof fn lemma_routed_prefix_all(items: Seq<HandlerDefV>)
    ensures
        spec_routed_prefix(items, items.len() as int) == spec_routed(items),
    decreases items.len(),
{
    if items.len() == 0 {
        assert(spec_routed_prefix(items, 0) =~= spec_routed(items));
    } else {
        let t = items.subrange(1, items.len() as int);
        lemma_routed_prefix_all(t);
        lemma_routed_prefix_shift(items, items.len() as int);
        assert(spec_routed_prefix(items, items.len() as int) =~= spec_routed(items));
    }
}

/// Shifting a routed prefix past the head item.
proof fn lemma_routed_prefix_shift(items: Seq<HandlerDefV>, n: int)
    requires
        items.len() >= 1,
        1 <= n <= items.len(),
    ensures
        spec_routed_prefix(items, n) == (if items[0].route is Some {
            seq![items[0]]
        } else {
            Seq::<HandlerDefV>::empty()
        }) + spec_routed_prefix(items.subrange(1, items.len() as int), n - 1),
    decreases n,
{
    let t = items.subrange(1, items.len() as int);
    let head: Seq<HandlerDefV> = if items[0].route is Some {
        seq![items[0]]
    } else {
        Seq::empty()
    };
    if n == 1 {
        assert(spec_routed_prefix(items, 1) == spec_routed_prefix(items, 0) + (
        if items[0].route is Some {
            seq![items[0]]
        } else {
            Seq::<HandlerDefV>::empty()
        }));
        assert(spec_routed_prefix(items, 1) =~= head + spec_routed_prefix(t, 0));
    } else {
        lemma_routed_prefix_shift(items, n - 1);
        assert(t[n - 2] == items[n - 1]);
        assert(spec_routed_prefix(items, n) =~= head + spec_routed_prefix(t, n - 1));
    }
}

/// The wiring entry of a routed handler.
pub open spec fn spec_route_entry(h: HandlerDefV) -> RouteEntryV {
    RouteEntryV { method: h.route->Some_0.method, path: h.route->Some_0.path, handler: h.name }
}

/// The route-metadata record of a routed handler.
pub open spec fn spec_openapi_entry(h: HandlerDefV, prefix: Seq<char>, ctag: Seq<char>) -> OpenApiPathEntryV {
    OpenApiPathEntryV {
        path: prefix + h.route->Some_0.path,
        method: h.route->Some_0.method.spec_upper_name(),
        summary: spec_or_empty(h.route->Some_0.summary),
        description: spec_or_empty(h.route->Some_0.description),
        tag: ctag,
    }
}

/// The documentation stub of a routed handler.
pub open spec fn spec_stub(
    h: HandlerDefV,
    prefix: Seq<char>,
    ctag: Seq<char>,
    controller_security: bool,
) -> StubDocV {
    StubDocV {
        name: h.name,
        op: spec_operation_doc(
            h.route->Some_0,
            prefix,
            ctag,
            controller_security,
            spec_success_of_output(h.name, h.output),
        ),
        inferred: spec_success_of_output(h.name, h.output),
    }
}

/// The wiring table of the routed handlers.
pub open spec fn spec_wiring(routed: Seq<HandlerDefV>) -> Seq<RouteEntryV> {
    routed.map_values(|h: HandlerDefV| spec_route_entry(h))
}

/// The route-metadata records of the routed handlers.
pub open spec fn spec_openapi_list(
    routed: Seq<HandlerDefV>,
    prefix: Seq<char>,
    ctag: Seq<char>,
) -> Seq<OpenApiPathEntryV> {
    routed.map_values(|h: HandlerDefV| spec_openapi_entry(h, prefix, ctag))
}

/// The documentation stubs of the routed handlers.
pub open spec fn spec_stub_list(
    routed: Seq<HandlerDefV>,
    prefix: Seq<char>,
    ctag: Seq<char>,
    controller_security: bool,
) -> Seq<StubDocV> {
    routed.map_values(|h: HandlerDefV| spec_stub(h, prefix, ctag, controller_security))
}

/// The names of the routed handlers.
pub open spec fn spec_path_names(routed: Seq<HandlerDefV>) -> Seq<Seq<char>> {
    routed.map_values(|h: HandlerDefV| h.name)
}

/// The wiring table grows by one entry per routed handler.
proof fn lemma_wiring_push(s: Seq<HandlerDefV>, x: HandlerDefV)
    ensures
        spec_wiring(s.push(x)) == spec_wiring(s).push(spec_route_entry(x)),
{
    assert forall|j: int| 0 <= j < s.len() + 1 implies spec_wiring(s.push(x))[j] == spec_wiring(
        s,
    ).push(spec_route_entry(x))[j] by {
        if j < s.len() {
            assert(s.push(x)[j] == s[j]);
        } else {
            assert(s.push(x)[j] == x);
        }
    }
    assert(spec_wiring(s.push(x)) =~= spec_wiring(s).push(spec_route_entry(x)));
}

/// The metadata listing grows by one record per routed handler.
proof fn lemma_openapi_list_push(s: Seq<HandlerDefV>, x: HandlerDefV, prefix: Seq<char>, ctag: Seq<char>)
    ensures
        spec_openapi_list(s.push(x), prefix, ctag) == spec_openapi_list(s, prefix, ctag).push(
            spec_openapi_entry(x, prefix, ctag),
        ),
{
    assert forall|j: int| 0 <= j < s.len() + 1 implies spec_openapi_list(s.push(x), prefix, ctag)[j]
        == spec_openapi_list(s, prefix, ctag).push(spec_openapi_entry(x, prefix, ctag))[j] by {
        if j < s.len() {
            assert(s.push(x)[j] == s[j]);
        } else {
            assert(s.push(x)[j] == x);
        }
    }
    assert(spec_openapi_list(s.push(x), prefix, ctag) =~= spec_openapi_list(s, prefix, ctag).push(
        spec_openapi_entry(x, prefix, ctag),
    ));
}

/// The stub list grows by one stub per routed handler.
proof fn lemma_stub_list_push(
    s: Seq<HandlerDefV>,
    x: HandlerDefV,
    prefix: Seq<char>,
    ctag: Seq<char>,
    csec: bool,
)
    ensures
        spec_stub_list(s.push(x), prefix, ctag, csec) == spec_stub_list(s, prefix, ctag, csec).push(
            spec_stub(x, prefix, ctag, csec),
        ),
{
    assert forall|j: int| 0 <= j < s.len() + 1 implies spec_stub_list(s.push(x), prefix, ctag, csec)[j]
        == spec_stub_list(s, prefix, ctag, csec).push(spec_stub(x, prefix, ctag, csec))[j] by {
        if j < s.len() {
            assert(s.push(x)[j] == s[j]);
        } else {
            assert(s.push(x)[j] == x);
        }
    }
    assert(spec_stub_list(s.push(x), prefix, ctag, csec) =~= spec_stub_list(
        s,
        prefix,
        ctag,
        csec,
    ).push(spec_stub(x, prefix, ctag, csec)));
}

/// The name roster grows by one name per routed handler.
proof fn lemma_path_names_push(s: Seq<HandlerDefV>, x: HandlerDefV)
    ensures
        spec_path_names(s.push(x)) == spec_path_names(s).push(x.name),
{
    assert forall|j: int| 0 <= j < s.len() + 1 implies spec_path_names(s.push(x))[j]
        == spec_path_names(s).push(x.name)[j] by {
        if j < s.len() {
            assert(s.push(x)[j] == s[j]);
        } else {
            assert(s.push(x)[j] == x);
        }
    }
    assert(spec_path_names(s.push(x)) =~= spec_path_names(s).push(x.name));
}

/// A pushed route entry extends the view by its own view.
proof fn lemma_route_entries_view_push(v1: Seq<RouteEntry>, v2: Seq<RouteEntry>)
    requires
        v2.len() == v1.len() + 1,
        v2 == v1.push(v2.last()),
    ensures
        route_entries_view(v2) == route_entries_view(v1).push(v2.last()@),
{
    assert forall|j: int| 0 <= j < v2.len() implies route_entries_view(v2)[j]
        == route_entries_view(v1).push(v2.last()@)[j] by {
        if j < v1.len() {
            assert(v2[j] == v1[j]);
        } else {
            assert(v2[j] == v2.last());
        }
    }
    assert(route_entries_view(v2) =~= route_entries_view(v1).push(v2.last()@));
}

/// A pushed metadata record extends the view by its own view.
proof fn lemma_openapi_entries_view_push(v1: Seq<OpenApiPathEntry>, v2: Seq<OpenApiPathEntry>)
    requires
        v2.len() == v1.len() + 1,
        v2 == v1.push(v2.last()),
    ensures
        openapi_entries_view(v2) == openapi_entries_view(v1).push(v2.last()@),
{
    assert forall|j: int| 0 <= j < v2.len() implies openapi_entries_view(v2)[j]
        == openapi_entries_view(v1).push(v2.last()@)[j] by {
        if j < v1.len() {
            assert(v2[j] == v1[j]);
        } else {
            assert(v2[j] == v2.last());
        }
    }
    assert(openapi_entries_view(v2) =~= openapi_entries_view(v1).push(v2.last()@));
}

/// A pushed stub extends the view by its own view.
proof fn lemma_stubs_view_push(v1: Seq<StubDoc>, v2: Seq<StubDoc>)
    requires
        v2.len() == v1.len() + 1,
        v2 == v1.push(v2.last()),
    ensures
        stubs_view(v2) == stubs_view(v1).push(v2.last()@),
{
    assert forall|j: int| 0 <= j < v2.len() implies stubs_view(v2)[j] == stubs_view(v1).push(
        v2.last()@,
    )[j] by {
        if j < v1.len() {
            assert(v2[j] == v1[j]);
        } else {
            assert(v2[j] == v2.last());
        }
    }
    assert(stubs_view(v2) =~= stubs_view(v1).push(v2.last()@));
}

/// A pushed name extends the view by its own view.
proof fn lemma_strs_view_push(v1: Seq<String>, v2: Seq<String>)
    requires
        v2.len() == v1.len() + 1,
        v2 == v1.push(v2.last()),
    ensures
        strs_view(v2) == strs_view(v1).push(v2.last()@),
{
    assert forall|j: int| 0 <= j < v2.len() implies strs_view(v2)[j] == strs_view(v1).push(
        v2.last()@,
    )[j] by {
        if j < v1.len() {
            assert(v2[j] == v1[j]);
        } else {
            assert(v2[j] == v2.last());
        }
    }
    assert(strs_view(v2) =~= strs_view(v1).push(v2.last()@));
}

/// The middleware stack: the declared middleware, if any.
pub open spec fn spec_middleware(m: Option<Seq<char>>) -> Seq<Seq<char>> {
    match m {
        Some(x) => seq![x],
        None => Seq::empty(),
    }
}

/// The whole controller expansion, as one value.
pub open spec fn spec_controller_expand(
    args: ControllerArgsV,
    owner: Seq<char>,
    handlers: Seq<HandlerDefV>,
) -> ControllerOutputV {
    let items = spec_transform_all(handlers);
    let routed = spec_routed(items);
    let prefix = spec_full_prefix(args);
    let ctag = spec_controller_tag(args.tag, owner);
    ControllerOutputV {
        prefix: prefix,
        tag: ctag,
        items: items,
        routes: spec_wiring(routed),
        middleware: spec_middleware(args.middleware),
        openapi_routes: spec_openapi_list(routed, prefix, ctag),
        stubs: spec_stub_list(routed, prefix, ctag, args.security),
        path_names: spec_path_names(routed),
        path_count: routed.len(),
        schemas: args.schemas,
        state: args.state,
    }
}

/// The expansion is a function of its input alone: identical controllers
/// expand to identical outputs, run after run.
pub proof fn lemma_expand_deterministic(
    a1: ControllerArgsV,
    o1: Seq<char>,
    h1: Seq<HandlerDefV>,
    a2: ControllerArgsV,
    o2: Seq<char>,
    h2: Seq<HandlerDefV>,
)
    requires
        a1 == a2,
        o1 == o2,
        h1 == h2,
    ensures
        spec_controller_expand(a1, o1, h1) == spec_controller_expand(a2, o2, h2),
{
}

/// A declared string cloned, or empty when absent.
fn clone_or_empty(o: &Option<String>) -> (r: String)
    ensures
        r@ == spec_or_empty(opt_str_view(*o)),
{
    match o {
        Some(s) => s.clone(),
        None => String::new(),
    }
}

/// Runs the controller pipeline: transforms the handlers and assembles
/// every output artifact, in declaration order throughout.
pub fn controller_expand(args: ControllerArgs, owner_name: String, handlers: Vec<HandlerDef>) -> (r:
    ControllerOutput)
    ensures
        r@ == spec_controller_expand(args@, owner_name@, handlers_view(handlers@)),
{
    let ghost hv = handlers_view(handlers@);
    let ghost av = args@;

    // Link-wrapping transform, splicing each handler's variants in order.
    let mut items: Vec<HandlerDef> = Vec::new();
    let mut rest = handlers;
    let ghost mut i: int = 0;
    proof {
        assert(handlers_view(rest@) =~= hv.skip(0));
        assert(handlers_view(items@) =~= spec_transform_prefix(hv, 0));
    }
    while rest.len() > 0
        invariant
            0 <= i,
            i + rest@.len() == hv.len(),
            handlers_view(rest@) == hv.skip(i),
            handlers_view(items@) == spec_transform_prefix(hv, i),
        decreases rest@.len(),
    {
        let ghost pre = rest@;
        let h = rest.remove(0);
        proof {
            assert(h@ == handlers_view(pre)[0]);
            assert(h@ == hv[i]);
            assert forall|j: int| 0 <= j < rest@.len() implies handlers_view(rest@)[j] == hv.skip(
                i + 1,
            )[j] by {
                assert(rest@[j] == pre[j + 1]);
                assert(handlers_view(pre)[j + 1] == hv.skip(i)[j + 1]);
            }
            assert(handlers_view(rest@) =~= hv.skip(i + 1));
        }
        let ghost items_pre = items@;
        let mut piece = transform_handler(h);
        proof {
            let ghost a = handlers_view(items@);
            let ghost b = handlers_view(piece@);
            assert forall|j: int| 0 <= j < items@.len() + piece@.len() implies handlers_view(
                items@ + piece@,
            )[j] == (a + b)[j] by {
                if j < items@.len() {
                    assert((items@ + piece@)[j] == items@[j]);
                } else {
                    assert((items@ + piece@)[j] == piece@[j - items@.len()]);
                }
            }
            assert(handlers_view(items@ + piece@) =~= a + b);
        }
        items.append(&mut piece);
        proof {
            i = i + 1;
        }
    }
    proof {
        assert(hv.skip(hv.len() as int).len() == 0);
        lemma_transform_prefix_all(hv);
        assert(handlers_view(items@) == spec_transform_all(hv));
    }
    let ghost itemsv = handlers_view(items@);

    let prefix = full_prefix(&args);
    let tag = controller_tag(&args.tag, owner_name.as_str());
    let ghost prefixv = prefix@;
    let ghost ctagv = tag@;
    let controller_security = args.security;

    // Route collection: one wiring entry, metadata record, stub and name per
    // routed handler, in declaration order.
    let mut routes: Vec<RouteEntry> = Vec::new();
    let mut openapi_routes: Vec<OpenApiPathEntry> = Vec::new();
    let mut stubs: Vec<StubDoc> = Vec::new();
    let mut path_names: Vec<String> = Vec::new();
    let mut k: usize = 0;
    let n = items.len();
    proof {
        assert(route_entries_view(routes@) =~= spec_wiring(spec_routed_prefix(itemsv, 0)));
        assert(openapi_entries_view(openapi_routes@) =~= spec_openapi_list(
            spec_routed_prefix(itemsv, 0),
            prefixv,
            ctagv,
        ));
        assert(stubs_view(stubs@) =~= spec_stub_list(
            spec_routed_prefix(itemsv, 0),
            prefixv,
            ctagv,
            av.security,
        ));
        assert(strs_view(path_names@) =~= spec_path_names(spec_routed_prefix(itemsv, 0)));
    }
    while k < n
        invariant
            n == items@.len(),
            0 <= k <= n,
            itemsv == handlers_view(items@),
            prefixv == prefix@,
            ctagv == tag@,
            controller_security == av.security,
            route_entries_view(routes@) == spec_wiring(spec_routed_prefix(itemsv, k as int)),
            openapi_entries_view(openapi_routes@) == spec_openapi_list(
                spec_routed_prefix(itemsv, k as int),
                prefixv,
                ctagv,
            ),
            stubs_view(stubs@) == spec_stub_list(
                spec_routed_prefix(itemsv, k as int),
                prefixv,
                ctagv,
                av.security,
            ),
            strs_view(path_names@) == spec_path_names(spec_routed_prefix(itemsv, k as int)),
        decreases n - k,
    {
        let ghost routedk = spec_routed_prefix(itemsv, k as int);
        match &items[k].route {
            Some(r) => {
                proof {
                    assert(itemsv[k as int] == items@[k as int]@);
                    assert(itemsv[k as int].route is Some);
                    assert(spec_routed_prefix(itemsv, k as int + 1) =~= routedk.push(
                        itemsv[k as int],
                    ));
                }
                let ghost routes_pre = routes@;
                let entry = RouteEntry {
                    method: r.method,
                    path: r.path.clone(),
                    handler: items[k].name.clone(),
                };
                proof {
                    assert(entry@ =~= spec_route_entry(itemsv[k as int]));
                }
                routes.push(entry);
                proof {
                    lemma_route_entries_view_push(routes_pre, routes@);
                    lemma_wiring_push(routedk, itemsv[k as int]);
                }
                let ghost openapi_pre = openapi_routes@;
                let meta = OpenApiPathEntry {
                    path: concat2(prefix.as_str(), r.path.as_str()),
                    method: String::from_str(r.method.upper_name()),
                    summary: clone_or_empty(&r.summary),
                    description: clone_or_empty(&r.description),
                    tag: tag.clone(),
                };
                proof {
                    assert(meta@ =~= spec_openapi_entry(itemsv[k as int], prefixv, ctagv));
                }
                openapi_routes.push(meta);
                proof {
                    lemma_openapi_entries_view_push(openapi_pre, openapi_routes@);
                    lemma_openapi_list_push(routedk, itemsv[k as int], prefixv, ctagv);
                }
                let inferred_for_op = infer_success(items[k].name.as_str(), &items[k].output);
                let op = build_operation_doc(
                    r,
                    prefix.as_str(),
                    &tag,
                    controller_security,
                    inferred_for_op,
                );
                let inferred = infer_success(items[k].name.as_str(), &items[k].output);
                let ghost stubs_pre = stubs@;
                let stub = StubDoc { name: items[k].name.clone(), op, inferred };
                proof {
                    assert(stub@ =~= spec_stub(itemsv[k as int], prefixv, ctagv, av.security));
                }
                stubs.push(stub);
                proof {
                    lemma_stubs_view_push(stubs_pre, stubs@);
                    lemma_stub_list_push(routedk, itemsv[k as int], prefixv, ctagv, av.security);
                }
                let ghost names_pre = path_names@;
                path_names.push(items[k].name.clone());
                proof {
                    lemma_strs_view_push(names_pre, path_names@);
                    lemma_path_names_push(routedk, itemsv[k as int]);
                }
                proof {
                    assert(route_entries_view(routes@) =~= spec_wiring(
                        spec_routed_prefix(itemsv, k as int + 1),
                    ));
                    assert(openapi_entries_view(openapi_routes@) =~= spec_openapi_list(
                        spec_routed_prefix(itemsv, k as int + 1),
                        prefixv,
                        ctagv,
                    ));
                    assert(stubs_view(stubs@) =~= spec_stub_list(
                        spec_routed_prefix(itemsv, k as int + 1),
                        prefixv,
                        ctagv,
                        av.security,
                    ));
                    assert(strs_view(path_names@) =~= spec_path_names(
                        spec_routed_prefix(itemsv, k as int + 1),
                    ));
                }
            },
            None => {
                proof {
                    assert(itemsv[k as int] == items@[k as int]@);
                    assert(!(itemsv[k as int].route is Some));
                    assert(spec_routed_prefix(itemsv, k as int + 1) =~= routedk);
                }
            },
        }
        k = k + 1;
    }
    proof {
        lemma_routed_prefix_all(itemsv);
    }
    let path_count = path_names.len();

    let middleware: Vec<String> = match &args.middleware {
        Some(m) => {
            let mut v: Vec<String> = Vec::new();
            v.push(m.clone());
            proof {
                assert(strs_view(v@) =~= spec_middleware(av.middleware));
            }
            v
        },
        None => {
            let v: Vec<String> = Vec::new();
            proof {
                assert(strs_view(v@) =~= spec_middleware(av.middleware));
            }
            v
        },
    };
    let schemas = clone_strs(&args.schemas);
    let state = args.state;

    let r = ControllerOutput {
        prefix,
        tag,
        items,
        routes,
        middleware,
        openapi_routes,
        stubs,
        path_names,
        path_count,
        schemas,
        state,
    };
    proof {
        assert(strs_view(path_names@).len() == spec_routed(itemsv).len());
        assert(r@ =~= spec_controller_expand(av, owner_name@, hv));
    }
    r
}

/// Operations to register: the stubs' operations, in order.
pub open spec fn spec_stub_ops(stubs: Seq<StubDocV>) -> Seq<OperationDocV> {
    stubs.map_values(|st: StubDocV| st.op)
}

/// One controller's operations folded into a documentation model, first to
/// last.
pub open spec fn spec_register_ops(
    s: Seq<(Seq<char>, PathItemDocV)>,
    ops: Seq<OperationDocV>,
) -> Seq<(Seq<char>, PathItemDocV)>
    decreases ops.len(),
{
    if ops.len() == 0 {
        s
    } else {
        spec_register_path_entry(
            spec_register_ops(s, ops.drop_last()),
            ops.last().full_path,
            ops.last().method,
            ops.last(),
        )
    }
}

/// Merges every stub operation of a controller into the shared
/// documentation model, in declaration order.
pub fn register_paths(model: &mut DocModel, stubs: Vec<StubDoc>)
    ensures
        paths_view(final(model).paths@) == spec_register_ops(
            paths_view(old(model).paths@),
            spec_stub_ops(stubs_view(stubs@)),
        ),
        crate::registry::schemas_view(final(model).schemas@) == crate::registry::schemas_view(
            old(model).schemas@,
        ),
{
    let ghost s0 = paths_view(model.paths@);
    let ghost ops = spec_stub_ops(stubs_view(stubs@));
    let mut rest = stubs;
    let ghost mut i: int = 0;
    proof {
        assert(spec_register_ops(s0, ops.take(0)) == s0);
        assert(spec_stub_ops(stubs_view(rest@)) =~= ops.skip(0));
    }
    while rest.len() > 0
        invariant
            0 <= i,
            i + rest@.len() == ops.len(),
            spec_stub_ops(stubs_view(rest@)) == ops.skip(i),
            paths_view(model.paths@) == spec_register_ops(s0, ops.take(i)),
            crate::registry::schemas_view(model.schemas@) == crate::registry::schemas_view(
                old(model).schemas@,
            ),
        decreases rest@.len(),
    {
        let ghost pre = rest@;
        let st = rest.remove(0);
        proof {
            assert(st@ == stubs_view(pre)[0]);
            assert(st@.op == ops.skip(i)[0]);
            assert(st@.op == ops[i]);
            assert forall|j: int| 0 <= j < rest@.len() implies spec_stub_ops(stubs_view(rest@))[j]
                == ops.skip(i + 1)[j] by {
                assert(rest@[j] == pre[j + 1]);
                assert(spec_stub_ops(stubs_view(pre))[j + 1] == ops.skip(i)[j + 1]);
            }
            assert(spec_stub_ops(stubs_view(rest@)) =~= ops.skip(i + 1));
        }
        let path = st.op.full_path.clone();
        model.register_operation(path, st.op);
        proof {
            assert(ops.take(i + 1).drop_last() =~= ops.take(i));
            assert(ops.take(i + 1).last() == ops[i]);
            i = i + 1;
        }
    }
    proof {
        assert(ops.take(ops.len() as int) =~= ops);
    }
}


/// Schema entries folded into a documentation model, first to last, each
/// overwriting any earlier entry of the same name.
pub open spec fn spec_register_schemas(
    s: Seq<(Seq<char>, Seq<char>)>,
    entries: Seq<(Seq<char>, Seq<char>)>,
) -> Seq<(Seq<char>, Seq<char>)>
    decreases entries.len(),
{
    if entries.len() == 0 {
        s
    } else {
        crate::registry::spec_register_schema_entry(
            spec_register_schemas(s, entries.drop_last()),
            entries.last().0,
            entries.last().1,
        )
    }
}

/// Registers every named schema definition into the shared documentation
/// model, in declaration order, an existing name being overwritten.
pub fn register_schemas(model: &mut DocModel, entries: Vec<(String, String)>)
    ensures
        crate::registry::schemas_view(final(model).schemas@) == spec_register_schemas(
            crate::registry::schemas_view(old(model).schemas@),
            crate::parse::pairs_view(entries@),
        ),
        paths_view(final(model).paths@) == paths_view(old(model).paths@),
{
    let ghost s0 = crate::registry::schemas_view(model.schemas@);
    let ghost ev = crate::parse::pairs_view(entries@);
    let mut rest = entries;
    let ghost mut i: int = 0;
    proof {
        assert(spec_register_schemas(s0, ev.take(0)) == s0);
        assert(crate::parse::pairs_view(rest@) =~= ev.skip(0));
    }
    while rest.len() > 0
        invariant
            0 <= i,
            i + rest@.len() == ev.len(),
            crate::parse::pairs_view(rest@) == ev.skip(i),
            crate::registry::schemas_view(model.schemas@) == spec_register_schemas(
                s0,
                ev.take(i),
            ),
            paths_view(model.paths@) == paths_view(old(model).paths@),
        decreases rest@.len(),
    {
        let ghost pre = rest@;
        let e = rest.remove(0);
        proof {
            assert((e.0@, e.1@) == crate::parse::pairs_view(pre)[0]);
            assert((e.0@, e.1@) == ev[i]);
            assert forall|j: int| 0 <= j < rest@.len() implies crate::parse::pairs_view(rest@)[j]
                == ev.skip(i + 1)[j] by {
                assert(rest@[j] == pre[j + 1]);
                assert(crate::parse::pairs_view(pre)[j + 1] == ev.skip(i)[j + 1]);
            }
            assert(crate::parse::pairs_view(rest@) =~= ev.skip(i + 1));
        }
        model.register_schema(e.0, e.1);
        proof {
            assert(ev.take(i + 1).drop_last() =~= ev.take(i));
            assert(ev.take(i + 1).last() == ev[i]);
            i = i + 1;
        }
    }
    proof {
        assert(ev.take(ev.len() as int) =~= ev);
    }
}


impl ControllerOutput {
    /// The composed full prefix.
    pub fn prefix(&self) -> (r: &String)
        ensures
            r@ == self@.prefix,
    {
        &self.prefix
    }

    /// The resolved controller tag.
    pub fn tag(&self) -> (r: &String)
        ensures
            r@ == self@.tag,
    {
        &self.tag
    }

    /// The route metadata for external consumption, in declaration order.
    pub fn list_routes(&self) -> (r: &Vec<OpenApiPathEntry>)
        ensures
            openapi_entries_view(r@) == self@.openapi_routes,
    {
        &self.openapi_routes
    }
}

} // verus!
