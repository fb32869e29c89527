use axum_controller_model::controller::{controller_expand, register_paths, register_schemas};
use axum_controller_model::docs::SuccessDoc;
use axum_controller_model::parse::{ControllerArgs, HttpMethod, LinkInfo, RouteInfo};
use axum_controller_model::registry::DocModel;
use axum_controller_model::shape::{PatTree, TypeTree};
use axum_controller_model::transform::{HandlerBody, HandlerDef, Param};

fn ty(name: &str, args: Vec<TypeTree>) -> TypeTree {
    TypeTree { name: name.to_string(), args }
}

fn plain_route(method: HttpMethod, path: &str) -> RouteInfo {
    RouteInfo {
        method,
        path: path.to_string(),
        summary: None,
        description: None,
        deprecated: false,
        security: false,
        collection: false,
        hateoas: false,
        tag: None,
        tags: None,
        other_attrs: Vec::new(),
        links: Vec::new(),
        responses: None,
    }
}

fn handler(name: &str, route: Option<RouteInfo>, output: Option<TypeTree>) -> HandlerDef {
    HandlerDef {
        name: name.to_string(),
        params: vec![Param {
            pat: PatTree::TupleStruct(vec![PatTree::Ident("state".to_string())]),
            ty: ty("State", vec![ty("AppState", vec![])]),
        }],
        output,
        route,
        body: HandlerBody::Opaque("{ body }".to_string()),
        doc_hidden: false,
        allow_non_snake: false,
    }
}

fn args(version: Option<&str>, prefix: Option<&str>, path: Option<&str>) -> ControllerArgs {
    ControllerArgs {
        version: version.map(|s| s.to_string()),
        prefix: prefix.map(|s| s.to_string()),
        path: path.map(|s| s.to_string()),
        state: "AppState".to_string(),
        tag: None,
        middleware: None,
        security: false,
        schemas: Vec::new(),
    }
}

#[test]
fn prefix_composition_version_and_path() {
    let out = controller_expand(
        args(Some("v2"), None, Some("/items")),
        "ItemsController".to_string(),
        vec![handler("list", Some(plain_route(HttpMethod::Get, "/")), None)],
    );
    assert_eq!(out.prefix, "/v2/items");
    assert_eq!(out.prefix().as_str(), "/v2/items");
    assert_eq!(out.openapi_routes[0].path, "/v2/items/");
    assert_eq!(out.list_routes().len(), 1);
}

#[test]
fn prefix_composition_legacy_prefix() {
    let out = controller_expand(
        args(None, Some("/old"), None),
        "OldController".to_string(),
        vec![],
    );
    assert_eq!(out.prefix, "/old");
}

#[test]
fn prefix_prefers_path_over_legacy() {
    let out = controller_expand(
        args(None, Some("/old"), Some("/new")),
        "C".to_string(),
        vec![],
    );
    assert_eq!(out.prefix, "/new");
}

#[test]
fn controller_tag_strips_suffix() {
    let out = controller_expand(args(None, None, None), "ProjectsController".to_string(), vec![]);
    assert_eq!(out.tag, "Projects");
    assert_eq!(out.tag().as_str(), "Projects");
}

#[test]
fn controller_tag_fallback_literal() {
    let out = controller_expand(args(None, None, None), "".to_string(), vec![]);
    assert_eq!(out.tag, "API");
}

#[test]
fn controller_tag_explicit_wins() {
    let mut a = args(None, None, None);
    a.tag = Some("Custom".to_string());
    let out = controller_expand(a, "ProjectsController".to_string(), vec![]);
    assert_eq!(out.tag, "Custom");
}

#[test]
fn empty_links_pass_through() {
    let h = handler(
        "list",
        Some(plain_route(HttpMethod::Get, "/")),
        Some(ty("Result", vec![ty("Json", vec![ty("Widget", vec![])])])),
    );
    let out = controller_expand(args(None, None, Some("/w")), "W".to_string(), vec![h]);
    assert_eq!(out.items.len(), 1);
    assert_eq!(out.items[0].name, "list");
    assert!(!out.items[0].doc_hidden);
    assert!(matches!(out.items[0].body, HandlerBody::Opaque(_)));
    assert_eq!(out.routes.len(), 1);
    assert_eq!(out.routes[0].handler, "list");
}

#[test]
fn link_bearing_handler_splits_in_two() {
    let mut r = plain_route(HttpMethod::Get, "/:id");
    r.links = vec![
        LinkInfo { rel: "self".to_string(), href: "/w/:id".to_string(), method: None },
        LinkInfo { rel: "edit".to_string(), href: "/w/:id".to_string(), method: Some("PUT".to_string()) },
    ];
    let h = handler(
        "get_widget",
        Some(r),
        Some(ty("Result", vec![ty("Json", vec![ty("Widget", vec![])])])),
    );
    let out = controller_expand(args(None, None, Some("/w")), "W".to_string(), vec![h]);
    assert_eq!(out.items.len(), 2);
    let impl_variant = &out.items[0];
    assert_eq!(impl_variant.name, "__impl_get_widget");
    assert!(impl_variant.route.is_none());
    assert!(impl_variant.doc_hidden);
    assert!(impl_variant.allow_non_snake);
    let wrapper = &out.items[1];
    assert_eq!(wrapper.name, "get_widget");
    assert!(wrapper.route.is_some());
    let wrapped = wrapper.output.as_ref().unwrap();
    assert_eq!(wrapped.name, "Result");
    assert_eq!(wrapped.args[0].name, "Json");
    assert_eq!(wrapped.args[0].args[0].name, "HateoasResponse");
    assert_eq!(wrapped.args[0].args[0].args[0].name, "Widget");
    match &wrapper.body {
        HandlerBody::ForwardWrap { target, args, links } => {
            assert_eq!(target, "__impl_get_widget");
            assert_eq!(args, &vec!["state".to_string()]);
            assert_eq!(links.len(), 2);
            assert_eq!(links[0].rel, "self");
            assert_eq!(links[1].rel, "edit");
        },
        _ => panic!("wrapper body must forward and wrap"),
    }
    // Only the wrapper is wired and documented.
    assert_eq!(out.routes.len(), 1);
    assert_eq!(out.routes[0].handler, "get_widget");
    assert_eq!(out.path_names, vec!["get_widget".to_string()]);
    assert_eq!(out.path_count, 1);
}

#[test]
fn unrecognized_return_shape_skips_wrapping() {
    let mut r = plain_route(HttpMethod::Get, "/");
    r.links = vec![LinkInfo { rel: "self".to_string(), href: "/".to_string(), method: None }];
    let h = handler("raw", Some(r), Some(ty("StatusCode", vec![])));
    let out = controller_expand(args(None, None, None), "C".to_string(), vec![h]);
    assert_eq!(out.items.len(), 1);
    assert_eq!(out.items[0].name, "raw");
    assert!(matches!(out.items[0].body, HandlerBody::Opaque(_)));
}

#[test]
fn expansion_is_idempotent() {
    let build = || {
        let mut r = plain_route(HttpMethod::Post, "/w");
        r.links = vec![LinkInfo { rel: "self".to_string(), href: "/w".to_string(), method: None }];
        r.summary = Some("Create".to_string());
        let h = handler(
            "create",
            Some(r),
            Some(ty("Result", vec![ty("Json", vec![ty("Widget", vec![])])])),
        );
        controller_expand(
            args(Some("v1"), None, Some("/w")),
            "WidgetsController".to_string(),
            vec![h, handler("helper", None, None)],
        )
    };
    let a = build();
    let b = build();
    assert_eq!(format!("{:?}", a), format!("{:?}", b));
}

#[test]
fn multi_method_merge_keeps_both_operations() {
    let get = handler(
        "list_widgets",
        Some(plain_route(HttpMethod::Get, "/widgets")),
        Some(ty("Result", vec![ty("Json", vec![ty("WidgetList", vec![])])])),
    );
    let post = handler(
        "create_widget",
        Some(plain_route(HttpMethod::Post, "/widgets")),
        Some(ty("Result", vec![ty("Json", vec![ty("Widget", vec![])])])),
    );
    let out1 = controller_expand(args(None, None, None), "A".to_string(), vec![get]);
    let out2 = controller_expand(args(None, None, None), "B".to_string(), vec![post]);
    let mut model = DocModel::new();
    register_paths(&mut model, out1.stubs);
    register_paths(&mut model, out2.stubs);
    let g = model.get_operation("/widgets", HttpMethod::Get).unwrap();
    assert_eq!(g.tags, vec!["A".to_string()]);
    let p = model.get_operation("/widgets", HttpMethod::Post).unwrap();
    assert_eq!(p.tags, vec!["B".to_string()]);
    assert!(model.get_operation("/widgets", HttpMethod::Put).is_none());
}

#[test]
fn schema_registration_last_write_wins() {
    let mut model = DocModel::new();
    register_schemas(
        &mut model,
        vec![("Widget".to_string(), "first definition".to_string())],
    );
    register_schemas(
        &mut model,
        vec![("Widget".to_string(), "second definition".to_string()),
             ("Other".to_string(), "other".to_string())],
    );
    assert_eq!(model.get_schema("Widget").unwrap(), "second definition");
    assert_eq!(model.get_schema("Other").unwrap(), "other");
    assert!(model.get_schema("Missing").is_none());
}

#[test]
fn envelope_schema_synthesized_for_wrapped_payload() {
    let mut r = plain_route(HttpMethod::Get, "/:id");
    r.links = vec![LinkInfo { rel: "self".to_string(), href: "/w/:id".to_string(), method: None }];
    let h = handler(
        "get_widget",
        Some(r),
        Some(ty("Result", vec![ty("Json", vec![ty("Widget", vec![])])])),
    );
    let out = controller_expand(args(None, None, Some("/w")), "W".to_string(), vec![h]);
    let stub = &out.stubs[0];
    match stub.inferred.as_ref().unwrap() {
        SuccessDoc::Envelope { schema_name, data } => {
            assert_eq!(schema_name, "__HateoasSchema_get_widget");
            assert_eq!(data, "Widget");
        },
        _ => panic!("wrapped payload must synthesize an envelope schema"),
    }
}

#[test]
fn middleware_and_wiring_keep_declaration_order() {
    let mut a = args(None, None, Some("/x"));
    a.middleware = Some("auth_layer".to_string());
    let h1 = handler("first", Some(plain_route(HttpMethod::Get, "/a")), None);
    let h2 = handler("second", Some(plain_route(HttpMethod::Delete, "/b")), None);
    let out = controller_expand(a, "X".to_string(), vec![h1, h2]);
    assert_eq!(out.middleware, vec!["auth_layer".to_string()]);
    assert_eq!(out.routes.len(), 2);
    assert_eq!(out.routes[0].handler, "first");
    assert_eq!(out.routes[0].path, "/a");
    assert_eq!(out.routes[1].handler, "second");
    assert_eq!(out.routes[1].path, "/b");
    assert_eq!(out.openapi_routes[1].method, "DELETE");
    assert_eq!(out.state, "AppState");
}

#[test]
fn controller_security_applies_to_all_routes() {
    let mut a = args(None, None, None);
    a.security = true;
    let h = handler("list", Some(plain_route(HttpMethod::Get, "/")), None);
    let out = controller_expand(a, "C".to_string(), vec![h]);
    assert!(out.stubs[0].op.security);
}
