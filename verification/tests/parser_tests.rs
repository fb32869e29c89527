use axum_controller_model::attr::{AttrTok, Delim};
use axum_controller_model::openapi::{openapi_for_impl, OpenApiForArgs};
use axum_controller_model::parse::{HttpMethod, RouteInfo};
use axum_controller_model::route::route_impl;
use axum_controller_model::shape::{PatTree, TypeTree};
use axum_controller_model::transform::{HandlerBody, HandlerDef, Param};

fn ident(s: &str) -> AttrTok {
    AttrTok::Ident(s.to_string())
}

fn lit(s: &str) -> AttrTok {
    AttrTok::StrLit(s.to_string())
}

fn paren(toks: Vec<AttrTok>) -> AttrTok {
    AttrTok::Group(Delim::Paren, toks)
}

fn bracket(toks: Vec<AttrTok>) -> AttrTok {
    AttrTok::Group(Delim::Bracket, toks)
}

fn ty(name: &str, args: Vec<TypeTree>) -> TypeTree {
    TypeTree { name: name.to_string(), args }
}

#[test]
fn parses_method_and_path() {
    let r = RouteInfo::parse(vec![ident("GET"), lit("/widgets")]).unwrap();
    assert_eq!(r.method, HttpMethod::Get);
    assert_eq!(r.path, "/widgets");
    assert!(r.summary.is_none());
    assert!(!r.deprecated);
    assert!(r.links.is_empty());
}

#[test]
fn method_word_is_case_insensitive() {
    let r = RouteInfo::parse(vec![ident("delete"), lit("/x")]).unwrap();
    assert_eq!(r.method, HttpMethod::Delete);
    assert_eq!(HttpMethod::from_ident("Options"), Some(HttpMethod::Options));
    assert_eq!(HttpMethod::from_ident("FETCH"), None);
}

#[test]
fn rejects_bad_method_token() {
    assert!(RouteInfo::parse(vec![ident("GETS"), lit("/x")]).is_err());
}

#[test]
fn rejects_missing_path_literal() {
    assert!(RouteInfo::parse(vec![ident("GET")]).is_err());
    assert!(RouteInfo::parse(vec![ident("GET"), ident("path")]).is_err());
    assert!(RouteInfo::parse(vec![]).is_err());
}

#[test]
fn parses_string_directives_and_flags() {
    let r = RouteInfo::parse(vec![
        ident("POST"),
        lit("/w"),
        AttrTok::Comma,
        ident("summary"),
        AttrTok::Eq,
        lit("Create a widget"),
        AttrTok::Comma,
        ident("description"),
        AttrTok::Eq,
        lit("Long text"),
        AttrTok::Comma,
        ident("deprecated"),
        AttrTok::Comma,
        ident("security"),
        AttrTok::Comma,
        ident("tag"),
        AttrTok::Eq,
        lit("Widgets"),
    ])
    .unwrap();
    assert_eq!(r.summary.as_deref(), Some("Create a widget"));
    assert_eq!(r.description.as_deref(), Some("Long text"));
    assert!(r.deprecated);
    assert!(r.security);
    assert!(!r.collection);
    assert_eq!(r.tag.as_deref(), Some("Widgets"));
}

#[test]
fn parses_tags_list_with_trailing_comma() {
    let r = RouteInfo::parse(vec![
        ident("GET"),
        lit("/w"),
        AttrTok::Comma,
        ident("tags"),
        AttrTok::Eq,
        bracket(vec![lit("A"), AttrTok::Comma, lit("B"), AttrTok::Comma]),
    ])
    .unwrap();
    assert_eq!(r.tags, Some(vec!["A".to_string(), "B".to_string()]));
}

#[test]
fn parses_links_tuples() {
    let r = RouteInfo::parse(vec![
        ident("GET"),
        lit("/w/:id"),
        AttrTok::Comma,
        ident("links"),
        paren(vec![
            paren(vec![
                ident("rel"),
                AttrTok::Eq,
                lit("self"),
                AttrTok::Comma,
                ident("href"),
                AttrTok::Eq,
                lit("/w/:id"),
            ]),
            AttrTok::Comma,
            paren(vec![
                ident("rel"),
                AttrTok::Eq,
                lit("edit"),
                AttrTok::Comma,
                ident("href"),
                AttrTok::Eq,
                lit("/w/:id"),
                AttrTok::Comma,
                ident("method"),
                AttrTok::Eq,
                lit("PUT"),
            ]),
        ]),
    ])
    .unwrap();
    assert_eq!(r.links.len(), 2);
    assert_eq!(r.links[0].rel, "self");
    assert_eq!(r.links[0].href, "/w/:id");
    assert_eq!(r.links[0].method, None);
    assert_eq!(r.links[1].rel, "edit");
    assert_eq!(r.links[1].method.as_deref(), Some("PUT"));
}

#[test]
fn captures_responses_fragment_verbatim() {
    let r = RouteInfo::parse(vec![
        ident("GET"),
        lit("/w"),
        AttrTok::Comma,
        ident("responses"),
        paren(vec![
            paren(vec![
                ident("status"),
                AttrTok::Eq,
                AttrTok::Other("200".to_string()),
            ]),
            AttrTok::Comma,
        ]),
    ])
    .unwrap();
    assert_eq!(r.responses.as_deref(), Some("(status = 200) ,"));
}

#[test]
fn unknown_directives_are_preserved_generically() {
    let r = RouteInfo::parse(vec![
        ident("GET"),
        lit("/w"),
        AttrTok::Comma,
        ident("flagword"),
        AttrTok::Comma,
        ident("params"),
        paren(vec![ident("x"), AttrTok::Eq, AttrTok::Other("1".to_string())]),
        AttrTok::Comma,
        ident("custom"),
        AttrTok::Eq,
        ident("some_value"),
    ])
    .unwrap();
    assert_eq!(r.other_attrs.len(), 3);
    assert_eq!(r.other_attrs[0], ("flagword".to_string(), "".to_string()));
    assert_eq!(r.other_attrs[1], ("params".to_string(), "(x = 1)".to_string()));
    assert_eq!(r.other_attrs[2], ("custom".to_string(), "some_value".to_string()));
}

#[test]
fn trailing_comma_is_allowed_but_doubled_comma_is_not() {
    assert!(RouteInfo::parse(vec![
        ident("GET"),
        lit("/w"),
        AttrTok::Comma,
        ident("deprecated"),
        AttrTok::Comma,
    ])
    .is_ok());
    assert!(RouteInfo::parse(vec![
        ident("GET"),
        lit("/w"),
        AttrTok::Comma,
        AttrTok::Comma,
        ident("deprecated"),
    ])
    .is_err());
    assert!(RouteInfo::parse(vec![
        ident("GET"),
        lit("/w"),
        AttrTok::Comma,
        ident("summary"),
        AttrTok::Eq,
    ])
    .is_err());
}

#[test]
fn route_expansion_scans_signature() {
    let route = RouteInfo::parse(vec![ident("POST"), lit("/w")]).unwrap();
    let func = HandlerDef {
        name: "create".to_string(),
        params: vec![
            Param {
                pat: PatTree::TupleStruct(vec![PatTree::Ident("user".to_string())]),
                ty: ty("Extension", vec![ty("UserId", vec![])]),
            },
            Param {
                pat: PatTree::TupleStruct(vec![PatTree::Ident("req".to_string())]),
                ty: ty("Json", vec![ty("CreateWidget", vec![])]),
            },
        ],
        output: Some(ty("Result", vec![ty("Json", vec![ty("Widget", vec![])])])),
        route: None,
        body: HandlerBody::Opaque("{}".to_string()),
        doc_hidden: false,
        allow_non_snake: false,
    };
    let exp = route_impl(&route, &func);
    assert_eq!(exp.const_name, "__ROUTE_INFO_CREATE");
    assert_eq!(exp.method_name, "post");
    assert_eq!(exp.path, "/w");
    assert_eq!(exp.attr.request_body.as_deref(), Some("CreateWidget"));
    assert_eq!(exp.attr.response_type.as_deref(), Some("Widget"));
    assert!(exp.attr.security);
}

#[test]
fn route_expansion_without_extractors() {
    let route = RouteInfo::parse(vec![ident("GET"), lit("/ping")]).unwrap();
    let func = HandlerDef {
        name: "ping".to_string(),
        params: vec![],
        output: Some(ty("StatusCode", vec![])),
        route: None,
        body: HandlerBody::Opaque("{}".to_string()),
        doc_hidden: false,
        allow_non_snake: false,
    };
    let exp = route_impl(&route, &func);
    assert!(exp.attr.request_body.is_none());
    assert!(exp.attr.response_type.is_none());
    assert!(!exp.attr.security);
}

#[test]
fn openapi_args_full_request() {
    let toks = vec![
        ident("controllers"),
        AttrTok::Eq,
        bracket(vec![
            ident("timer"),
            AttrTok::Other("::".to_string()),
            ident("TimerController"),
            AttrTok::Comma,
            ident("ProjectController"),
        ]),
        AttrTok::Comma,
        ident("schemas"),
        AttrTok::Eq,
        bracket(vec![ident("Widget")]),
        AttrTok::Comma,
        ident("tags"),
        AttrTok::Eq,
        bracket(vec![paren(vec![
            ident("name"),
            AttrTok::Eq,
            lit("Timer"),
            AttrTok::Comma,
            ident("description"),
            AttrTok::Eq,
            lit("Timer management"),
        ])]),
        AttrTok::Comma,
        ident("info"),
        AttrTok::Eq,
        paren(vec![
            ident("title"),
            AttrTok::Eq,
            lit("My API"),
            AttrTok::Comma,
            ident("version"),
            AttrTok::Eq,
            lit("1.0.0"),
            AttrTok::Comma,
        ]),
    ];
    let args = OpenApiForArgs::parse(&toks).unwrap();
    assert_eq!(
        args.controllers,
        vec!["timer :: TimerController".to_string(), "ProjectController".to_string()]
    );
    assert_eq!(args.schemas, vec!["Widget".to_string()]);
    assert_eq!(args.tags.len(), 1);
    assert_eq!(args.tags[0].name, "Timer");
    assert_eq!(args.tags[0].description, "Timer management");
    let info = args.info.as_ref().unwrap();
    assert_eq!(info.title, "My API");
    assert_eq!(info.version, "1.0.0");
    assert!(info.description.is_none());
    let plan = openapi_for_impl(args);
    assert!(plan.has_paths_section);
    assert!(plan.has_schemas_section);
    assert!(plan.has_tags_section);
    assert!(!plan.info_has_description);
}

#[test]
fn openapi_args_reject_unknown_key() {
    let toks = vec![ident("bogus"), AttrTok::Eq, bracket(vec![])];
    assert!(OpenApiForArgs::parse(&toks).is_err());
}

#[test]
fn openapi_plan_of_empty_request() {
    let args = OpenApiForArgs::parse(&Vec::new()).unwrap();
    let plan = openapi_for_impl(args);
    assert!(!plan.has_paths_section);
    assert!(!plan.has_schemas_section);
    assert!(!plan.has_tags_section);
    assert!(plan.info.is_none());
}

#[test]
fn openapi_info_description_shown_only_when_nonempty() {
    let toks = vec![
        ident("info"),
        AttrTok::Eq,
        paren(vec![
            ident("title"),
            AttrTok::Eq,
            lit("T"),
            AttrTok::Comma,
            ident("version"),
            AttrTok::Eq,
            lit("1"),
            AttrTok::Comma,
            ident("description"),
            AttrTok::Eq,
            lit("Docs"),
        ]),
    ];
    let plan = openapi_for_impl(OpenApiForArgs::parse(&toks).unwrap());
    assert!(plan.info_has_description);
    let toks2 = vec![
        ident("info"),
        AttrTok::Eq,
        paren(vec![
            ident("description"),
            AttrTok::Eq,
            lit(""),
        ]),
    ];
    let plan2 = openapi_for_impl(OpenApiForArgs::parse(&toks2).unwrap());
    assert!(!plan2.info_has_description);
}

#[test]
fn to_axum_method_names() {
    assert_eq!(HttpMethod::Get.to_axum_method(), "get");
    assert_eq!(HttpMethod::Post.to_axum_method(), "post");
    assert_eq!(HttpMethod::Put.to_axum_method(), "put");
    assert_eq!(HttpMethod::Patch.to_axum_method(), "patch");
    assert_eq!(HttpMethod::Delete.to_axum_method(), "delete");
    assert_eq!(HttpMethod::Head.to_axum_method(), "head");
    assert_eq!(HttpMethod::Options.to_axum_method(), "options");
    assert_eq!(HttpMethod::Trace.to_axum_method(), "trace");
}
