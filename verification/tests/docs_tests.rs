use axum_controller_model::docs::{
    build_operation_doc, controller_tag, description_with_links, infer_success, merge_responses,
    resolved_tags, SuccessDoc,
};
use axum_controller_model::parse::{HttpMethod, LinkInfo, RouteInfo};
use axum_controller_model::shape::{
    collect_pat_idents, extract_hateoas_inner_type, extract_inner_type, render_type, PatTree,
    TypeTree,
};
use axum_controller_model::text::{str_contains, str_eq, to_upper};

fn ty(name: &str, args: Vec<TypeTree>) -> TypeTree {
    TypeTree { name: name.to_string(), args }
}

fn link(rel: &str, href: &str, method: Option<&str>) -> LinkInfo {
    LinkInfo {
        rel: rel.to_string(),
        href: href.to_string(),
        method: method.map(|s| s.to_string()),
    }
}

#[test]
fn bullets_one_per_relation_in_order() {
    let links = vec![
        link("self", "/w/1", None),
        link("edit", "/w/1", Some("PUT")),
        link("delete", "/w/1", Some("DELETE")),
    ];
    let d = description_with_links(&Some("Fetches a widget.".to_string()), &links);
    assert_eq!(
        d,
        "Fetches a widget.\n\n**Available Links:**\n- `self`: `GET /w/1`\n- `edit`: `PUT /w/1`\n- `delete`: `DELETE /w/1`\n"
    );
    assert_eq!(d.matches("- `").count(), links.len());
}

#[test]
fn empty_description_gets_no_separator() {
    let links = vec![link("self", "/x", None)];
    let d = description_with_links(&None, &links);
    assert_eq!(d, "**Available Links:**\n- `self`: `GET /x`\n");
}

#[test]
fn no_links_leaves_description_unchanged() {
    let d = description_with_links(&Some("Plain.".to_string()), &Vec::new());
    assert_eq!(d, "Plain.");
    let e = description_with_links(&None, &Vec::new());
    assert_eq!(e, "");
}

#[test]
fn tag_precedence_route_list_wins() {
    let tags = Some(vec!["A".to_string(), "B".to_string()]);
    let tag = Some("Single".to_string());
    let resolved = resolved_tags(&tags, &tag, &"C".to_string());
    assert_eq!(resolved, vec!["A".to_string(), "B".to_string()]);
}

#[test]
fn tag_precedence_single_over_controller() {
    let resolved = resolved_tags(&None, &Some("Single".to_string()), &"C".to_string());
    assert_eq!(resolved, vec!["Single".to_string()]);
}

#[test]
fn tag_precedence_controller_fallback() {
    let resolved = resolved_tags(&None, &None, &"C".to_string());
    assert_eq!(resolved, vec!["C".to_string()]);
}

#[test]
fn user_fragment_with_success_suppresses_auto_entry() {
    let merged = merge_responses(
        Some("(status = 200, description = \"done\")".to_string()),
        Some(SuccessDoc::Plain("Widget".to_string())),
    );
    assert!(merged.auto_success.is_none());
    assert!(merged.auto_unauthorized);
    assert!(merged.auto_server_error);
}

#[test]
fn absent_fragment_keeps_auto_success_with_inferred_schema() {
    let merged = merge_responses(None, Some(SuccessDoc::Plain("Widget".to_string())));
    match merged.auto_success.unwrap() {
        SuccessDoc::Plain(body) => assert_eq!(body, "Widget"),
        _ => panic!("inferred body must be the bare payload"),
    }
    assert!(merged.auto_unauthorized);
    assert!(merged.auto_server_error);
}

#[test]
fn detection_is_plain_substring_matching() {
    let merged = merge_responses(
        Some("says OK somewhere".to_string()),
        Some(SuccessDoc::Plain("W".to_string())),
    );
    assert!(merged.auto_success.is_none());
    let merged = merge_responses(Some("mentions Unauthorized".to_string()), None);
    assert!(!merged.auto_unauthorized);
    assert!(merged.auto_server_error);
    let merged = merge_responses(Some("Internal server error".to_string()), None);
    assert!(!merged.auto_server_error);
    let merged = merge_responses(Some("(status = 401)".to_string()), None);
    assert!(!merged.auto_unauthorized);
    let merged = merge_responses(Some("(status = 500)".to_string()), None);
    assert!(!merged.auto_server_error);
}

#[test]
fn payload_extraction_recognizes_both_shapes() {
    let wrapped = ty("Result", vec![ty("Json", vec![ty("Widget", vec![])])]);
    assert_eq!(extract_inner_type(&wrapped).unwrap().name, "Widget");
    let bare = ty("Json", vec![ty("Widget", vec![])]);
    assert_eq!(extract_inner_type(&bare).unwrap().name, "Widget");
    let other = ty("StatusCode", vec![]);
    assert!(extract_inner_type(&other).is_none());
    let result_no_json = ty("Result", vec![ty("Widget", vec![])]);
    assert!(extract_inner_type(&result_no_json).is_none());
    let envelope = ty("HateoasResponse", vec![ty("Widget", vec![])]);
    assert_eq!(extract_hateoas_inner_type(&envelope).unwrap().name, "Widget");
    assert!(extract_hateoas_inner_type(&bare).is_none());
}

#[test]
fn inferred_success_envelope_and_plain() {
    let env_out = Some(ty(
        "Result",
        vec![ty("Json", vec![ty("HateoasResponse", vec![ty("Widget", vec![])])])],
    ));
    match infer_success("get_w", &env_out).unwrap() {
        SuccessDoc::Envelope { schema_name, data } => {
            assert_eq!(schema_name, "__HateoasSchema_get_w");
            assert_eq!(data, "Widget");
        },
        _ => panic!("envelope expected"),
    }
    let plain_out = Some(ty("Json", vec![ty("Widget", vec![])]));
    match infer_success("get_w", &plain_out).unwrap() {
        SuccessDoc::Plain(b) => assert_eq!(b, "Widget"),
        _ => panic!("plain expected"),
    }
    assert!(infer_success("get_w", &None).is_none());
}

#[test]
fn render_type_nested_generics() {
    let t = ty("Json", vec![ty("Vec", vec![ty("Widget", vec![])])]);
    assert_eq!(render_type(&t), "Json<Vec<Widget>>");
    let pair = ty("Result", vec![ty("Widget", vec![]), ty("ApiError", vec![])]);
    assert_eq!(render_type(&pair), "Result<Widget, ApiError>");
}

#[test]
fn controller_tag_edge_cases() {
    assert_eq!(controller_tag(&None, "TimerController"), "Timer");
    assert_eq!(controller_tag(&None, "Controller"), "");
    assert_eq!(controller_tag(&None, "Short"), "Short");
    assert_eq!(controller_tag(&None, ""), "API");
    assert_eq!(controller_tag(&Some("T".to_string()), "XController"), "T");
}

#[test]
fn operation_doc_combines_everything() {
    let route = RouteInfo {
        method: HttpMethod::Get,
        path: "/:id".to_string(),
        summary: Some("Get one".to_string()),
        description: Some("Fetch".to_string()),
        deprecated: true,
        security: false,
        collection: false,
        hateoas: false,
        tag: None,
        tags: None,
        other_attrs: vec![("params".to_string(), "(x)".to_string())],
        links: vec![link("self", "/w/:id", None)],
        responses: None,
    };
    let op = build_operation_doc(
        &route,
        "/v1/w",
        &"Widgets".to_string(),
        true,
        Some(SuccessDoc::Plain("Widget".to_string())),
    );
    assert_eq!(op.full_path, "/v1/w/:id");
    assert_eq!(op.summary, "Get one");
    assert!(op.description.starts_with("Fetch\n\n**Available Links:**"));
    assert_eq!(op.tags, vec!["Widgets".to_string()]);
    assert!(op.deprecated);
    assert!(op.security);
    assert_eq!(op.other_attrs, vec![("params".to_string(), "(x)".to_string())]);
    assert!(op.responses.auto_success.is_some());
}

#[test]
fn collect_pat_idents_flattens_nested_patterns() {
    let p = PatTree::TupleStruct(vec![
        PatTree::Ident("a".to_string()),
        PatTree::Tuple(vec![
            PatTree::Ident("b".to_string()),
            PatTree::Ref(Box::new(PatTree::Ident("c".to_string()))),
        ]),
        PatTree::Wild,
        PatTree::Typed(Box::new(PatTree::Ident("d".to_string()))),
    ]);
    let ids = collect_pat_idents(&p);
    assert_eq!(ids, vec!["a".to_string(), "b".to_string(), "c".to_string(), "d".to_string()]);
}

#[test]
fn text_helpers_behave() {
    assert!(str_eq("abc", "abc"));
    assert!(!str_eq("abc", "abd"));
    assert!(!str_eq("abc", "ab"));
    assert!(str_contains("status = 200, OK", "200"));
    assert!(str_contains("anything", ""));
    assert!(!str_contains("40", "401"));
    assert_eq!(to_upper("get_widget"), "GET_WIDGET");
    assert_eq!(to_upper("MiXeD123"), "MIXED123");
}
