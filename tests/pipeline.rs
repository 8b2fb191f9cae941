use axum_routes::lifecycle::{Action, Event, Lifecycle, Phase};
use axum_routes::path::split_path;
use axum_routes::query::{parse_query, render_query};
use axum_routes::response::{encode_response, fallback, Response, ResponseShape};
use axum_routes::route::{Handler, Input, Method};
use axum_routes::handlers::{
    demo_uri, get_demo_direct_png, get_demo_html_from_string, get_demo_json, get_demo_status_code,
    get_demo_tutorial_png, get_items_birkin, get_items_id, get_items_tutorial, hello,
    put_demo_json, put_demo_json_body, verb_foo_delete, verb_foo_get,
};
use axum_routes::server::{build_routes, extract_json, respond, Assets, BodyRejection, Request};
use axum_routes::table::{MatchResult, RouteError, RouteTable};

fn assets() -> Assets {
    Assets {
        sibling_html: "<p>sibling</p>".to_string(),
        sub_dir_html: "<p>sub dir</p>".to_string(),
        png: vec![137, 80, 78, 71, 13, 10, 26, 10, 0, 1, 2, 255],
    }
}

fn request(method: Method, uri: &str, body: &[u8]) -> Request {
    let (path, query) = match uri.find('?') {
        Some(i) => (&uri[..i], &uri[i + 1..]),
        None => (uri, ""),
    };
    Request {
        method,
        path: path.to_string(),
        query: query.to_string(),
        uri: uri.to_string(),
        body: body.to_vec(),
    }
}

fn send(method: Method, uri: &str, body: &[u8]) -> Response {
    let table = build_routes();
    respond(&table, &request(method, uri, body), &assets())
}

fn body_text(r: &Response) -> String {
    String::from_utf8(r.body.clone()).unwrap()
}

#[test]
fn get_root_says_hello() {
    let r = send(Method::Get, "/", b"");
    assert_eq!(r.status, 200);
    assert_eq!(body_text(&r), "Hello, World!");
    assert_eq!(r.content_type, "text/plain; charset=utf-8");
}

#[test]
fn get_items_42_embeds_id() {
    let r = send(Method::Get, "/items/42", b"");
    assert_eq!(r.status, 200);
    assert!(body_text(&r).contains("42"));
    assert_eq!(body_text(&r), "GET items with path id, ``\"42\"``\n");
}

#[test]
fn query_example_a_embeds_mapping() {
    let r = send(Method::Get, "/items_query_params_example_A?foo=bar", b"");
    assert_eq!(r.status, 200);
    assert!(body_text(&r).contains("{\"foo\": \"bar\"}"));
}

#[test]
fn query_example_b_embeds_mapping() {
    let r = send(Method::Get, "/items_query_params_example_B?foo=bar&x=1", b"");
    assert_eq!(r.status, 200);
    assert_eq!(
        body_text(&r),
        "GET items with query params, ``{\"foo\": \"bar\", \"x\": \"1\"}``\n"
    );
}

#[test]
fn put_demo_json_echoes_object() {
    let r = send(Method::Put, "/demo.json", b"{\"a\":\"b\"}");
    assert_eq!(r.status, 200);
    let text = body_text(&r);
    assert!(text.starts_with("PUT demo_json with data, ``"));
    assert!(text.contains("\"a\""));
    assert!(text.contains("\"b\""));
}

#[test]
fn put_demo_json_malformed_body_is_400() {
    let r = send(Method::Put, "/demo.json", b"{\"a\":");
    assert_eq!(r.status, 400);
    assert_eq!(body_text(&r), "Failed to parse the request body as JSON");
}

#[test]
fn unknown_path_is_404() {
    let r = send(Method::Get, "/no-such-path", b"");
    assert_eq!(r.status, 404);
    assert_eq!(body_text(&r), "No route /no-such-path");
}

#[test]
fn method_mismatch_is_404() {
    let r = send(Method::Post, "/items/42", b"");
    assert_eq!(r.status, 404);
    assert_eq!(body_text(&r), "No route /items/42");
    let r = send(Method::Delete, "/demo.json", b"");
    assert_eq!(r.status, 404);
}

#[test]
fn get_demo_json_is_json() {
    let r = send(Method::Get, "/demo.json", b"");
    assert_eq!(r.status, 200);
    assert_eq!(r.content_type, "application/json");
    assert_eq!(body_text(&r), "{\"a\":\"b\"}");
}

#[test]
fn status_code_route() {
    let r = send(Method::Get, "/demo_status_code", b"");
    assert_eq!(r.status, 200);
    assert_eq!(body_text(&r), "200/ OK");
}

#[test]
fn demo_uri_route() {
    let r = send(Method::Get, "/demo-uri?x=1", b"");
    assert_eq!(body_text(&r), "the uri is, ``/demo-uri?x=1``");
}

#[test]
fn html_routes() {
    let r = send(Method::Get, "/demo_from_string.html", b"");
    assert_eq!(r.content_type, "text/html; charset=utf-8");
    assert_eq!(body_text(&r), "<h1>Hello from html-string</h1>");
    assert_eq!(body_text(&send(Method::Get, "/demo_from_sibling_file.html", b"")), "<p>sibling</p>");
    assert_eq!(body_text(&send(Method::Get, "/demo_from_html_sub_dir.html", b"")), "<p>sub dir</p>");
}

#[test]
fn png_routes() {
    for uri in ["/demo.png", "/demo_tutorial.png", "/demo_direct.png"] {
        let r = send(Method::Get, uri, b"");
        assert_eq!(r.status, 200);
        assert_eq!(r.content_type, "image/png");
        assert_eq!(r.body, assets().png);
    }
}

#[test]
fn verb_foo_routes() {
    let cases = [
        (Method::Get, "GET verb_foo\n"),
        (Method::Post, "POST verb_foo\n"),
        (Method::Put, "PUT verb_foo\n"),
        (Method::Patch, "PATCH verb_foo\n"),
        (Method::Delete, "DELETE verb_foo\n"),
    ];
    for (m, text) in cases {
        assert_eq!(body_text(&send(m, "/verb_foo", b"")), text);
    }
    assert_eq!(send(Method::Head, "/verb_foo", b"").status, 404);
}

#[test]
fn lookup_binds_parameters() {
    let mut t = RouteTable::new();
    t.register(Method::Get, "/items/:id", Handler::ItemsId).unwrap();
    match t.lookup(Method::Get, "/items/abc") {
        MatchResult::Matched { route, handler, params } => {
            assert_eq!(route, 0);
            assert_eq!(handler, Handler::ItemsId);
            assert_eq!(params, vec![("id".to_string(), "abc".to_string())]);
        }
        MatchResult::NoMatch => panic!("expected a match"),
    }
    assert!(matches!(t.lookup(Method::Get, "/items/abc/def"), MatchResult::NoMatch));
    assert!(matches!(t.lookup(Method::Get, "/things/abc"), MatchResult::NoMatch));
}

#[test]
fn literal_pattern_beats_parameter() {
    for order in [false, true] {
        let mut t = RouteTable::new();
        if order {
            t.register(Method::Get, "/items/special", Handler::Hello).unwrap();
            t.register(Method::Get, "/items/:id", Handler::ItemsId).unwrap();
        } else {
            t.register(Method::Get, "/items/:id", Handler::ItemsId).unwrap();
            t.register(Method::Get, "/items/special", Handler::Hello).unwrap();
        }
        match t.lookup(Method::Get, "/items/special") {
            MatchResult::Matched { handler, params, .. } => {
                assert_eq!(handler, Handler::Hello);
                assert!(params.is_empty());
            }
            MatchResult::NoMatch => panic!("expected a match"),
        }
        match t.lookup(Method::Get, "/items/other") {
            MatchResult::Matched { handler, .. } => assert_eq!(handler, Handler::ItemsId),
            MatchResult::NoMatch => panic!("expected a match"),
        }
    }
}

#[test]
fn earlier_literal_position_wins() {
    let mut t = RouteTable::new();
    t.register(Method::Get, "/:a/b", Handler::VerbFooGet).unwrap();
    t.register(Method::Get, "/a/:b", Handler::VerbFooPost).unwrap();
    match t.lookup(Method::Get, "/a/b") {
        MatchResult::Matched { handler, .. } => assert_eq!(handler, Handler::VerbFooPost),
        MatchResult::NoMatch => panic!("expected a match"),
    }
}

#[test]
fn duplicate_route_is_refused() {
    let mut t = RouteTable::new();
    t.register(Method::Get, "/items/:id", Handler::ItemsId).unwrap();
    assert_eq!(t.register(Method::Get, "/items/:other", Handler::Hello), Err(RouteError::DuplicateRoute));
    assert_eq!(t.len(), 1);
    assert_eq!(t.register(Method::Put, "/items/:other", Handler::Hello), Ok(()));
    assert_eq!(t.len(), 2);
}

#[test]
fn missing_parameter_is_refused() {
    let mut t = RouteTable::new();
    assert_eq!(t.register(Method::Get, "/items/:key", Handler::ItemsId), Err(RouteError::MissingParameter));
    assert_eq!(t.len(), 0);
}

#[test]
fn split_path_edges() {
    assert_eq!(split_path("/"), vec!["".to_string()]);
    assert_eq!(split_path("/a//b"), vec!["a".to_string(), "".to_string(), "b".to_string()]);
    assert_eq!(split_path("/items/42/"), vec!["items".to_string(), "42".to_string(), "".to_string()]);
}

#[test]
fn query_last_value_wins_and_is_stable() {
    let first = parse_query("a=1&b=2&a=3");
    let second = parse_query("a=1&b=2&a=3");
    assert_eq!(first, vec![("a".to_string(), "3".to_string()), ("b".to_string(), "2".to_string())]);
    assert_eq!(first, second);
}

#[test]
fn query_edge_cases() {
    assert!(parse_query("").is_empty());
    assert!(parse_query("&&").is_empty());
    assert_eq!(parse_query("flag"), vec![("flag".to_string(), "".to_string())]);
    assert_eq!(parse_query("k=v=w"), vec![("k".to_string(), "v=w".to_string())]);
}

#[test]
fn query_values_are_decoded() {
    assert_eq!(parse_query("a=b%20c+d&e%3D=1"), vec![
        ("a".to_string(), "b c d".to_string()),
        ("e=".to_string(), "1".to_string()),
    ]);
}

#[test]
fn render_query_writes_debug_strings() {
    let m = vec![("foo".to_string(), "bar".to_string()), ("q".to_string(), "a\"b".to_string())];
    assert_eq!(render_query(&m), "{\"foo\": \"bar\", \"q\": \"a\\\"b\"}");
    assert_eq!(render_query(&vec![]), "{}");
}

#[test]
fn json_body_round_trip() {
    let mut inner = serde_json::Map::new();
    inner.insert("a".to_string(), serde_json::Value::String("b".to_string()));
    inner.insert("n".to_string(), serde_json::Value::from(42));
    inner.insert("list".to_string(), serde_json::Value::Array(vec![serde_json::Value::Bool(true), serde_json::Value::Null]));
    let v = serde_json::Value::Object(inner);
    let bytes = serde_json::to_vec(&v).unwrap();
    assert_eq!(extract_json(&bytes).unwrap(), v);
}

#[test]
fn json_body_rejections() {
    assert_eq!(extract_json(&b"not json".to_vec()).unwrap_err(), BodyRejection::MalformedBody);
    assert_eq!(extract_json(&b"".to_vec()).unwrap_err(), BodyRejection::MalformedBody);
}

#[test]
fn encoder_shapes() {
    let r = encode_response(ResponseShape::StatusText(201, "made".to_string()));
    assert_eq!((r.status, r.content_type.as_str(), r.body.as_slice()), (201, "text/plain; charset=utf-8", &b"made"[..]));
    let r = encode_response(ResponseShape::Binary { content_type: "application/octet-stream".to_string(), bytes: vec![0, 255] });
    assert_eq!((r.status, r.content_type.as_str(), r.body), (200, "application/octet-stream", vec![0, 255]));
    let r = encode_response(ResponseShape::Json(serde_json::Value::Bool(true)));
    assert_eq!((r.status, r.content_type.as_str(), r.body.as_slice()), (200, "application/json", &b"true"[..]));
    let r = encode_response(ResponseShape::Text("é".to_string()));
    assert_eq!(r.body, vec![0xc3, 0xa9]);
}

#[test]
fn fallback_text() {
    let r = fallback("/x/y");
    assert_eq!(r.status, 404);
    assert_eq!(r.body, b"No route /x/y".to_vec());
}

#[test]
fn tutorial_png_goes_through_base64() {
    let png = vec![1u8, 2, 3, 250, 251];
    let r = get_demo_tutorial_png(&png);
    assert_eq!((r.status, r.content_type.as_str(), r.body), (200, "image/png", png.clone()));
}

#[test]
fn handler_texts() {
    assert_eq!(hello(), "Hello, World!");
    assert_eq!(get_items_id("a b"), "GET items with path id, ``\"a b\"``\n");
    assert_eq!(put_demo_json_body("Null"), "PUT demo_json with data, ``Null``\n");
    assert_eq!(put_demo_json(&serde_json::Value::Null), "PUT demo_json with data, ``Null``\n");
    assert_eq!(demo_uri("/demo-uri"), "the uri is, ``/demo-uri``");
    assert_eq!(verb_foo_get(), "GET verb_foo\n");
    assert_eq!(verb_foo_delete(), "DELETE verb_foo\n");
    assert_eq!(get_demo_status_code(), (200, "200/ OK".to_string()));
    let q = vec![("foo".to_string(), "bar".to_string())];
    assert_eq!(get_items_tutorial(&q), "GET items with query params, ``{\"foo\": \"bar\"}``\n");
    assert_eq!(get_items_birkin(&q), get_items_tutorial(&q));
}

#[test]
fn handler_shapes() {
    assert!(matches!(get_demo_html_from_string(), ResponseShape::Html(s) if s == "<h1>Hello from html-string</h1>"));
    let mut object = serde_json::Map::new();
    object.insert("a".to_string(), serde_json::Value::String("b".to_string()));
    assert_eq!(get_demo_json(), serde_json::Value::Object(object));
    match get_demo_direct_png(vec![9, 8]) {
        ResponseShape::Binary { content_type, bytes } => {
            assert_eq!(content_type, "image/png");
            assert_eq!(bytes, vec![9, 8]);
        }
        _ => panic!("expected a binary shape"),
    }
}

#[test]
fn interrupt_drains_in_flight_request() {
    let mut l = Lifecycle::new();
    assert_eq!(l.step(Event::Bound), Action::StartAccepting);
    assert_eq!(l.step(Event::Connection), Action::Serve);
    assert_eq!(l.step(Event::Interrupt), Action::StopAccepting);
    assert_eq!(l.phase, Phase::Draining);
    assert_eq!(l.step(Event::Connection), Action::Refuse);
    assert_eq!(l.step(Event::Interrupt), Action::Nothing);
    assert_eq!(l.in_flight, 1);
    assert_eq!(l.step(Event::RequestDone), Action::ExitClean);
    assert_eq!(l.phase, Phase::Stopped);
}

#[test]
fn bind_failure_exits() {
    let mut l = Lifecycle::new();
    assert_eq!(l.step(Event::BindFailed), Action::ExitFailure);
    assert_eq!(l.phase, Phase::Stopped);
}

#[test]
fn idle_interrupt_stops_at_once() {
    let mut l = Lifecycle::new();
    l.step(Event::Bound);
    assert_eq!(l.step(Event::Interrupt), Action::ExitClean);
    assert_eq!(l.phase, Phase::Stopped);
}

#[test]
fn handlers_declare_inputs() {
    assert_eq!(Handler::ItemsId.input(), Input::PathParam);
    assert_eq!(Handler::ItemsId.param_name(), Some("id".to_string()));
    assert_eq!(Handler::ItemsQueryTutorial.input(), Input::QueryParams);
    assert_eq!(Handler::PutDemoJson.input(), Input::JsonBody);
    assert_eq!(Handler::DemoUri.input(), Input::RequestUri);
    assert_eq!(Handler::Hello.input(), Input::Nothing);
    assert_eq!(Handler::Hello.param_name(), None);
    assert!(Handler::DirectPng.needs_image());
    assert!(!Handler::Hello.needs_image());
}

#[test]
fn route_surface_registers_every_route() {
    assert_eq!(build_routes().len(), 19);
}

#[test]
fn tutorial_and_direct_png_bodies_agree() {
    let a = assets();
    let tutorial = get_demo_tutorial_png(&a.png);
    let direct = encode_response(get_demo_direct_png(a.png.clone()));
    assert_eq!(tutorial.body, direct.body);
    assert_eq!(tutorial.content_type, direct.content_type);
    assert_eq!(&tutorial.body[..8], &[0x89, 0x50, 0x4E, 0x47, 0x0D, 0x0A, 0x1A, 0x0A]);
}

#[test]
fn put_bodies_differing_in_whitespace_answer_alike() {
    let a = send(Method::Put, "/demo.json", b"{\"a\":\"b\"}");
    let b = send(Method::Put, "/demo.json", b"{ \"a\" : \"b\" }");
    assert_eq!((a.status, a.body.clone()), (b.status, b.body));
    assert_eq!(body_text(&a), format!("PUT demo_json with data, ``{:?}``\n", get_demo_json()));
}

#[test]
fn get_demo_json_body_parses_back() {
    let got = send(Method::Get, "/demo.json", b"");
    assert_eq!(extract_json(&got.body).unwrap(), get_demo_json());
    let put = send(Method::Put, "/demo.json", &got.body);
    assert_eq!(put.status, 200);
}
