use vstd::prelude::*;
use vstd::string::*;
use vstd::utf8::encode_utf8;
use crate::codec::{decode_json, json_bytes_of, json_debug_of, json_decoded_of};
use crate::path::{lemma_split_on_two, path_segments};
use crate::pattern::{
    lemma_pattern_one_literal, pair_views, pattern_of, same_shape, segment_of_text, SegmentSpec,
};
use crate::query::{key_index, lemma_key_index, parse_query, query_spec, render_query_spec};
use crate::response::{
    application_json, encode_response, encodes, fallback, no_route_text,
    response_is, text_html, text_response, text_response_is, Response, ResponseShape,
};
use crate::route::{Handler, Method};
use crate::table::{
    lookup_post, no_route_accepts, param_missing, shape_taken, table_wf, EntrySpec, MatchResult,
    RouteTable,
};
use crate::text::debug_text_of;
use crate::handlers::{
    demo_json_object,
    demo_uri, get_demo_direct_png, get_demo_html_from_sibling_file, get_demo_html_from_string,
    get_demo_html_from_sub_dir, get_demo_json, get_demo_status_code, get_demo_tutorial_png,
    get_items_birkin, get_items_id, get_items_tutorial, hello, put_demo_json, verb_foo_delete,
    verb_foo_get, verb_foo_patch, verb_foo_post, verb_foo_put,
};

verus! {

/// A request as the pipeline sees it: the raw query string holds what follows `?`,
/// and `uri` is the request URI as written.
#[derive(Clone, Debug)]
pub struct Request {
    pub method: Method,
    pub path: String,
    pub query: String,
    pub uri: String,
    pub body: Vec<u8>,
}

/// Content that handlers serve from bundled files.
#[derive(Clone, Debug)]
pub struct Assets {
    pub sibling_html: String,
    pub sub_dir_html: String,
    pub png: Vec<u8>,
}

/// Why a JSON body was refused before its handler ran. A handler that takes any JSON
/// value never sees a mismatch; one with a narrower declared shape may.
#[derive(Clone, Copy, Debug, PartialEq, Eq, Structural)]
pub enum BodyRejection {
    /// The bytes are not valid JSON.
    MalformedBody,
    /// Valid JSON that does not fit the declared shape.
    SchemaMismatch,
}

pub open spec fn rejection_text(e: BodyRejection) -> Seq<char> {
    match e {
        BodyRejection::MalformedBody => "Failed to parse the request body as JSON"@,
        BodyRejection::SchemaMismatch => "Failed to deserialize the JSON body into the target type"@,
    }
}

/// Parses a request body as one JSON value; bytes that are not valid JSON are refused
/// as malformed.
pub fn extract_json(body: &Vec<u8>) -> (r: Result<serde_json::Value, BodyRejection>)
    ensures
        match r {
            Ok(v) => json_decoded_of(body@) == Some(v),
            Err(e) => e == BodyRejection::MalformedBody && json_decoded_of(body@) is None,
        },
{
    match decode_json(body.as_slice()) {
        Ok(v) => Ok(v),
        Err(_) => Err(BodyRejection::MalformedBody),
    }
}

/// The client-error response for a refused body.
pub fn rejection_response(e: BodyRejection) -> (r: Response)
    ensures
        text_response_is(r, 400, rejection_text(e)),
{
    let text = match e {
        BodyRejection::MalformedBody => String::from_str("Failed to parse the request body as JSON"),
        BodyRejection::SchemaMismatch => String::from_str(
            "Failed to deserialize the JSON body into the target type",
        ),
    };
    text_response(400, &text)
}

pub open spec fn demo_uri_text(uri: Seq<char>) -> Seq<char> {
    "the uri is, ``"@ + uri + "``"@
}

pub open spec fn items_id_text(id: Seq<char>) -> Seq<char> {
    "GET items with path id, ``"@ + debug_text_of(id) + "``\n"@
}

pub open spec fn items_query_text(m: Seq<(Seq<char>, Seq<char>)>) -> Seq<char> {
    "GET items with query params, ``"@ + render_query_spec(m) + "``\n"@
}

pub open spec fn put_json_text(debug: Seq<char>) -> Seq<char> {
    "PUT demo_json with data, ``"@ + debug + "``\n"@
}

pub open spec fn missing_param_text() -> Seq<char> {
    "Missing path parameter"@
}

pub open spec fn image_png() -> Seq<char> {
    "image/png"@
}

/// The value of the first binding of `name`, if any.
pub fn path_param(params: &Vec<(String, String)>, name: &String) -> (r: Option<String>)
    ensures
        ({
            let pv = pair_views(params@);
            let i = key_index(pv, name@) as int;
            &&& r is Some == (i < pv.len())
            &&& r is Some ==> r.unwrap()@ == pv[i].1
        }),
{
    let ghost pv = pair_views(params@);
    let mut j: usize = 0;
    while j < params.len()
        invariant
            j <= params@.len(),
            pv == pair_views(params@),
            forall|l: int| 0 <= l < j ==> #[trigger] pv[l].0 != name@,
        decreases params@.len() - j,
    {
        assert(pv[j as int] == (params@[j as int].0@, params@[j as int].1@));
        if params[j].0.eq(name) {
            proof {
                lemma_key_index(pv, name@, j as int);
            }
            return Some(params[j].1.clone());
        }
        j = j + 1;
    }
    proof {
        lemma_key_index(pv, name@, pv.len() as int);
    }
    None
}

/// What handler `h` answers, given the bindings of its route, the request and the assets.
pub open spec fn handler_output(
    h: Handler,
    params: Seq<(Seq<char>, Seq<char>)>,
    req: Request,
    assets: Assets,
    r: Response,
) -> bool {
    match h {
        Handler::Hello => text_response_is(r, 200, "Hello, World!"@),
        Handler::HtmlFromString => response_is(
            r,
            200,
            text_html(),
            encode_utf8("<h1>Hello from html-string</h1>"@),
        ),
        Handler::HtmlFromSiblingFile => response_is(r, 200, text_html(), encode_utf8(assets.sibling_html@)),
        Handler::HtmlFromSubDir => response_is(r, 200, text_html(), encode_utf8(assets.sub_dir_html@)),
        Handler::StatusCode => text_response_is(r, 200, "200/ OK"@),
        Handler::DemoUri => text_response_is(r, 200, demo_uri_text(req.uri@)),
        Handler::TutorialPng => response_is(r, 200, image_png(), assets.png@),
        Handler::DirectPng => response_is(r, 200, image_png(), assets.png@),
        Handler::VerbFooGet => text_response_is(r, 200, "GET verb_foo\n"@),
        Handler::VerbFooPost => text_response_is(r, 200, "POST verb_foo\n"@),
        Handler::VerbFooPut => text_response_is(r, 200, "PUT verb_foo\n"@),
        Handler::VerbFooPatch => text_response_is(r, 200, "PATCH verb_foo\n"@),
        Handler::VerbFooDelete => text_response_is(r, 200, "DELETE verb_foo\n"@),
        Handler::ItemsId => {
            let i = key_index(params, "id"@) as int;
            if i < params.len() {
                text_response_is(r, 200, items_id_text(params[i].1))
            } else {
                text_response_is(r, 500, missing_param_text())
            }
        },
        Handler::ItemsQueryTutorial | Handler::ItemsQueryExplicit => text_response_is(
            r,
            200,
            items_query_text(query_spec(req.query@)),
        ),
        Handler::GetDemoJson => response_is(
            r,
            200,
            application_json(),
            json_bytes_of(demo_json_object()),
        ),
        Handler::PutDemoJson => match json_decoded_of(req.body@) {
            Some(v) => text_response_is(r, 200, put_json_text(json_debug_of(v))),
            None => text_response_is(r, 400, rejection_text(BodyRejection::MalformedBody)),
        },
    }
}

/// Runs handler `h` with its declared inputs and encodes what it returns.
pub fn run_handler(h: Handler, params: &Vec<(String, String)>, req: &Request, assets: &Assets) -> (r:
    Response)
    ensures
        handler_output(h, pair_views(params@), *req, *assets, r),
{
    match h {
        Handler::Hello => text_response(200, &hello()),
        Handler::HtmlFromString => encode_response(get_demo_html_from_string()),
        Handler::HtmlFromSiblingFile => encode_response(get_demo_html_from_sibling_file(assets)),
        Handler::HtmlFromSubDir => encode_response(get_demo_html_from_sub_dir(assets)),
        Handler::StatusCode => {
            let (status, text) = get_demo_status_code();
            encode_response(ResponseShape::StatusText(status, text))
        },
        Handler::DemoUri => text_response(200, &demo_uri(req.uri.as_str())),
        Handler::TutorialPng => get_demo_tutorial_png(&assets.png),
        Handler::DirectPng => encode_response(get_demo_direct_png(assets.png.clone())),
        Handler::VerbFooGet => text_response(200, &verb_foo_get()),
        Handler::VerbFooPost => text_response(200, &verb_foo_post()),
        Handler::VerbFooPut => text_response(200, &verb_foo_put()),
        Handler::VerbFooPatch => text_response(200, &verb_foo_patch()),
        Handler::VerbFooDelete => text_response(200, &verb_foo_delete()),
        Handler::ItemsId => match path_param(params, &String::from_str("id")) {
            Some(id) => text_response(200, &get_items_id(id.as_str())),
            None => text_response(500, &String::from_str("Missing path parameter")),
        },
        Handler::ItemsQueryTutorial => {
            let m = parse_query(req.query.as_str());
            text_response(200, &get_items_tutorial(&m))
        },
        Handler::ItemsQueryExplicit => {
            let m = parse_query(req.query.as_str());
            text_response(200, &get_items_birkin(&m))
        },
        Handler::GetDemoJson => encode_response(ResponseShape::Json(get_demo_json())),
        Handler::PutDemoJson => match extract_json(&req.body) {
            Ok(v) => text_response(200, &put_demo_json(&v)),
            Err(e) => rejection_response(e),
        },
    }
}

/// Runs the outcome of a lookup: the matched handler, or the fallback.
pub fn dispatch(found: &MatchResult, req: &Request, assets: &Assets) -> (r: Response)
    ensures
        match *found {
            MatchResult::NoMatch => text_response_is(r, 404, no_route_text(req.path@)),
            MatchResult::Matched { handler, params, .. } => handler_output(
                handler,
                pair_views(params@),
                *req,
                *assets,
                r,
            ),
        },
{
    match found {
        MatchResult::NoMatch => fallback(req.path.as_str()),
        MatchResult::Matched { handler, params, .. } => run_handler(*handler, params, req, assets),
    }
}

/// The whole pipeline for one request: match, extract, run, encode. A request that
/// no route of its method takes gets `404` with `No route <path>`.
pub fn respond(table: &RouteTable, req: &Request, assets: &Assets) -> (r: Response)
    requires
        table.wf(),
    ensures
        no_route_accepts(table@, req.method, path_segments(req.path@)) ==> text_response_is(
            r,
            404,
            no_route_text(req.path@),
        ),
        !no_route_accepts(table@, req.method, path_segments(req.path@)) ==> exists|m: MatchResult|
            #[trigger] lookup_post(table@, req.method, req.path@, m) && (m matches MatchResult::Matched {
                handler,
                params,
                ..
            } && handler_output(handler, pair_views(params@), *req, *assets, r)),
{
    let found = table.lookup(req.method, req.path.as_str());
    let r = dispatch(&found, req, assets);
    assert(lookup_post(table@, req.method, req.path@, found));
    r
}

} // verus!

verus! {

pub open spec fn route_spec(m: Method, p: Seq<char>, h: Handler) -> EntrySpec {
    EntrySpec { method: m, pattern: pattern_of(p), handler: h }
}

/// The route surface, in order of registration.
pub open spec fn route_surface() -> Seq<EntrySpec> {
    seq![
        route_spec(Method::Get, "/"@, Handler::Hello),
        route_spec(Method::Get, "/demo_from_string.html"@, Handler::HtmlFromString),
        route_spec(Method::Get, "/demo_from_sibling_file.html"@, Handler::HtmlFromSiblingFile),
        route_spec(Method::Get, "/demo_from_html_sub_dir.html"@, Handler::HtmlFromSubDir),
        route_spec(Method::Get, "/demo_status_code"@, Handler::StatusCode),
        route_spec(Method::Get, "/demo-uri"@, Handler::DemoUri),
        route_spec(Method::Get, "/demo.png"@, Handler::TutorialPng),
        route_spec(Method::Get, "/demo_tutorial.png"@, Handler::TutorialPng),
        route_spec(Method::Get, "/demo_direct.png"@, Handler::DirectPng),
        route_spec(Method::Get, "/verb_foo"@, Handler::VerbFooGet),
        route_spec(Method::Post, "/verb_foo"@, Handler::VerbFooPost),
        route_spec(Method::Put, "/verb_foo"@, Handler::VerbFooPut),
        route_spec(Method::Patch, "/verb_foo"@, Handler::VerbFooPatch),
        route_spec(Method::Delete, "/verb_foo"@, Handler::VerbFooDelete),
        route_spec(Method::Get, "/items/:id"@, Handler::ItemsId),
        route_spec(Method::Get, "/items_query_params_example_A"@, Handler::ItemsQueryTutorial),
        route_spec(Method::Get, "/items_query_params_example_B"@, Handler::ItemsQueryExplicit),
        route_spec(Method::Get, "/demo.json"@, Handler::GetDemoJson),
        route_spec(Method::Put, "/demo.json"@, Handler::PutDemoJson),
    ]
}

/// Builds the route table of the server: every route of the surface registers, in order.
pub fn build_routes() -> (t: RouteTable)
    ensures
        t.wf(),
        t@ == route_surface(),
{
    let mut t = RouteTable::new();
    proof {
        assert(route_surface().take(0) =~= t@);
        lemma_surface_step(t@, 0);
    }
    let _ = t.register(Method::Get, "/", Handler::Hello);
    proof {
        lemma_surface_step(t@, 1);
    }
    let _ = t.register(Method::Get, "/demo_from_string.html", Handler::HtmlFromString);
    proof {
        lemma_surface_step(t@, 2);
    }
    let _ = t.register(Method::Get, "/demo_from_sibling_file.html", Handler::HtmlFromSiblingFile);
    proof {
        lemma_surface_step(t@, 3);
    }
    let _ = t.register(Method::Get, "/demo_from_html_sub_dir.html", Handler::HtmlFromSubDir);
    proof {
        lemma_surface_step(t@, 4);
    }
    let _ = t.register(Method::Get, "/demo_status_code", Handler::StatusCode);
    proof {
        lemma_surface_step(t@, 5);
    }
    let _ = t.register(Method::Get, "/demo-uri", Handler::DemoUri);
    proof {
        lemma_surface_step(t@, 6);
    }
    let _ = t.register(Method::Get, "/demo.png", Handler::TutorialPng);
    proof {
        lemma_surface_step(t@, 7);
    }
    let _ = t.register(Method::Get, "/demo_tutorial.png", Handler::TutorialPng);
    proof {
        lemma_surface_step(t@, 8);
    }
    let _ = t.register(Method::Get, "/demo_direct.png", Handler::DirectPng);
    proof {
        lemma_surface_step(t@, 9);
    }
    let _ = t.register(Method::Get, "/verb_foo", Handler::VerbFooGet);
    proof {
        lemma_surface_step(t@, 10);
    }
    let _ = t.register(Method::Post, "/verb_foo", Handler::VerbFooPost);
    proof {
        lemma_surface_step(t@, 11);
    }
    let _ = t.register(Method::Put, "/verb_foo", Handler::VerbFooPut);
    proof {
        lemma_surface_step(t@, 12);
    }
    let _ = t.register(Method::Patch, "/verb_foo", Handler::VerbFooPatch);
    proof {
        lemma_surface_step(t@, 13);
    }
    let _ = t.register(Method::Delete, "/verb_foo", Handler::VerbFooDelete);
    proof {
        lemma_surface_step(t@, 14);
    }
    let _ = t.register(Method::Get, "/items/:id", Handler::ItemsId);
    proof {
        lemma_surface_step(t@, 15);
    }
    let _ = t.register(Method::Get, "/items_query_params_example_A", Handler::ItemsQueryTutorial);
    proof {
        lemma_surface_step(t@, 16);
    }
    let _ = t.register(Method::Get, "/items_query_params_example_B", Handler::ItemsQueryExplicit);
    proof {
        lemma_surface_step(t@, 17);
    }
    let _ = t.register(Method::Get, "/demo.json", Handler::GetDemoJson);
    proof {
        lemma_surface_step(t@, 18);
    }
    let _ = t.register(Method::Put, "/demo.json", Handler::PutDemoJson);
    assert(t@ =~= route_surface());
    t
}

/// The routes before the `k`-th leave room for it, and its pattern names what its
/// handler reads.
proof fn lemma_surface_step(v: Seq<EntrySpec>, k: int)
    requires
        0 <= k < route_surface().len(),
        v == route_surface().take(k),
    ensures
        !shape_taken(v, route_surface()[k].method, route_surface()[k].pattern),
        !param_missing(route_surface()[k].pattern, route_surface()[k].handler),
        v.push(route_surface()[k]) == route_surface().take(k + 1),
{
    let s = route_surface();
    lemma_surface_wf();
    assert forall|i: int| 0 <= i < v.len() implies !(v[i].method == s[k].method && same_shape(
        #[trigger] v[i].pattern,
        s[k].pattern,
    )) by {
        assert(v[i] == s[i]);
    }
    if s[k].handler == Handler::ItemsId {
        lemma_pattern_items_id();
        assert(s[k].pattern[1] == SegmentSpec::Par("id"@));
    }
    assert(v.push(s[k]) =~= s.take(k + 1));
}

} // verus!

verus! {

proof fn lemma_surface_wf()
    ensures
        table_wf(route_surface()),
{
    reveal_strlit("/");
    reveal_strlit("/demo_from_string.html");
    reveal_strlit("/demo_from_sibling_file.html");
    reveal_strlit("/demo_from_html_sub_dir.html");
    reveal_strlit("/demo_status_code");
    reveal_strlit("/demo-uri");
    reveal_strlit("/demo.png");
    reveal_strlit("/demo_tutorial.png");
    reveal_strlit("/demo_direct.png");
    reveal_strlit("/verb_foo");
    reveal_strlit("/items_query_params_example_A");
    reveal_strlit("/items_query_params_example_B");
    reveal_strlit("/demo.json");
    reveal_strlit("/items/:id");
    lemma_pattern_one_literal("/"@);
    lemma_pattern_one_literal("/demo_from_string.html"@);
    lemma_pattern_one_literal("/demo_from_sibling_file.html"@);
    lemma_pattern_one_literal("/demo_from_html_sub_dir.html"@);
    lemma_pattern_one_literal("/demo_status_code"@);
    lemma_pattern_one_literal("/demo-uri"@);
    lemma_pattern_one_literal("/demo.png"@);
    lemma_pattern_one_literal("/demo_tutorial.png"@);
    lemma_pattern_one_literal("/demo_direct.png"@);
    lemma_pattern_one_literal("/verb_foo"@);
    lemma_pattern_one_literal("/items_query_params_example_A"@);
    lemma_pattern_one_literal("/items_query_params_example_B"@);
    lemma_pattern_one_literal("/demo.json"@);
    lemma_pattern_items_id();
    assert("/demo_from_sibling_file.html"@.drop_first()[10] != "/demo_from_html_sub_dir.html"@.drop_first()[10]);
    assert("/demo-uri"@.drop_first()[4] != "/demo.png"@.drop_first()[4]);
    assert("/demo-uri"@.drop_first()[0] != "/verb_foo"@.drop_first()[0]);
    assert("/demo.png"@.drop_first()[0] != "/verb_foo"@.drop_first()[0]);
    assert("/items_query_params_example_A"@.drop_first()[27] != "/items_query_params_example_B"@.drop_first()[27]);
    let v = route_surface();
    assert forall|i: int, j: int|
        0 <= i < v.len() && 0 <= j < v.len() && i != j && v[i].method == v[j].method
            implies !same_shape(#[trigger] v[i].pattern, #[trigger] v[j].pattern) by {
    }
}

proof fn lemma_pattern_items_id()
    ensures
        pattern_of("/items/:id"@) == seq![SegmentSpec::Lit("items"@), SegmentSpec::Par("id"@)],
{
    reveal_strlit("/items/:id");
    reveal_strlit("items");
    reveal_strlit(":id");
    reveal_strlit("id");
    let p = "/items/:id"@;
    assert(p.drop_first() =~= "items"@.push('/') + ":id"@);
    lemma_split_on_two("items"@, ":id"@, '/');
    assert(":id"@.drop_first() =~= "id"@);
    assert(pattern_of(p) =~= seq![segment_of_text("items"@), segment_of_text(":id"@)]);
}

} // verus!
