use vstd::prelude::*;
use vstd::string::*;
use crate::codec::{base64_decode, base64_encode, debug_json, json_debug_of, json_object, json_object_of};
use crate::pattern::pair_views;
use crate::query::render_query;
use crate::response::{encode_response, response_is, Response, ResponseShape};
use crate::server::{
    demo_uri_text, image_png, items_id_text, items_query_text, put_json_text,
    Assets,
};
use crate::text::debug_str;

verus! {

/// `GET /`.
pub fn hello() -> (r: String)
    ensures
        r@ == "Hello, World!"@,
{
    String::from_str("Hello, World!")
}

/// `GET /demo_from_string.html`: markup held in the program.
pub fn get_demo_html_from_string() -> (r: ResponseShape)
    ensures
        r matches ResponseShape::Html(s) && s@ == "<h1>Hello from html-string</h1>"@,
{
    ResponseShape::Html(String::from_str("<h1>Hello from html-string</h1>"))
}

/// `GET /demo_from_sibling_file.html`: markup of a bundled file.
pub fn get_demo_html_from_sibling_file(assets: &Assets) -> (r: ResponseShape)
    ensures
        r matches ResponseShape::Html(s) && s@ == assets.sibling_html@,
{
    ResponseShape::Html(assets.sibling_html.clone())
}

/// `GET /demo_from_html_sub_dir.html`: markup of a bundled file in a subdirectory.
pub fn get_demo_html_from_sub_dir(assets: &Assets) -> (r: ResponseShape)
    ensures
        r matches ResponseShape::Html(s) && s@ == assets.sub_dir_html@,
{
    ResponseShape::Html(assets.sub_dir_html.clone())
}

/// `GET /demo_status_code`: an explicit status with its text.
pub fn get_demo_status_code() -> (r: (u16, String))
    ensures
        r.0 == 200,
        r.1@ == "200/ OK"@,
{
    (200, String::from_str("200/ OK"))
}

/// `GET /demo-uri`: the request URI, quoted in the text.
pub fn demo_uri(uri: &str) -> (r: String)
    ensures
        r@ == demo_uri_text(uri@),
{
    let mut s = String::from_str("the uri is, ``");
    s.append(uri);
    s.append("``");
    s
}

/// `GET /demo_tutorial.png`: the image sent through base64 and back, as PNG.
pub fn get_demo_tutorial_png(png: &Vec<u8>) -> (r: Response)
    ensures
        response_is(r, 200, image_png(), png@),
{
    let text = base64_encode(png.as_slice());
    let bytes = base64_decode(text.as_str()).unwrap();
    encode_response(ResponseShape::Binary { content_type: String::from_str("image/png"), bytes })
}

/// `GET /demo_direct.png`: the image bytes as PNG.
pub fn get_demo_direct_png(png: Vec<u8>) -> (r: ResponseShape)
    ensures
        r matches ResponseShape::Binary { content_type, bytes } && content_type@ == image_png()
            && bytes@ == png@,
{
    ResponseShape::Binary { content_type: String::from_str("image/png"), bytes: png }
}

/// `GET /verb_foo`.
pub fn verb_foo_get() -> (r: String)
    ensures
        r@ == "GET verb_foo\n"@,
{
    String::from_str("GET verb_foo\n")
}

/// `POST /verb_foo`.
pub fn verb_foo_post() -> (r: String)
    ensures
        r@ == "POST verb_foo\n"@,
{
    String::from_str("POST verb_foo\n")
}

/// `PUT /verb_foo`.
pub fn verb_foo_put() -> (r: String)
    ensures
        r@ == "PUT verb_foo\n"@,
{
    String::from_str("PUT verb_foo\n")
}

/// `PATCH /verb_foo`.
pub fn verb_foo_patch() -> (r: String)
    ensures
        r@ == "PATCH verb_foo\n"@,
{
    String::from_str("PATCH verb_foo\n")
}

/// `DELETE /verb_foo`.
pub fn verb_foo_delete() -> (r: String)
    ensures
        r@ == "DELETE verb_foo\n"@,
{
    String::from_str("DELETE verb_foo\n")
}

/// `GET /items/:id`: the captured `id` in its debug form.
pub fn get_items_id(id: &str) -> (r: String)
    ensures
        r@ == items_id_text(id@),
{
    let mut s = String::from_str("GET items with path id, ``");
    let d = debug_str(id);
    s.append(d.as_str());
    s.append("``\n");
    s
}

/// `GET /items_query_params_example_A`: the parsed query mapping.
pub fn get_items_tutorial(query: &Vec<(String, String)>) -> (r: String)
    ensures
        r@ == items_query_text(pair_views(query@)),
{
    let mut s = String::from_str("GET items with query params, ``");
    let d = render_query(query);
    s.append(d.as_str());
    s.append("``\n");
    s
}

/// `GET /items_query_params_example_B`: the parsed query mapping, taken out first.
pub fn get_items_birkin(query: &Vec<(String, String)>) -> (r: String)
    ensures
        r@ == items_query_text(pair_views(query@)),
{
    let extract_params = query;
    get_items_tutorial(extract_params)
}

/// The object that `GET /demo.json` answers: `{"a":"b"}`.
pub open spec fn demo_json_object() -> serde_json::Value {
    json_object_of(seq![("a"@, "b"@)])
}

/// `GET /demo.json`: the object `{"a":"b"}`.
pub fn get_demo_json() -> (r: serde_json::Value)
    ensures
        r == demo_json_object(),
{
    let pairs = vec![(String::from_str("a"), String::from_str("b"))];
    assert(pair_views(pairs@) =~= seq![("a"@, "b"@)]);
    json_object(pairs)
}

/// The text that `PUT /demo.json` answers, given the debug form of the parsed body.
pub fn put_demo_json_body(debug: &str) -> (r: String)
    ensures
        r@ == put_json_text(debug@),
{
    let mut s = String::from_str("PUT demo_json with data, ``");
    s.append(debug);
    s.append("``\n");
    s
}

/// `PUT /demo.json`: the parsed body in its debug form.
pub fn put_demo_json(data: &serde_json::Value) -> (r: String)
    ensures
        r@ == put_json_text(json_debug_of(*data)),
{
    let d = debug_json(data);
    put_demo_json_body(d.as_str())
}

} // verus!
