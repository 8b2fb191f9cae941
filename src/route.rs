use vstd::prelude::*;
use vstd::string::*;

verus! {

/// An HTTP request method.
#[derive(Clone, Copy, Debug, PartialEq, Eq, Structural)]
pub enum Method {
    Get,
    Post,
    Put,
    Patch,
    Delete,
    Head,
    Options,
    Other,
}

/// The handlers of the route surface.
#[derive(Clone, Copy, Debug, PartialEq, Eq, Structural)]
pub enum Handler {
    Hello,
    HtmlFromString,
    HtmlFromSiblingFile,
    HtmlFromSubDir,
    StatusCode,
    DemoUri,
    TutorialPng,
    DirectPng,
    VerbFooGet,
    VerbFooPost,
    VerbFooPut,
    VerbFooPatch,
    VerbFooDelete,
    ItemsId,
    ItemsQueryTutorial,
    ItemsQueryExplicit,
    GetDemoJson,
    PutDemoJson,
}

/// What a handler takes from the request, declared when it is registered.
#[derive(Clone, Copy, Debug, PartialEq, Eq, Structural)]
pub enum Input {
    Nothing,
    PathParam,
    QueryParams,
    JsonBody,
    RequestUri,
}

pub open spec fn input_spec(h: Handler) -> Input {
    match h {
        Handler::DemoUri => Input::RequestUri,
        Handler::ItemsId => Input::PathParam,
        Handler::ItemsQueryTutorial | Handler::ItemsQueryExplicit => Input::QueryParams,
        Handler::PutDemoJson => Input::JsonBody,
        _ => Input::Nothing,
    }
}

/// The name of the path parameter a handler reads, if it reads one.
pub open spec fn param_name_spec(h: Handler) -> Option<Seq<char>> {
    match h {
        Handler::ItemsId => Some("id"@),
        _ => None,
    }
}

impl Handler {
    /// The input this handler declares.
    pub fn input(self) -> (r: Input)
        ensures
            r == input_spec(self),
    {
        match self {
            Handler::DemoUri => Input::RequestUri,
            Handler::ItemsId => Input::PathParam,
            Handler::ItemsQueryTutorial | Handler::ItemsQueryExplicit => Input::QueryParams,
            Handler::PutDemoJson => Input::JsonBody,
            _ => Input::Nothing,
        }
    }

    /// The name of the path parameter this handler reads, if any.
    pub fn param_name(self) -> (r: Option<String>)
        ensures
            r.is_some() == param_name_spec(self).is_some(),
            r.is_some() ==> r.unwrap()@ == param_name_spec(self).unwrap(),
    {
        match self {
            Handler::ItemsId => Some(String::from_str("id")),
            _ => None,
        }
    }

    /// Whether this handler answers with the bundled image.
    pub fn needs_image(self) -> (r: bool)
        ensures
            r == (self == Handler::TutorialPng || self == Handler::DirectPng),
    {
        match self {
            Handler::TutorialPng | Handler::DirectPng => true,
            _ => false,
        }
    }
}

} // verus!
