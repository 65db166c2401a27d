//! Building a transport-ready request out of a recipe: every templated
//! field is rendered against the context, the method and each header are
//! validated against transport syntax, and a failure at any field aborts
//! construction carrying that field's error.

use vstd::prelude::*;

use crate::http::Request;
use crate::http::RequestView;
use crate::http::ResponseSlot;
use crate::template::ContextView;
use crate::template::TemplateContext;
use crate::template::TemplateError;
use crate::template::TemplateErrorView;
use crate::template::TemplateString;
use crate::template::spec_render;

verus! {

/// A parameterized request definition: its method, URL, header values, and
/// body are templates, rendered at send time.
#[derive(Clone, Debug)]
pub struct RequestRecipe {
    pub id: String,
    pub method: TemplateString,
    pub url: TemplateString,
    pub headers: Vec<(String, TemplateString)>,
    pub body: Option<TemplateString>,
}

pub struct RecipeView {
    pub id: Seq<char>,
    pub method: Seq<char>,
    pub url: Seq<char>,
    pub headers: Seq<(Seq<char>, Seq<char>)>,
    pub body: Option<Seq<char>>,
}

impl View for RequestRecipe {
    type V = RecipeView;

    open spec fn view(&self) -> RecipeView {
        RecipeView {
            id: self.id@,
            method: self.method@,
            url: self.url@,
            headers: self.headers@.map_values(|p: (String, TemplateString)| (p.0@, p.1@)),
            body: match self.body {
                Option::Some(b) => Option::Some(b@),
                Option::None => Option::None,
            },
        }
    }
}

/// Which field of a recipe a build failure belongs to.
#[derive(Clone, Debug)]
pub enum RecipeField {
    Method,
    Url,
    HeaderValue { name: String },
    Body,
}

pub enum RecipeFieldView {
    Method,
    Url,
    HeaderValue { name: Seq<char> },
    Body,
}

impl View for RecipeField {
    type V = RecipeFieldView;

    open spec fn view(&self) -> RecipeFieldView {
        match self {
            RecipeField::Method => RecipeFieldView::Method,
            RecipeField::Url => RecipeFieldView::Url,
            RecipeField::HeaderValue { name } => RecipeFieldView::HeaderValue { name: name@ },
            RecipeField::Body => RecipeFieldView::Body,
        }
    }
}

/// An error building a request out of a recipe, annotated with the field
/// that failed.
#[derive(Debug)]
pub enum RequestBuildError {
    /// Rendering the field's template failed.
    Render { field: RecipeField, error: TemplateError<String> },
    /// The rendered method is not a valid HTTP method token.
    InvalidMethod { method: String },
    /// A header name is not valid HTTP header-name syntax.
    InvalidHeaderName { name: String },
    /// A rendered header value is not valid HTTP header-value syntax.
    InvalidHeaderValue { name: String, value: String },
}

pub enum RequestBuildErrorView {
    Render { field: RecipeFieldView, error: TemplateErrorView },
    InvalidMethod { method: Seq<char> },
    InvalidHeaderName { name: Seq<char> },
    InvalidHeaderValue { name: Seq<char>, value: Seq<char> },
}

impl View for RequestBuildError {
    type V = RequestBuildErrorView;

    open spec fn view(&self) -> RequestBuildErrorView {
        match self {
            RequestBuildError::Render { field, error } => RequestBuildErrorView::Render {
                field: field@,
                error: error@,
            },
            RequestBuildError::InvalidMethod { method } => RequestBuildErrorView::InvalidMethod {
                method: method@,
            },
            RequestBuildError::InvalidHeaderName { name } => RequestBuildErrorView::InvalidHeaderName {
                name: name@,
            },
            RequestBuildError::InvalidHeaderValue { name, value } => RequestBuildErrorView::InvalidHeaderValue {
                name: name@,
                value: value@,
            },
        }
    }
}

/// An HTTP token character: what may appear in a method or a header name.
pub open spec fn is_token_char(c: char) -> bool {
    (('a' as u32) <= (c as u32) && (c as u32) <= ('z' as u32)) || (('A' as u32) <= (c as u32) && (
    c as u32) <= ('Z' as u32)) || (('0' as u32) <= (c as u32) && (c as u32) <= ('9' as u32)) || c
        == '!' || c == '#' || c == '$' || c == '%' || c == '&' || c == '\'' || c == '*' || c == '+'
        || c == '-' || c == '.' || c == '^' || c == '_' || c == '`' || c == '|' || c == '~'
}

/// A valid HTTP method: a non-empty token.
pub open spec fn spec_method_valid(s: Seq<char>) -> bool {
    s.len() >= 1 && (forall|i: int| 0 <= i < s.len() ==> is_token_char(s[i]))
}

/// A valid HTTP header name: a non-empty token of at most 65535 bytes.
pub open spec fn spec_header_name_valid(s: Seq<char>) -> bool {
    1 <= s.len() <= 65535 && (forall|i: int| 0 <= i < s.len() ==> is_token_char(s[i]))
}

/// A character allowed in an HTTP header value: everything but the ASCII
/// control characters other than horizontal tab.
pub open spec fn is_value_char(c: char) -> bool {
    c == '\t' || ((c as u32) >= 32 && (c as u32) != 127)
}

/// A valid HTTP header value.
pub open spec fn spec_header_value_valid(s: Seq<char>) -> bool {
    forall|i: int| 0 <= i < s.len() ==> is_value_char(s[i])
}

/// Relies on `reqwest::Method`'s `FromStr` (the `http` crate's method
/// parser): it accepts exactly the non-empty strings of HTTP token
/// characters.
#[verifier::external_body]
fn method_is_valid(s: &str) -> (r: bool)
    ensures
        r == spec_method_valid(s@),
{
    s.parse::<reqwest::Method>().is_ok()
}

/// Relies on `reqwest::header::HeaderName`'s `FromStr`: it accepts exactly
/// the non-empty strings of HTTP token characters of at most 65535 bytes,
/// normalizing ASCII case.
#[verifier::external_body]
fn header_name_is_valid(s: &str) -> (r: bool)
    ensures
        r == spec_header_name_valid(s@),
{
    s.parse::<reqwest::header::HeaderName>().is_ok()
}

/// Relies on `reqwest::header::HeaderValue::from_str`: it accepts exactly
/// the strings free of ASCII control characters other than horizontal tab.
#[verifier::external_body]
fn header_value_is_valid(s: &str) -> (r: bool)
    ensures
        r == spec_header_value_valid(s@),
{
    reqwest::header::HeaderValue::from_str(s).is_ok()
}

/// What building the header list yields: each name validated, each value
/// rendered and validated, in recipe order, stopping at the first failure.
pub open spec fn spec_build_headers(
    headers: Seq<(Seq<char>, Seq<char>)>,
    ctx: ContextView,
) -> Result<Seq<(Seq<char>, Seq<char>)>, RequestBuildErrorView>
    decreases headers.len(),
{
    if headers.len() == 0 {
        Result::Ok(Seq::empty())
    } else {
        let name = headers.first().0;
        if !spec_header_name_valid(name) {
            Result::Err(RequestBuildErrorView::InvalidHeaderName { name })
        } else {
            match spec_render(headers.first().1, ctx) {
                Result::Err(e) => Result::Err(
                    RequestBuildErrorView::Render {
                        field: RecipeFieldView::HeaderValue { name },
                        error: e,
                    },
                ),
                Result::Ok(value) => if !spec_header_value_valid(value) {
                    Result::Err(RequestBuildErrorView::InvalidHeaderValue { name, value })
                } else {
                    match spec_build_headers(headers.drop_first(), ctx) {
                        Result::Err(e) => Result::Err(e),
                        Result::Ok(rest) => Result::Ok(seq![(name, value)] + rest),
                    }
                },
            }
        }
    }
}

/// What building a request out of a recipe yields: method, URL, headers,
/// and body rendered and validated in that order, with the first failure
/// aborting construction; on success, a request with an empty result slot.
pub open spec fn spec_build_request(recipe: RecipeView, ctx: ContextView) -> Result<
    RequestView,
    RequestBuildErrorView,
> {
    match spec_render(recipe.method, ctx) {
        Result::Err(e) => Result::Err(
            RequestBuildErrorView::Render { field: RecipeFieldView::Method, error: e },
        ),
        Result::Ok(method) => if !spec_method_valid(method) {
            Result::Err(RequestBuildErrorView::InvalidMethod { method })
        } else {
            match spec_render(recipe.url, ctx) {
                Result::Err(e) => Result::Err(
                    RequestBuildErrorView::Render { field: RecipeFieldView::Url, error: e },
                ),
                Result::Ok(url) => match spec_build_headers(recipe.headers, ctx) {
                    Result::Err(e) => Result::Err(e),
                    Result::Ok(headers) => match recipe.body {
                        Option::None => Result::Ok(
                            RequestView {
                                recipe_id: recipe.id,
                                method,
                                url,
                                headers,
                                body: Option::None,
                                response: Option::None,
                            },
                        ),
                        Option::Some(body_template) => match spec_render(body_template, ctx) {
                            Result::Err(e) => Result::Err(
                                RequestBuildErrorView::Render {
                                    field: RecipeFieldView::Body,
                                    error: e,
                                },
                            ),
                            Result::Ok(body) => Result::Ok(
                                RequestView {
                                    recipe_id: recipe.id,
                                    method,
                                    url,
                                    headers,
                                    body: Option::Some(body),
                                    response: Option::None,
                                },
                            ),
                        },
                    },
                },
            }
        },
    }
}

/// Prefix a successful header build with already-built headers.
pub open spec fn spec_prepend_headers(
    prefix: Seq<(Seq<char>, Seq<char>)>,
    r: Result<Seq<(Seq<char>, Seq<char>)>, RequestBuildErrorView>,
) -> Result<Seq<(Seq<char>, Seq<char>)>, RequestBuildErrorView> {
    match r {
        Result::Ok(rest) => Result::Ok(prefix + rest),
        Result::Err(e) => Result::Err(e),
    }
}

/// Render and validate the header list of a recipe.
fn build_headers(headers: &Vec<(String, TemplateString)>, context: &TemplateContext) -> (r: Result<
    Vec<(String, String)>,
    RequestBuildError,
>)
    ensures
        ({
            let hv = headers@.map_values(|p: (String, TemplateString)| (p.0@, p.1@));
            match r {
                Result::Ok(out) => spec_build_headers(hv, context@) == Result::Ok::<
                    Seq<(Seq<char>, Seq<char>)>,
                    RequestBuildErrorView,
                >(out@.map_values(|p: (String, String)| (p.0@, p.1@))),
                Result::Err(e) => spec_build_headers(hv, context@) == Result::Err::<
                    Seq<(Seq<char>, Seq<char>)>,
                    RequestBuildErrorView,
                >(e@),
            }
        }),
{
    let ghost hv = headers@.map_values(|p: (String, TemplateString)| (p.0@, p.1@));
    let n = headers.len();
    let mut out: Vec<(String, String)> = Vec::new();
    let mut i: usize = 0;
    proof {
        assert(hv.skip(0) =~= hv);
        assert(out@.map_values(|p: (String, String)| (p.0@, p.1@)) =~= Seq::<
            (Seq<char>, Seq<char>),
        >::empty());
    }
    while i < n
        invariant
            n == headers.len(),
            i <= n,
            hv == headers@.map_values(|p: (String, TemplateString)| (p.0@, p.1@)),
            spec_build_headers(hv, context@) == spec_prepend_headers(
                out@.map_values(|p: (String, String)| (p.0@, p.1@)),
                spec_build_headers(hv.skip(i as int), context@),
            ),
        decreases n - i,
    {
        let ghost prev = out@.map_values(|p: (String, String)| (p.0@, p.1@));
        proof {
            assert(hv.skip(i as int).first() == hv[i as int]);
            assert(hv.skip(i as int).drop_first() =~= hv.skip(i + 1));
        }
        let name = &headers[i].0;
        if !header_name_is_valid(name.as_str()) {
            return Err(RequestBuildError::InvalidHeaderName { name: name.clone() });
        }
        let value = match headers[i].1.render(context) {
            Ok(value) => value,
            Err(error) => {
                return Err(
                    RequestBuildError::Render {
                        field: RecipeField::HeaderValue { name: name.clone() },
                        error,
                    },
                );
            },
        };
        if !header_value_is_valid(value.as_str()) {
            return Err(
                RequestBuildError::InvalidHeaderValue { name: name.clone(), value },
            );
        }
        let ghost name_v = name@;
        let ghost value_v = value@;
        out.push((name.clone(), value));
        proof {
            assert(out@.map_values(|p: (String, String)| (p.0@, p.1@)) =~= prev + seq![
                (name_v, value_v),
            ]);
            assert(forall|rest: Seq<(Seq<char>, Seq<char>)>|
                (prev + seq![(name_v, value_v)]) + rest =~= prev + (seq![(name_v, value_v)]
                    + rest));
        }
        i = i + 1;
    }
    proof {
        assert(hv.skip(n as int) =~= Seq::<(Seq<char>, Seq<char>)>::empty());
        assert(out@.map_values(|p: (String, String)| (p.0@, p.1@)) + Seq::<
            (Seq<char>, Seq<char>),
        >::empty() =~= out@.map_values(|p: (String, String)| (p.0@, p.1@)));
    }
    Ok(out)
}

/// Instantiate a request out of a recipe, rendering every templated field
/// against the given context. The request's result slot starts empty.
pub fn build_request(recipe: &RequestRecipe, context: &TemplateContext) -> (r: Result<
    Request,
    RequestBuildError,
>)
    ensures
        match r {
            Result::Ok(request) => spec_build_request(recipe@, context@) == Result::Ok::<
                RequestView,
                RequestBuildErrorView,
            >(request@),
            Result::Err(e) => spec_build_request(recipe@, context@) == Result::Err::<
                RequestView,
                RequestBuildErrorView,
            >(e@),
        },
{
    let method = match recipe.method.render(context) {
        Ok(method) => method,
        Err(error) => {
            return Err(RequestBuildError::Render { field: RecipeField::Method, error });
        },
    };
    if !method_is_valid(method.as_str()) {
        return Err(RequestBuildError::InvalidMethod { method });
    }
    let url = match recipe.url.render(context) {
        Ok(url) => url,
        Err(error) => {
            return Err(RequestBuildError::Render { field: RecipeField::Url, error });
        },
    };
    let headers = match build_headers(&recipe.headers, context) {
        Ok(headers) => headers,
        Err(e) => {
            return Err(e);
        },
    };
    let body = match &recipe.body {
        None => None,
        Some(body_template) => match body_template.render(context) {
            Ok(body) => Some(body),
            Err(error) => {
                return Err(RequestBuildError::Render { field: RecipeField::Body, error });
            },
        },
    };
    Ok(
        Request {
            recipe_id: recipe.id.clone(),
            method,
            url,
            headers,
            body,
            response: ResponseSlot::new(),
        },
    )
}

} // verus!
