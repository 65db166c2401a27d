use slumber::builder::{build_request, RecipeField, RequestBuildError, RequestRecipe};
use slumber::template::{TemplateContext, TemplateError, TemplateString};

fn t(s: &str) -> TemplateString {
    TemplateString(s.to_owned())
}

fn recipe() -> RequestRecipe {
    RequestRecipe {
        id: "recipe1".to_owned(),
        method: t("GET"),
        url: t("http://{{host}}/get"),
        headers: vec![
            ("accept".to_owned(), t("application/json")),
            ("x-user".to_owned(), t("{{user_id}}")),
        ],
        body: Some(t("hello {{user_id}}")),
    }
}

fn context() -> TemplateContext {
    let mut context = TemplateContext::new();
    context.set_profile("host".to_owned(), "localhost".to_owned());
    context.set_profile("user_id".to_owned(), "1".to_owned());
    context
}

#[test]
fn test_build_request_success() {
    let request = build_request(&recipe(), &context()).unwrap();
    assert_eq!(request.recipe_id, "recipe1");
    assert_eq!(request.method, "GET");
    assert_eq!(request.url, "http://localhost/get");
    assert_eq!(
        request.headers,
        vec![
            ("accept".to_owned(), "application/json".to_owned()),
            ("x-user".to_owned(), "1".to_owned()),
        ]
    );
    assert_eq!(request.body.as_deref(), Some("hello 1"));
    assert!(!request.response.is_filled());
}

#[test]
fn test_build_request_no_body() {
    let mut recipe = recipe();
    recipe.body = None;
    let request = build_request(&recipe, &context()).unwrap();
    assert_eq!(request.body, None);
}

#[test]
fn test_build_request_method_render_error() {
    let mut recipe = recipe();
    recipe.method = t("{{verb}}");
    match build_request(&recipe, &context()) {
        Err(RequestBuildError::Render { field: RecipeField::Method, error }) => {
            match error {
                TemplateError::FieldUnknown { field } => assert_eq!(field, "verb"),
                other => panic!("expected FieldUnknown, got {other:?}"),
            }
        }
        other => panic!("expected method render error, got {other:?}"),
    }
}

#[test]
fn test_build_request_invalid_method() {
    let mut recipe = recipe();
    recipe.method = t("GE T");
    match build_request(&recipe, &context()) {
        Err(RequestBuildError::InvalidMethod { method }) => assert_eq!(method, "GE T"),
        other => panic!("expected InvalidMethod, got {other:?}"),
    }
}

#[test]
fn test_build_request_extension_method() {
    let mut recipe = recipe();
    recipe.method = t("PURGE");
    let request = build_request(&recipe, &context()).unwrap();
    assert_eq!(request.method, "PURGE");
}

#[test]
fn test_build_request_url_render_error() {
    let mut recipe = recipe();
    recipe.url = t("http://{{missing_host}}/get");
    match build_request(&recipe, &context()) {
        Err(RequestBuildError::Render { field: RecipeField::Url, error }) => match error {
            TemplateError::FieldUnknown { field } => assert_eq!(field, "missing_host"),
            other => panic!("expected FieldUnknown, got {other:?}"),
        },
        other => panic!("expected url render error, got {other:?}"),
    }
}

#[test]
fn test_build_request_invalid_header_name() {
    let mut recipe = recipe();
    recipe.headers = vec![("bad name".to_owned(), t("v"))];
    match build_request(&recipe, &context()) {
        Err(RequestBuildError::InvalidHeaderName { name }) => assert_eq!(name, "bad name"),
        other => panic!("expected InvalidHeaderName, got {other:?}"),
    }
}

#[test]
fn test_build_request_header_value_render_error() {
    let mut recipe = recipe();
    recipe.headers = vec![("x-user".to_owned(), t("{{missing}}"))];
    match build_request(&recipe, &context()) {
        Err(RequestBuildError::Render {
            field: RecipeField::HeaderValue { name },
            error,
        }) => {
            assert_eq!(name, "x-user");
            match error {
                TemplateError::FieldUnknown { field } => assert_eq!(field, "missing"),
                other => panic!("expected FieldUnknown, got {other:?}"),
            }
        }
        other => panic!("expected header value render error, got {other:?}"),
    }
}

#[test]
fn test_build_request_invalid_header_value() {
    let mut recipe = recipe();
    recipe.headers = vec![("x-user".to_owned(), t("a{{sep}}b"))];
    let mut context = context();
    context.set_profile("sep".to_owned(), "\n".to_owned());
    match build_request(&recipe, &context) {
        Err(RequestBuildError::InvalidHeaderValue { name, value }) => {
            assert_eq!(name, "x-user");
            assert_eq!(value, "a\nb");
        }
        other => panic!("expected InvalidHeaderValue, got {other:?}"),
    }
}

#[test]
fn test_build_request_body_render_error() {
    let mut recipe = recipe();
    recipe.body = Some(t("{{payload}}"));
    match build_request(&recipe, &context()) {
        Err(RequestBuildError::Render { field: RecipeField::Body, error }) => match error {
            TemplateError::FieldUnknown { field } => assert_eq!(field, "payload"),
            other => panic!("expected FieldUnknown, got {other:?}"),
        },
        other => panic!("expected body render error, got {other:?}"),
    }
}
