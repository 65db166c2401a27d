use slumber::http::{Repository, Request, RequestRecord, Response, ResponseSlot, TransportError};
use slumber::template::{Chain, TemplateContext, TemplateError, TemplateKey, TemplateString};

fn new_context() -> TemplateContext {
    TemplateContext::new()
}

fn render_borrow<'a>(
    template: &'a TemplateString,
    context: &'a TemplateContext,
) -> Result<String, TemplateError<&'a str>> {
    template.render_borrow(context)
}

fn request(recipe_id: &str) -> Request {
    Request {
        recipe_id: recipe_id.to_owned(),
        method: "GET".to_owned(),
        url: "http://localhost".to_owned(),
        headers: Vec::new(),
        body: None,
        response: ResponseSlot::new(),
    }
}

fn json_response(body: &str) -> Response {
    Response {
        status: 200,
        headers: vec![("content-type".to_owned(), "application/json".to_owned())],
        content: body.to_owned(),
    }
}

fn record(recipe_id: &str, outcome: Result<Response, TransportError>) -> RequestRecord {
    RequestRecord {
        request: request(recipe_id),
        outcome,
        start_ms: 1_000,
        end_ms: 2_000,
    }
}

/// Test that a field key renders correctly
#[test]
fn test_field() {
    let mut context = new_context();
    context.set_profile("user_id".to_owned(), "1".to_owned());
    context.set_profile("group_id".to_owned(), "3".to_owned());
    context.set_override("user_id".to_owned(), "2".to_owned());

    // Success cases
    let empty = TemplateString(String::new());
    assert_eq!(render_borrow(&empty, &context).unwrap(), "".to_owned());
    let plain = TemplateString("plain".to_owned());
    assert_eq!(render_borrow(&plain, &context).unwrap(), "plain".to_owned());
    // Pull from overrides for user_id, profile for group_id
    let both = TemplateString("{{user_id}} {{group_id}}".to_owned());
    assert_eq!(render_borrow(&both, &context).unwrap(), "2 3".to_owned());

    // Error cases
    let unknown = TemplateString("{{onion_id}}".to_owned());
    match render_borrow(&unknown, &context) {
        Err(TemplateError::FieldUnknown { field }) => assert_eq!(field, "onion_id"),
        other => panic!("expected FieldUnknown, got {other:?}"),
    }
}

fn chain_context(path: Option<&str>) -> TemplateContext {
    let body = r#"{"array":[1,2],"bool":false,"number":6,"object":{"a":1},"string":"Hello World!"}"#;
    let mut repository = Repository::new();
    repository.add(record("recipe1", Ok(json_response(body))));
    let mut context = new_context();
    context.repository = repository;
    context.chains = vec![Chain {
        id: "chain1".to_owned(),
        source: "recipe1".to_owned(),
        path: path.map(String::from),
    }];
    context
}

fn render_chain(context: &TemplateContext) -> Result<String, TemplateError<String>> {
    TemplateString("{{chains.chain1}}".to_owned()).render(context)
}

/// Test success cases with chained responses
#[test]
fn test_chain() {
    let cases: [(Option<&str>, &str); 6] = [
        (
            None,
            r#"{"array":[1,2],"bool":false,"number":6,"object":{"a":1},"string":"Hello World!"}"#,
        ),
        (Some("$.string"), "Hello World!"),
        (Some("$.number"), "6"),
        (Some("$.bool"), "false"),
        (Some("$.array"), "[1,2]"),
        (Some("$.object"), "{\"a\":1}"),
    ];
    for (path, expected_value) in cases {
        let context = chain_context(path);
        assert_eq!(render_chain(&context).unwrap(), expected_value, "path {path:?}");
    }
}

/// Test all possible error cases for chained requests. This covers all
/// chain-specific error variants
#[test]
fn test_chain_error() {
    // Unknown chain
    let mut context = new_context();
    context.chains = Vec::new();
    match render_chain(&context) {
        Err(TemplateError::ChainUnknown { chain_id }) => assert_eq!(chain_id, "chain1"),
        other => panic!("expected ChainUnknown, got {other:?}"),
    }

    // The most recent attempt for the source recipe failed
    let mut repository = Repository::new();
    repository.add(record(
        "recipe1",
        Err(TransportError { message: "Bad!".to_owned() }),
    ));
    let mut context = new_context();
    context.repository = repository;
    context.chains = vec![Chain {
        id: "chain1".to_owned(),
        source: "recipe1".to_owned(),
        path: None,
    }];
    match render_chain(&context) {
        Err(TemplateError::ChainNoResponse { chain_id }) => assert_eq!(chain_id, "chain1"),
        other => panic!("expected ChainNoResponse, got {other:?}"),
    }

    // No stored attempt for the source recipe at all
    let mut context = new_context();
    context.chains = vec![Chain {
        id: "chain1".to_owned(),
        source: "unknown".to_owned(),
        path: None,
    }];
    match render_chain(&context) {
        Err(TemplateError::ChainNoResponse { chain_id }) => assert_eq!(chain_id, "chain1"),
        other => panic!("expected ChainNoResponse, got {other:?}"),
    }

    // Malformed JSON path
    let mut repository = Repository::new();
    repository.add(record("recipe1", Ok(json_response("{}"))));
    let mut context = new_context();
    context.repository = repository;
    context.chains = vec![Chain {
        id: "chain1".to_owned(),
        source: "recipe1".to_owned(),
        path: Some("$.".to_owned()),
    }];
    match render_chain(&context) {
        Err(TemplateError::ChainJsonPath { chain_id, path, .. }) => {
            assert_eq!(chain_id, "chain1");
            assert_eq!(path, "$.");
        }
        other => panic!("expected ChainJsonPath, got {other:?}"),
    }

    // Stored body is not JSON, but a path is set
    let mut repository = Repository::new();
    repository.add(record("recipe1", Ok(json_response("not json!"))));
    let mut context = new_context();
    context.repository = repository;
    context.chains = vec![Chain {
        id: "chain1".to_owned(),
        source: "recipe1".to_owned(),
        path: Some("$.message".to_owned()),
    }];
    match render_chain(&context) {
        Err(TemplateError::ChainParseResponse { chain_id, .. }) => {
            assert_eq!(chain_id, "chain1")
        }
        other => panic!("expected ChainParseResponse, got {other:?}"),
    }

    // Path matches more than one node
    let mut repository = Repository::new();
    repository.add(record("recipe1", Ok(json_response("[1, 2]"))));
    let mut context = new_context();
    context.repository = repository;
    context.chains = vec![Chain {
        id: "chain1".to_owned(),
        source: "recipe1".to_owned(),
        path: Some("$.*".to_owned()),
    }];
    match render_chain(&context) {
        Err(TemplateError::ChainInvalidResult { chain_id, .. }) => {
            assert_eq!(chain_id, "chain1")
        }
        other => panic!("expected ChainInvalidResult, got {other:?}"),
    }

    // Path matches no node
    let mut repository = Repository::new();
    repository.add(record("recipe1", Ok(json_response("{}"))));
    let mut context = new_context();
    context.repository = repository;
    context.chains = vec![Chain {
        id: "chain1".to_owned(),
        source: "recipe1".to_owned(),
        path: Some("$.message".to_owned()),
    }];
    match render_chain(&context) {
        Err(TemplateError::ChainInvalidResult { chain_id, .. }) => {
            assert_eq!(chain_id, "chain1")
        }
        other => panic!("expected ChainInvalidResult, got {other:?}"),
    }

    // Stored response does not declare a JSON content type
    let mut repository = Repository::new();
    repository.add(record(
        "recipe1",
        Ok(Response {
            status: 200,
            headers: vec![("content-type".to_owned(), "text/plain".to_owned())],
            content: "{\"a\": 1}".to_owned(),
        }),
    ));
    let mut context = new_context();
    context.repository = repository;
    context.chains = vec![Chain {
        id: "chain1".to_owned(),
        source: "recipe1".to_owned(),
        path: Some("$.a".to_owned()),
    }];
    match render_chain(&context) {
        Err(TemplateError::ChainIncorrectContentType { chain_id, content_type }) => {
            assert_eq!(chain_id, "chain1");
            assert_eq!(content_type.as_deref(), Some("text/plain"));
        }
        other => panic!("expected ChainIncorrectContentType, got {other:?}"),
    }
}

/// A content type with parameters, padding, or capital letters still counts
/// as JSON
#[test]
fn test_chain_content_type_parameters() {
    let mut repository = Repository::new();
    repository.add(record(
        "recipe1",
        Ok(Response {
            status: 200,
            headers: vec![(
                "Content-Type".to_owned(),
                " Application/JSON ; charset=utf-8".to_owned(),
            )],
            content: "{\"a\": 1}".to_owned(),
        }),
    ));
    let mut context = new_context();
    context.repository = repository;
    context.chains = vec![Chain {
        id: "chain1".to_owned(),
        source: "recipe1".to_owned(),
        path: Some("$.a".to_owned()),
    }];
    assert_eq!(render_chain(&context).unwrap(), "1");
}

/// The most recent record for the source recipe wins
#[test]
fn test_chain_most_recent() {
    let mut repository = Repository::new();
    repository.add(record("recipe1", Ok(json_response("\"old\""))));
    repository.add(record("other", Ok(json_response("\"unrelated\""))));
    repository.add(record("recipe1", Ok(json_response("\"new\""))));
    let mut context = new_context();
    context.repository = repository;
    context.chains = vec![Chain {
        id: "chain1".to_owned(),
        source: "recipe1".to_owned(),
        path: None,
    }];
    assert_eq!(render_chain(&context).unwrap(), "\"new\"");
}

#[test]
fn test_environment_success() {
    let mut context = new_context();
    context.set_environment("TEST".to_owned(), "test!".to_owned());
    let template = TemplateString("{{env.TEST}}".to_owned());
    assert_eq!(render_borrow(&template, &context).unwrap(), "test!");
}

#[test]
fn test_environment_error() {
    let context = new_context();
    let template = TemplateString("{{env.UNKNOWN}}".to_owned());
    match render_borrow(&template, &context) {
        Err(TemplateError::EnvironmentVariable { variable }) => assert_eq!(variable, "UNKNOWN"),
        other => panic!("expected EnvironmentVariable, got {other:?}"),
    }
}

/// Test successful parsing *inside* the {{ }}
#[test]
fn test_parse_template_key_success() {
    assert_eq!(
        TemplateKey::parse("field_id").unwrap(),
        TemplateKey::Field("field_id")
    );
    assert_eq!(
        TemplateKey::parse("chains.chain_id").unwrap(),
        TemplateKey::Chain("chain_id")
    );
    assert_eq!(
        TemplateKey::parse("env.TEST").unwrap(),
        TemplateKey::Environment("TEST")
    );
}

/// Test errors when parsing inside the {{ }}. An empty segment is an error
/// too, so `chains.` and `env.` do not parse as keys with an empty name.
#[test]
fn test_parse_template_key_error() {
    for input in ["", ".", ".bad", "bad.", "chains.", "env.", "chains.good.bad"] {
        match TemplateKey::parse(input) {
            Err(TemplateError::InvalidKey { key }) => assert_eq!(key, input),
            other => panic!("expected InvalidKey for {input:?}, got {other:?}"),
        }
    }
}

/// A placeholder whose key does not parse fails the whole render
#[test]
fn test_render_invalid_key() {
    let context = new_context();
    for key in ["a.b.c", "chains.", "env."] {
        let template = TemplateString(format!("{{{{{key}}}}}"));
        match render_borrow(&template, &context) {
            Err(TemplateError::InvalidKey { key: found }) => assert_eq!(found, key),
            other => panic!("expected InvalidKey for {key:?}, got {other:?}"),
        }
    }
}

/// Text that never completes a placeholder is copied verbatim
#[test]
fn test_no_placeholder_literals() {
    let context = new_context();
    for literal in ["{{}}", "{{ }}", "a{{b", "}} {{", "{{a b}}", "{ {a} }"] {
        let template = TemplateString(literal.to_owned());
        assert_eq!(render_borrow(&template, &context).unwrap(), literal, "literal {literal:?}");
    }
}

/// Only the innermost braces form the placeholder
#[test]
fn test_nested_braces() {
    let mut context = new_context();
    context.set_profile("a".to_owned(), "X".to_owned());
    let template = TemplateString("{{{a}}}".to_owned());
    assert_eq!(render_borrow(&template, &context).unwrap(), "{X}");
}

/// Whitespace inside the braces is accepted and dropped
#[test]
fn test_placeholder_whitespace() {
    let mut context = new_context();
    context.set_profile("a".to_owned(), "X".to_owned());
    let template = TemplateString("{{ \t a \t }}".to_owned());
    assert_eq!(render_borrow(&template, &context).unwrap(), "X");
}

/// A key that occurs twice is resolved at each occurrence
#[test]
fn test_repeated_key() {
    let mut context = new_context();
    context.set_profile("a".to_owned(), "X".to_owned());
    let template = TemplateString("{{a}}{{ a }}".to_owned());
    assert_eq!(render_borrow(&template, &context).unwrap(), "XX");
}

/// The borrowed-to-owned conversion keeps the variant and every identifier
#[test]
fn test_into_owned() {
    let borrowed: TemplateError<&str> = TemplateError::FieldUnknown { field: "onion_id" };
    match borrowed.into_owned() {
        TemplateError::FieldUnknown { field } => assert_eq!(field, "onion_id"),
        other => panic!("expected FieldUnknown, got {other:?}"),
    }
    let borrowed: TemplateError<&str> = TemplateError::ChainIncorrectContentType {
        chain_id: "chain1",
        content_type: Some("text/html".to_owned()),
    };
    match borrowed.into_owned() {
        TemplateError::ChainIncorrectContentType { chain_id, content_type } => {
            assert_eq!(chain_id, "chain1");
            assert_eq!(content_type.as_deref(), Some("text/html"));
        }
        other => panic!("expected ChainIncorrectContentType, got {other:?}"),
    }
    let borrowed: TemplateError<&str> = TemplateError::Repository {
        message: "database is gone".to_owned(),
    };
    match borrowed.into_owned() {
        TemplateError::Repository { message } => assert_eq!(message, "database is gone"),
        other => panic!("expected Repository, got {other:?}"),
    }
}
