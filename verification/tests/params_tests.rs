use swan::dynamic_params::{DynamicParamsProcessor, ParamBindings};
use swan::error::TemplateError;
use swan::string_pool::StringPoolOptimizer;

fn bindings(pairs: &[(&str, &str)]) -> ParamBindings {
    let names: Vec<String> = pairs.iter().map(|p| p.0.to_string()).collect();
    let values: Vec<String> = pairs.iter().map(|p| p.1.to_string()).collect();
    ParamBindings::build(&names, &values)
}

#[test]
fn dynamic_params_test_extract_placeholders() {
    let text = "/users/{user_id}/posts/{post_id}";
    let placeholders = DynamicParamsProcessor::extract_placeholders(text);
    assert_eq!(placeholders, vec!["user_id", "post_id"]);
}

#[test]
fn test_extract_placeholders_no_placeholders() {
    let text = "/users/123/posts/456";
    let placeholders = DynamicParamsProcessor::extract_placeholders(text);
    assert!(placeholders.is_empty());
}

#[test]
fn test_has_placeholders() {
    assert!(DynamicParamsProcessor::has_placeholders("/users/{id}"));
    assert!(!DynamicParamsProcessor::has_placeholders("/users/123"));
}

#[test]
fn test_extract_parameters() {
    let b = bindings(&[("user_id", "7"), ("post_id", "3")]);

    // by name
    assert_eq!(b.lookup("user_id").unwrap(), "7");
    assert_eq!(b.lookup("post_id").unwrap(), "3");

    // by position
    assert_eq!(b.lookup("param0").unwrap(), "7");
    assert_eq!(b.lookup("param1").unwrap(), "3");

    assert!(b.lookup("missing").is_none());
}

#[test]
fn test_resolve_template_by_name_and_position() {
    let b = bindings(&[("user_id", "7"), ("post_id", "3")]);

    let by_name = DynamicParamsProcessor::resolve_template("/users/{user_id}/posts/{post_id}", &b)
        .unwrap();
    assert_eq!(by_name, "/users/7/posts/3");

    let by_position =
        DynamicParamsProcessor::resolve_template("/users/{param0}/posts/{param1}", &b).unwrap();
    assert_eq!(by_position, by_name);
}

#[test]
fn test_resolve_template_value_not_reinterpreted() {
    // a substituted value that itself looks like a placeholder stays
    // literal: substitution is one linear pass
    let b = bindings(&[("a", "{param0}"), ("b", "x")]);
    let r = DynamicParamsProcessor::resolve_template("/{a}/{b}", &b).unwrap();
    assert_eq!(r, "/{param0}/x");
}

#[test]
fn test_resolve_template_unresolved_placeholder() {
    let b = bindings(&[("user_id", "7")]);
    let r = DynamicParamsProcessor::resolve_template("/users/{missing}", &b);
    assert_eq!(
        r,
        Err(TemplateError::UnresolvedPlaceholder { name: "missing".to_string() })
    );
}

#[test]
fn test_resolve_template_unclosed_brace() {
    let b = bindings(&[("user_id", "7")]);
    let r = DynamicParamsProcessor::resolve_template("/users/{user_id", &b);
    assert_eq!(r, Err(TemplateError::MalformedTemplate));
}

#[test]
fn test_resolve_header_template() {
    let b = bindings(&[("token", "abc123")]);
    let (key, value) =
        DynamicParamsProcessor::resolve_header_template("Authorization: Bearer {token}", &b)
            .unwrap();
    assert_eq!(key, "Authorization");
    assert_eq!(value, "Bearer abc123");
}

#[test]
fn test_resolve_header_template_malformed() {
    let b = bindings(&[]);
    let r = DynamicParamsProcessor::resolve_header_template("NoSeparator", &b);
    assert_eq!(r, Err(TemplateError::MalformedHeader));
}

#[test]
fn string_pool_test_extract_placeholders() {
    let template = "/api/users/{param0}/posts/{param1}";
    let placeholders = StringPoolOptimizer::extract_placeholders(template);
    assert_eq!(placeholders, vec![0, 1]);
}

#[test]
fn test_extract_placeholders_empty() {
    let template = "/api/users/static";
    let placeholders = StringPoolOptimizer::extract_placeholders(template);
    assert!(placeholders.is_empty());
}

#[test]
fn test_extract_placeholders_sorted_unique() {
    let template = "/{param2}/{param0}/{param2}/{name}/{param1}";
    let placeholders = StringPoolOptimizer::extract_placeholders(template);
    assert_eq!(placeholders, vec![0, 1, 2]);
}

#[test]
fn test_sanitize_identifier() {
    assert_eq!(StringPoolOptimizer::sanitize_identifier("Content-Type"), "Content_Type");
    assert_eq!(StringPoolOptimizer::sanitize_identifier("abc_123"), "abc_123");
    assert_eq!(StringPoolOptimizer::sanitize_identifier("x y.z"), "x_y_z");
}

#[test]
fn test_hash_string_deterministic() {
    // FNV-1a, 64 bit: a fixed, documented test vector
    assert_eq!(StringPoolOptimizer::hash_string("a"), 0xaf63dc4c8601ec8c);
    assert_eq!(
        StringPoolOptimizer::hash_string("https://api.example.com"),
        StringPoolOptimizer::hash_string("https://api.example.com")
    );
    assert_ne!(
        StringPoolOptimizer::hash_string("alpha"),
        StringPoolOptimizer::hash_string("beta")
    );
}

#[test]
fn test_resolve_empty_template() {
    let b = bindings(&[]);
    assert_eq!(DynamicParamsProcessor::resolve_template("", &b).unwrap(), "");
}

#[test]
fn test_lone_closing_brace_is_literal() {
    let b = bindings(&[("a", "1")]);
    assert_eq!(DynamicParamsProcessor::resolve_template("x}y{a}", &b).unwrap(), "x}y1");
}
