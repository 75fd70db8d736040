use swan::http::{ContentType, HttpMethod};
use swan::interceptor::NoOpInterceptor;

#[test]
fn test_http_method_as_str() {
    assert_eq!(HttpMethod::Get.as_str(), "GET");
    assert_eq!(HttpMethod::Post.as_str(), "POST");
    assert_eq!(HttpMethod::Put.as_str(), "PUT");
    assert_eq!(HttpMethod::Delete.as_str(), "DELETE");
}

#[test]
fn test_http_method_client_method() {
    assert_eq!(HttpMethod::Get.client_method(), "get");
    assert_eq!(HttpMethod::Post.client_method(), "post");
    assert_eq!(HttpMethod::Put.client_method(), "put");
    assert_eq!(HttpMethod::Delete.client_method(), "delete");
}

#[test]
fn test_parse_content_type_value() {
    let result = ContentType::parse("json").unwrap();
    assert_eq!(result, ContentType::Json);

    assert_eq!(ContentType::parse("form_urlencoded").unwrap(), ContentType::FormUrlEncoded);
    assert_eq!(ContentType::parse("form_multipart").unwrap(), ContentType::FormMultipart);
    assert!(ContentType::parse("xml").is_err());
}

#[test]
fn test_module_exports() {
    let _method = HttpMethod::Get;
    let _content_type = ContentType::Json;
    let _noop = NoOpInterceptor::default();

    let _policy = swan::retry::RetryPolicy::default();
    let _cache = swan::interceptor::InterceptorCache::new();
}
