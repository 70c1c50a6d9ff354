use notion_opendal::{notion_token_from_header, page_response_format, token_from_headers, ErrorKind, PageResponseFormat};

#[test]
fn bearer_token_wins() {
    assert_eq!(token_from_headers(Some("abc"), Some("other")), Some("abc".to_string()));
}

#[test]
fn auth_header_is_trimmed() {
    assert_eq!(token_from_headers(None, Some("  tok \t")), Some("tok".to_string()));
    assert_eq!(token_from_headers(None, Some("   ")), None);
    assert_eq!(token_from_headers(None, None), None);
}

#[test]
fn missing_token_is_permission_denied() {
    assert_eq!(notion_token_from_header(None).unwrap_err().kind, ErrorKind::PermissionDenied);
    assert_eq!(notion_token_from_header(Some("x".to_string())).unwrap(), "x");
}

#[test]
fn markdown_content_type_wins() {
    assert_eq!(page_response_format(Some("text/markdown; charset=utf-8"), Some("application/json")), PageResponseFormat::Markdown);
}

#[test]
fn accept_header_first_deciding_item() {
    assert_eq!(page_response_format(None, Some("image/png, text/*;q=0.5, application/json")), PageResponseFormat::Markdown);
    assert_eq!(page_response_format(None, Some("application/json, text/markdown")), PageResponseFormat::Json);
    assert_eq!(page_response_format(Some("application/json"), Some(" text/markdown")), PageResponseFormat::Markdown);
    assert_eq!(page_response_format(None, Some("*/*")), PageResponseFormat::Json);
    assert_eq!(page_response_format(None, Some("application/*")), PageResponseFormat::Json);
}

#[test]
fn default_is_json() {
    assert_eq!(page_response_format(None, None), PageResponseFormat::Json);
    assert_eq!(page_response_format(None, Some("image/png,,")), PageResponseFormat::Json);
    assert_eq!(page_response_format(Some("text/plain"), None), PageResponseFormat::Json);
}
