use notion_opendal::{error_kind_for_status, map_notion_error, translate_failure, ErrorKind, RemoteFailure};

#[test]
fn status_404_is_not_found() {
    assert_eq!(error_kind_for_status(404), ErrorKind::NotFound);
}

#[test]
fn status_401_and_403_are_permission_denied() {
    assert_eq!(error_kind_for_status(401), ErrorKind::PermissionDenied);
    assert_eq!(error_kind_for_status(403), ErrorKind::PermissionDenied);
}

#[test]
fn unrecognised_status_is_unexpected() {
    assert_eq!(error_kind_for_status(500), ErrorKind::Unexpected);
    assert_eq!(error_kind_for_status(429), ErrorKind::Unexpected);
    assert_eq!(error_kind_for_status(0), ErrorKind::Unexpected);
}

#[test]
fn status_400_is_invalid_input() {
    assert_eq!(error_kind_for_status(400), ErrorKind::InvalidInput);
}

#[test]
fn failures_keep_their_text() {
    let e = translate_failure(RemoteFailure::Status { status: 404, message: "no such page".to_string() });
    assert_eq!(e.kind, ErrorKind::NotFound);
    assert_eq!(e.message, "no such page");
    let e = translate_failure(RemoteFailure::InvalidHeader { detail: "bad header".to_string() });
    assert_eq!(e.kind, ErrorKind::Unexpected);
    assert_eq!(e.message, "bad header");
    let e = translate_failure(RemoteFailure::Other { detail: "timed out".to_string() });
    assert_eq!(e.kind, ErrorKind::Unexpected);
    assert_eq!(e.message, "timed out");
}

fn status_error(status: u32) -> notion_client::NotionClientError {
    notion_client::NotionClientError::InvalidStatusCode {
        error: notion_client::objects::error::Error {
            object: "error".to_string(),
            status,
            code: "some_code".to_string(),
            message: "remote says no".to_string(),
            request_id: None,
        },
    }
}

#[test]
fn client_errors_map_by_status() {
    let e = map_notion_error(status_error(403));
    assert_eq!(e.kind, ErrorKind::PermissionDenied);
    assert_eq!(e.message, "remote says no");
    assert_eq!(map_notion_error(status_error(404)).kind, ErrorKind::NotFound);
    assert_eq!(map_notion_error(status_error(400)).kind, ErrorKind::InvalidInput);
    assert_eq!(map_notion_error(status_error(502)).kind, ErrorKind::Unexpected);
}
