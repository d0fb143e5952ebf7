use tempdrop::error::ApiError;

#[test]
fn error_envelope_shape() {
    let e = ApiError::no_expiry();
    assert_eq!(e.status, 422);
    assert_eq!(e.code, "no_expiry");
}

#[test]
fn error_constructors_carry_code_status_and_text() {
    assert_eq!(ApiError::not_found().display_text(), "[not_found] upload not found");
    assert_eq!(ApiError::storage_low(12).message, "storage low: 12 bytes free");
    assert_eq!(ApiError::upstream("x".into()).code, "storage_error");
    assert_eq!(ApiError::upstream("x".into()).status, 503);
    assert_eq!(ApiError::storage_error("x".into()).status, 502);
    assert_eq!(ApiError::internal("x".into()).status, 500);
    assert_eq!(ApiError::bad_request("m".into()).status, 400);
    assert_eq!(ApiError::invalid_token().status, 401);
    assert_eq!(ApiError::in_flight_limit().status, 429);
    assert_eq!(ApiError::invalid_etag().status, 409);
}

#[test]
fn internal_errors_do_not_leak_details() {
    let a = ApiError::internal("disk I/O error at /var/lib/db".into());
    let b = ApiError::internal("UNIQUE constraint failed: uploads.id".into());
    assert_eq!((a.code, a.status, a.message.as_str()), ("internal", 500, "internal server error"));
    assert_eq!(a.message, b.message);
    assert_eq!(a.display_text(), "[internal] internal server error");
    assert_eq!(a.detail, "disk I/O error at /var/lib/db");
    assert_eq!(ApiError::not_found().detail, "");
}
