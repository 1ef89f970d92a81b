use stellux::error::{total_pages, ApiError, ApiResponse, ErrorCode, PaginatedData};

#[test]
fn responses_carry_code_and_message() {
    let r = ApiResponse::success(5);
    assert_eq!((r.code, r.message.as_str(), r.data), (0, "success", Some(5)));
    let m = ApiResponse::success_with_message("x", "done".to_string());
    assert_eq!((m.code, m.message.as_str(), m.data), (0, "done", Some("x")));
    let ok = ApiResponse::ok();
    assert_eq!((ok.code, ok.message.as_str()), (0, "success"));
    assert!(ok.data.is_none());
    let e = ApiResponse::error(404, "gone".to_string());
    assert_eq!((e.code, e.message.as_str()), (404, "gone"));
}

#[test]
fn pages_round_up() {
    let p = PaginatedData::new(vec![1, 2, 3], 21, 2, 10);
    assert_eq!(p.total_pages, 3);
    assert_eq!(p.items, vec![1, 2, 3]);
    assert_eq!((p.total, p.page, p.page_size), (21, 2, 10));
    assert_eq!(total_pages(20, 10), 2);
    assert_eq!(total_pages(0, 10), 0);
    assert_eq!(total_pages(1, 100), 1);
    assert_eq!(total_pages(-5, 2), -2);
    assert_eq!(total_pages(7, -2), -3);
    assert_eq!(total_pages(5, 0), i64::MAX);
    assert_eq!(total_pages(0, 0), 0);
    assert_eq!(total_pages(-1, 0), i64::MIN);
    assert_eq!(total_pages(i64::MIN, -1), i64::MAX);
    for (t, s) in [(0i64, 1i64), (9, 4), (100, 7), (12345, 10)] {
        assert_eq!(total_pages(t, s), (t as f64 / s as f64).ceil() as i64);
    }
}

#[test]
fn errors_map_to_statuses_codes_and_messages() {
    let cases = vec![
        (ApiError::BadRequest("a".into()), 400, 400, "Bad request: a"),
        (ApiError::Unauthorized("a".into()), 401, 401, "Unauthorized: a"),
        (ApiError::Forbidden("a".into()), 403, 403, "Forbidden: a"),
        (ApiError::NotFound("a".into()), 404, 404, "Not found: a"),
        (ApiError::InternalError("a".into()), 500, 500, "Internal server error: a"),
        (ApiError::DatabaseError("a".into()), 500, 1001, "Database error: a"),
        (ApiError::CacheError("a".into()), 500, 1002, "Cache error: a"),
        (ApiError::ValidationError("a".into()), 400, 1003, "Validation error: a"),
        (ApiError::FileUploadError("a".into()), 400, 1004, "File upload error: a"),
    ];
    for (e, status, code, msg) in cases {
        assert_eq!(e.status_code(), status);
        assert_eq!(e.error_code(), code);
        assert_eq!(e.message(), msg);
        let (s, body) = e.to_response();
        assert_eq!((s, body.code, body.message.as_str()), (status, code, msg));
    }
    assert_eq!(ErrorCode::Success.code(), 0);
    assert_eq!(ErrorCode::ValidationError.code(), 1003);
}

#[test]
fn database_failures() {
    match ApiError::from_database(true, "no rows".to_string()) {
        ApiError::NotFound(m) => assert_eq!(m, "Resource not found"),
        _ => panic!(),
    }
    match ApiError::from_database(false, "pool timed out".to_string()) {
        ApiError::DatabaseError(m) => assert_eq!(m, "pool timed out"),
        _ => panic!(),
    }
}
