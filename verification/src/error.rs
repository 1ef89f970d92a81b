//! The response envelope of the API, paging of lists, and the error kinds
//! with their HTTP statuses, numeric codes and messages.

use vstd::prelude::*;

verus! {

broadcast use vstd::string::group_string_axioms;

/// The body of every API response: `code` 0 on success.
pub struct ApiResponse<T> {
    pub code: i32,
    pub message: String,
    pub data: Option<T>,
}

impl<T> ApiResponse<T> {
    /// A success response carrying `data`, with the message `success`.
    pub fn success(data: T) -> (r: Self)
        ensures
            r.code == 0,
            r.message@ == "success"@,
            r.data == Some(data),
    {
        ApiResponse { code: 0, message: String::from_str("success"), data: Some(data) }
    }

    /// A success response carrying `data`, with the given message.
    pub fn success_with_message(data: T, message: String) -> (r: Self)
        ensures
            r.code == 0,
            r.message == message,
            r.data == Some(data),
    {
        ApiResponse { code: 0, message, data: Some(data) }
    }
}

impl ApiResponse<()> {
    /// A success response without data.
    pub fn ok() -> (r: Self)
        ensures
            r.code == 0,
            r.message@ == "success"@,
            r.data is None,
    {
        ApiResponse { code: 0, message: String::from_str("success"), data: None }
    }

    /// An error response with the given code and message.
    pub fn error(code: i32, message: String) -> (r: Self)
        ensures
            r.code == code,
            r.message == message,
            r.data is None,
    {
        ApiResponse { code, message, data: None }
    }
}

/// The quotient `n / d` rounded up, for `d > 0`.
pub open spec fn ceil_quotient(n: int, d: int) -> int {
    if n >= 0 {
        (n + d - 1) / d
    } else {
        -((-n) / d)
    }
}

/// `x` held to the range of `i64`.
pub open spec fn clamp_i64(x: int) -> i64 {
    if x > i64::MAX {
        i64::MAX
    } else if x < i64::MIN {
        i64::MIN
    } else {
        x as i64
    }
}

/// The number of pages: `total / page_size` rounded up, held to the range
/// of `i64`; with a page size of 0 it is `i64::MAX` for a positive total,
/// 0 for none and `i64::MIN` for a negative one.
pub open spec fn total_pages_spec(total: i64, page_size: i64) -> i64 {
    if page_size == 0 {
        if total > 0 {
            i64::MAX
        } else if total == 0 {
            0
        } else {
            i64::MIN
        }
    } else if page_size > 0 {
        clamp_i64(ceil_quotient(total as int, page_size as int))
    } else {
        clamp_i64(ceil_quotient(-total, -page_size))
    }
}

/// `n / d` rounded up, for `d > 0`, in 128-bit arithmetic.
fn ceil_quotient_exec(n: i128, d: i128) -> (q: i128)
    requires
        -0x8000_0000_0000_0000 <= n <= 0x8000_0000_0000_0000,
        0 < d <= 0x8000_0000_0000_0000,
    ensures
        q == ceil_quotient(n as int, d as int),
{
    if n >= 0 {
        let s: u128 = (n as u128) + (d as u128) - 1;
        let r: u128 = s / (d as u128);
        proof {
            assert(r <= s);
        }
        r as i128
    } else {
        let m: u128 = (-n) as u128;
        let r: u128 = m / (d as u128);
        proof {
            assert(r <= m);
        }
        -(r as i128)
    }
}

/// The number of pages of `page_size` items that `total` items take.
pub fn total_pages(total: i64, page_size: i64) -> (r: i64)
    ensures
        r == total_pages_spec(total, page_size),
{
    if page_size == 0 {
        if total > 0 {
            i64::MAX
        } else if total == 0 {
            0
        } else {
            i64::MIN
        }
    } else {
        let q = if page_size > 0 {
            ceil_quotient_exec(total as i128, page_size as i128)
        } else {
            ceil_quotient_exec(-(total as i128), -(page_size as i128))
        };
        if q > i64::MAX as i128 {
            i64::MAX
        } else if q < i64::MIN as i128 {
            i64::MIN
        } else {
            q as i64
        }
    }
}

/// One page of a list.
pub struct PaginatedData<T> {
    pub items: Vec<T>,
    pub total: i64,
    pub page: i64,
    pub page_size: i64,
    pub total_pages: i64,
}

impl<T> PaginatedData<T> {
    /// A page of `items`, with the number of pages that `total` items take.
    pub fn new(items: Vec<T>, total: i64, page: i64, page_size: i64) -> (r: Self)
        ensures
            r.items == items,
            r.total == total,
            r.page == page,
            r.page_size == page_size,
            r.total_pages == total_pages_spec(total, page_size),
    {
        let total_pages = total_pages(total, page_size);
        PaginatedData { items, total, page, page_size, total_pages }
    }
}

/// Pages hold the items exactly: for a positive page size and no negative
/// total, `total_pages` pages hold all `total` items and one page fewer
/// would not.
pub proof fn lemma_total_pages_fit(total: i64, page_size: i64)
    requires
        total >= 0,
        page_size > 0,
    ensures
        total_pages_spec(total, page_size) * page_size >= total,
        (total_pages_spec(total, page_size) - 1) * page_size < total,
        total_pages_spec(total, page_size) >= 0,
{
    let t = total as int;
    let p = page_size as int;
    let q = (t + p - 1) / p;
    assert(q * p >= t && (q - 1) * p < t && 0 <= q <= t) by (nonlinear_arith)
        requires
            t >= 0,
            p > 0,
            q == (t + p - 1) / p,
    {
        assert((t + p - 1) == q * p + (t + p - 1) % p);
        assert(0 <= (t + p - 1) % p < p);
        if t > 0 {
            assert(q * p <= t + p - 1);
            assert(q <= q * p);
        }
    }
}

/// The error kinds of the API; each carries its detail text.
#[derive(Debug)]
pub enum ApiError {
    BadRequest(String),
    Unauthorized(String),
    Forbidden(String),
    NotFound(String),
    InternalError(String),
    DatabaseError(String),
    CacheError(String),
    ValidationError(String),
    FileUploadError(String),
}

/// The numeric codes of responses.
#[derive(Clone, Copy, Debug, PartialEq, Eq, Structural)]
pub enum ErrorCode {
    Success,
    BadRequest,
    Unauthorized,
    Forbidden,
    NotFound,
    InternalError,
    DatabaseError,
    CacheError,
    ValidationError,
    FileUploadError,
}

/// The number of each [`ErrorCode`].
pub open spec fn code_number(c: ErrorCode) -> i32 {
    match c {
        ErrorCode::Success => 0,
        ErrorCode::BadRequest => 400,
        ErrorCode::Unauthorized => 401,
        ErrorCode::Forbidden => 403,
        ErrorCode::NotFound => 404,
        ErrorCode::InternalError => 500,
        ErrorCode::DatabaseError => 1001,
        ErrorCode::CacheError => 1002,
        ErrorCode::ValidationError => 1003,
        ErrorCode::FileUploadError => 1004,
    }
}

impl ErrorCode {
    /// The code's number.
    pub fn code(&self) -> (n: i32)
        ensures
            n == code_number(*self),
    {
        match self {
            ErrorCode::Success => 0,
            ErrorCode::BadRequest => 400,
            ErrorCode::Unauthorized => 401,
            ErrorCode::Forbidden => 403,
            ErrorCode::NotFound => 404,
            ErrorCode::InternalError => 500,
            ErrorCode::DatabaseError => 1001,
            ErrorCode::CacheError => 1002,
            ErrorCode::ValidationError => 1003,
            ErrorCode::FileUploadError => 1004,
        }
    }
}

/// The response code that belongs to each error kind.
pub open spec fn error_code_of(e: ApiError) -> ErrorCode {
    match e {
        ApiError::BadRequest(_) => ErrorCode::BadRequest,
        ApiError::Unauthorized(_) => ErrorCode::Unauthorized,
        ApiError::Forbidden(_) => ErrorCode::Forbidden,
        ApiError::NotFound(_) => ErrorCode::NotFound,
        ApiError::InternalError(_) => ErrorCode::InternalError,
        ApiError::DatabaseError(_) => ErrorCode::DatabaseError,
        ApiError::CacheError(_) => ErrorCode::CacheError,
        ApiError::ValidationError(_) => ErrorCode::ValidationError,
        ApiError::FileUploadError(_) => ErrorCode::FileUploadError,
    }
}

/// The HTTP status of each error kind.
pub open spec fn http_status_of(e: ApiError) -> u16 {
    match e {
        ApiError::BadRequest(_) => 400,
        ApiError::Unauthorized(_) => 401,
        ApiError::Forbidden(_) => 403,
        ApiError::NotFound(_) => 404,
        ApiError::InternalError(_) => 500,
        ApiError::DatabaseError(_) => 500,
        ApiError::CacheError(_) => 500,
        ApiError::ValidationError(_) => 400,
        ApiError::FileUploadError(_) => 400,
    }
}

/// The detail text an error carries.
pub open spec fn detail_of(e: ApiError) -> Seq<char> {
    match e {
        ApiError::BadRequest(s) => s@,
        ApiError::Unauthorized(s) => s@,
        ApiError::Forbidden(s) => s@,
        ApiError::NotFound(s) => s@,
        ApiError::InternalError(s) => s@,
        ApiError::DatabaseError(s) => s@,
        ApiError::CacheError(s) => s@,
        ApiError::ValidationError(s) => s@,
        ApiError::FileUploadError(s) => s@,
    }
}

/// The text put before the detail in each error kind's message.
pub open spec fn message_prefix(e: ApiError) -> Seq<char> {
    match e {
        ApiError::BadRequest(_) => "Bad request: "@,
        ApiError::Unauthorized(_) => "Unauthorized: "@,
        ApiError::Forbidden(_) => "Forbidden: "@,
        ApiError::NotFound(_) => "Not found: "@,
        ApiError::InternalError(_) => "Internal server error: "@,
        ApiError::DatabaseError(_) => "Database error: "@,
        ApiError::CacheError(_) => "Cache error: "@,
        ApiError::ValidationError(_) => "Validation error: "@,
        ApiError::FileUploadError(_) => "File upload error: "@,
    }
}

impl ApiError {
    /// The HTTP status of the error.
    pub fn status_code(&self) -> (s: u16)
        ensures
            s == http_status_of(*self),
    {
        match self {
            ApiError::BadRequest(_) => 400,
            ApiError::Unauthorized(_) => 401,
            ApiError::Forbidden(_) => 403,
            ApiError::NotFound(_) => 404,
            ApiError::InternalError(_) => 500,
            ApiError::DatabaseError(_) => 500,
            ApiError::CacheError(_) => 500,
            ApiError::ValidationError(_) => 400,
            ApiError::FileUploadError(_) => 400,
        }
    }

    /// The response code of the error.
    pub fn error_code(&self) -> (n: i32)
        ensures
            n == code_number(error_code_of(*self)),
    {
        let c = match self {
            ApiError::BadRequest(_) => ErrorCode::BadRequest,
            ApiError::Unauthorized(_) => ErrorCode::Unauthorized,
            ApiError::Forbidden(_) => ErrorCode::Forbidden,
            ApiError::NotFound(_) => ErrorCode::NotFound,
            ApiError::InternalError(_) => ErrorCode::InternalError,
            ApiError::DatabaseError(_) => ErrorCode::DatabaseError,
            ApiError::CacheError(_) => ErrorCode::CacheError,
            ApiError::ValidationError(_) => ErrorCode::ValidationError,
            ApiError::FileUploadError(_) => ErrorCode::FileUploadError,
        };
        c.code()
    }

    /// The error's message: its kind's prefix, then its detail.
    pub fn message(&self) -> (m: String)
        ensures
            m@ == message_prefix(*self) + detail_of(*self),
    {
        match self {
            ApiError::BadRequest(s) => String::from_str("Bad request: ").concat(s.as_str()),
            ApiError::Unauthorized(s) => String::from_str("Unauthorized: ").concat(s.as_str()),
            ApiError::Forbidden(s) => String::from_str("Forbidden: ").concat(s.as_str()),
            ApiError::NotFound(s) => String::from_str("Not found: ").concat(s.as_str()),
            ApiError::InternalError(s) => String::from_str("Internal server error: ").concat(
                s.as_str(),
            ),
            ApiError::DatabaseError(s) => String::from_str("Database error: ").concat(s.as_str()),
            ApiError::CacheError(s) => String::from_str("Cache error: ").concat(s.as_str()),
            ApiError::ValidationError(s) => String::from_str("Validation error: ").concat(
                s.as_str(),
            ),
            ApiError::FileUploadError(s) => String::from_str("File upload error: ").concat(
                s.as_str(),
            ),
        }
    }

    /// The HTTP status and the body of the response that reports the error.
    pub fn to_response(&self) -> (r: (u16, ApiResponse<()>))
        ensures
            r.0 == http_status_of(*self),
            r.1.code == code_number(error_code_of(*self)),
            r.1.message@ == message_prefix(*self) + detail_of(*self),
            r.1.data is None,
    {
        (self.status_code(), ApiResponse::error(self.error_code(), self.message()))
    }

    /// The error for a failed database call: a missing row is reported as
    /// `NotFound("Resource not found")`, any other failure as a
    /// `DatabaseError` with the failure's description.
    pub fn from_database(row_not_found: bool, description: String) -> (e: ApiError)
        ensures
            row_not_found ==> (e matches ApiError::NotFound(s) && s@ == "Resource not found"@),
            !row_not_found ==> e == ApiError::DatabaseError(description),
    {
        if row_not_found {
            ApiError::NotFound(String::from_str("Resource not found"))
        } else {
            ApiError::DatabaseError(description)
        }
    }
}

/// Every error is reported with a client or server error status, and its
/// response code is the status itself for the HTTP-shaped kinds and one of
/// the 1001..=1004 codes for the storage and input kinds.
pub proof fn lemma_error_codes(e: ApiError)
    ensures
        400 <= http_status_of(e) <= 599,
        code_number(error_code_of(e)) == http_status_of(e) || (1001 <= code_number(
            error_code_of(e),
        ) <= 1004),
        code_number(error_code_of(e)) != 0,
{
}

} // verus!
