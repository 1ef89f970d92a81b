//! The checks the admin and auth endpoints make on a request before they
//! touch the database, with the messages they answer.

use vstd::prelude::*;
use vstd::utf8::encode_utf8;
use crate::error::ApiError;
use crate::models::blog::{CreateBlogRequest, UpdateBlogRequest};
use crate::models::document::{CreateDocumentRequest, UpdateDocumentRequest};
use crate::models::friend_link::{CreateFriendLinkRequest, UpdateFriendLinkRequest};
use crate::models::project::{CreateProjectRequest, UpdateProjectRequest};
use crate::models::directory::{CreateDirectoryRequest, UpdateDirectoryRequest};
use crate::models::category::{CreateCategoryRequest, UpdateCategoryRequest};
use crate::text::{chars_of, decimal, i64_decimal, string_from_chars, trim_spec, trim_str, utf8_len_exceeds};

verus! {

broadcast use vstd::string::group_string_axioms;

/// `value` is blank: nothing but white space.
pub open spec fn blank(value: Seq<char>) -> bool {
    trim_spec(value).len() == 0
}

/// `e` is a validation error with message `m`.
pub open spec fn is_validation(e: ApiError, m: Seq<char>) -> bool {
    e matches ApiError::ValidationError(t) && t@ == m
}

/// Refuses a blank value with `message`.
pub fn require_field(value: &str, message: &str) -> (r: Result<(), ApiError>)
    ensures
        match r {
            Ok(()) => !blank(value@),
            Err(e) => blank(value@) && is_validation(e, message@),
        },
{
    let t = trim_str(value);
    if t.as_str().is_empty() {
        Err(ApiError::ValidationError(message.to_owned()))
    } else {
        Ok(())
    }
}

/// Refuses a given value that is blank with `message`; an absent value
/// passes.
pub fn require_if_present(value: &Option<String>, message: &str) -> (r: Result<(), ApiError>)
    ensures
        match value {
            Some(v) => match r {
                Ok(()) => !blank(v@),
                Err(e) => blank(v@) && is_validation(e, message@),
            },
            None => r is Ok,
        },
{
    match value {
        Some(v) => require_field(v.as_str(), message),
        None => Ok(()),
    }
}

/// `"<kind> with id <id> not found"`.
pub open spec fn not_found_message(kind: Seq<char>, id: i64) -> Seq<char> {
    kind + " with id "@ + decimal(id as int) + " not found"@
}

/// The error for a missing record of `kind`.
pub fn not_found(kind: &str, id: i64) -> (e: ApiError)
    ensures
        e matches ApiError::NotFound(m) && m@ == not_found_message(kind@, id),
{
    let d = string_from_chars(i64_decimal(id).as_slice());
    ApiError::NotFound(kind.to_owned().concat(" with id ").concat(d.as_str()).concat(" not found"))
}

/// `"<kind> with <field> '<value>' already exists"`.
pub open spec fn duplicate_message(kind: Seq<char>, field: Seq<char>, value: Seq<char>) -> Seq<char> {
    kind + " with "@ + field + " '"@ + value + "' already exists"@
}

/// The error for a name or slug that is taken.
pub fn already_exists(kind: &str, field: &str, value: &str) -> (e: ApiError)
    ensures
        is_validation(e, duplicate_message(kind@, field@, value@)),
{
    ApiError::ValidationError(
        kind.to_owned().concat(" with ").concat(field).concat(" '").concat(value).concat(
            "' already exists",
        ),
    )
}

/// A slug that has to be checked for duplicates: given and not empty.
pub fn slug_to_check(slug: &Option<String>) -> (r: Option<&str>)
    ensures
        match slug {
            Some(s) => if s@.len() > 0 {
                r matches Some(t) && t@ == s@
            } else {
                r is None
            },
            None => r is None,
        },
{
    match slug {
        Some(s) => if s.as_str().is_empty() {
            None
        } else {
            Some(s.as_str())
        },
        None => None,
    }
}

/// A new blog needs a title and content.
pub fn validate_create_blog(req: &CreateBlogRequest) -> (r: Result<(), ApiError>)
    ensures
        match r {
            Ok(()) => !blank(req.title@) && !blank(req.content@),
            Err(e) => if blank(req.title@) {
                is_validation(e, "Blog title is required"@)
            } else {
                blank(req.content@) && is_validation(e, "Blog content is required"@)
            },
        },
{
    match require_field(req.title.as_str(), "Blog title is required") {
        Ok(()) => {},
        Err(e) => {
            return Err(e);
        },
    }
    require_field(req.content.as_str(), "Blog content is required")
}

/// A blog's new title, when given, must not be blank.
pub fn validate_update_blog(req: &UpdateBlogRequest) -> (r: Result<(), ApiError>)
    ensures
        match req.title {
            Some(t) => match r {
                Ok(()) => !blank(t@),
                Err(e) => blank(t@) && is_validation(e, "Blog title cannot be empty"@),
            },
            None => r is Ok,
        },
{
    require_if_present(&req.title, "Blog title cannot be empty")
}

/// The review status is one of 0, 1 and 2 when given.
pub fn validate_friend_link_status(status: Option<i16>) -> (r: Result<(), ApiError>)
    ensures
        match status {
            Some(s) => match r {
                Ok(()) => 0 <= s <= 2,
                Err(e) => !(0 <= s <= 2) && is_validation(
                    e,
                    "Invalid status value. Must be 0 (pending), 1 (approved), or 2 (rejected)"@,
                ),
            },
            None => r is Ok,
        },
{
    match status {
        Some(s) => if 0 <= s && s <= 2 {
            Ok(())
        } else {
            Err(
                ApiError::ValidationError(
                    String::from_str(
                        "Invalid status value. Must be 0 (pending), 1 (approved), or 2 (rejected)",
                    ),
                ),
            )
        },
        None => Ok(()),
    }
}

/// A new friend link needs a name and a URL, and a valid status if any.
pub fn validate_create_friend_link(req: &CreateFriendLinkRequest) -> (r: Result<(), ApiError>)
    ensures
        r is Ok <==> (!blank(req.name@) && !blank(req.url@) && match req.status {
            Some(s) => 0 <= s <= 2,
            None => true,
        }),
        r matches Err(e) ==> if blank(req.name@) {
            is_validation(e, "Friend link name is required"@)
        } else if blank(req.url@) {
            is_validation(e, "Friend link URL is required"@)
        } else {
            is_validation(
                e,
                "Invalid status value. Must be 0 (pending), 1 (approved), or 2 (rejected)"@,
            )
        },
{
    match require_field(req.name.as_str(), "Friend link name is required") {
        Ok(()) => {},
        Err(e) => {
            return Err(e);
        },
    }
    match require_field(req.url.as_str(), "Friend link URL is required") {
        Ok(()) => {},
        Err(e) => {
            return Err(e);
        },
    }
    validate_friend_link_status(req.status)
}

/// A friend link's given name and URL must not be blank, and a given
/// status must be valid.
pub fn validate_update_friend_link(req: &UpdateFriendLinkRequest) -> (r: Result<(), ApiError>)
    ensures
        r is Ok <==> (match req.name {
            Some(n) => !blank(n@),
            None => true,
        } && match req.url {
            Some(u) => !blank(u@),
            None => true,
        } && match req.status {
            Some(s) => 0 <= s <= 2,
            None => true,
        }),
        r matches Err(e) ==> if req.name matches Some(n) && blank(n@) {
            is_validation(e, "Friend link name cannot be empty"@)
        } else if req.url matches Some(u) && blank(u@) {
            is_validation(e, "Friend link URL cannot be empty"@)
        } else {
            is_validation(
                e,
                "Invalid status value. Must be 0 (pending), 1 (approved), or 2 (rejected)"@,
            )
        },
{
    match require_if_present(&req.name, "Friend link name cannot be empty") {
        Ok(()) => {},
        Err(e) => {
            return Err(e);
        },
    }
    match require_if_present(&req.url, "Friend link URL cannot be empty") {
        Ok(()) => {},
        Err(e) => {
            return Err(e);
        },
    }
    validate_friend_link_status(req.status)
}

/// A new document needs a name and content.
pub fn validate_create_document(req: &CreateDocumentRequest) -> (r: Result<(), ApiError>)
    ensures
        match r {
            Ok(()) => !blank(req.name@) && !blank(req.content@),
            Err(e) => if blank(req.name@) {
                is_validation(e, "Document name is required"@)
            } else {
                blank(req.content@) && is_validation(e, "Document content is required"@)
            },
        },
{
    match require_field(req.name.as_str(), "Document name is required") {
        Ok(()) => {},
        Err(e) => {
            return Err(e);
        },
    }
    require_field(req.content.as_str(), "Document content is required")
}

/// A document's given name and content must not be blank.
pub fn validate_update_document(req: &UpdateDocumentRequest) -> (r: Result<(), ApiError>)
    ensures
        r is Ok <==> (match req.name {
            Some(n) => !blank(n@),
            None => true,
        } && match req.content {
            Some(c) => !blank(c@),
            None => true,
        }),
        r matches Err(e) ==> if req.name matches Some(n) && blank(n@) {
            is_validation(e, "Document name cannot be empty"@)
        } else {
            is_validation(e, "Document content cannot be empty"@)
        },
{
    match require_if_present(&req.name, "Document name cannot be empty") {
        Ok(()) => {},
        Err(e) => {
            return Err(e);
        },
    }
    require_if_present(&req.content, "Document content cannot be empty")
}

/// A new project needs a name.
pub fn validate_create_project(req: &CreateProjectRequest) -> (r: Result<(), ApiError>)
    ensures
        match r {
            Ok(()) => !blank(req.name@),
            Err(e) => blank(req.name@) && is_validation(e, "Project name is required"@),
        },
{
    require_field(req.name.as_str(), "Project name is required")
}

/// A project's given name must not be blank.
pub fn validate_update_project(req: &UpdateProjectRequest) -> (r: Result<(), ApiError>)
    ensures
        match req.name {
            Some(n) => match r {
                Ok(()) => !blank(n@),
                Err(e) => blank(n@) && is_validation(e, "Project name cannot be empty"@),
            },
            None => r is Ok,
        },
{
    require_if_present(&req.name, "Project name cannot be empty")
}

/// A new directory needs a name.
pub fn validate_create_directory(req: &CreateDirectoryRequest) -> (r: Result<(), ApiError>)
    ensures
        match r {
            Ok(()) => !blank(req.name@),
            Err(e) => blank(req.name@) && is_validation(e, "Directory name is required"@),
        },
{
    require_field(req.name.as_str(), "Directory name is required")
}

/// A directory's given name must not be blank.
pub fn validate_update_directory(req: &UpdateDirectoryRequest) -> (r: Result<(), ApiError>)
    ensures
        match req.name {
            Some(n) => match r {
                Ok(()) => !blank(n@),
                Err(e) => blank(n@) && is_validation(e, "Directory name cannot be empty"@),
            },
            None => r is Ok,
        },
{
    require_if_present(&req.name, "Directory name cannot be empty")
}

/// A new category needs a name.
pub fn validate_create_category(req: &CreateCategoryRequest) -> (r: Result<(), ApiError>)
    ensures
        match r {
            Ok(()) => !blank(req.name@),
            Err(e) => blank(req.name@) && is_validation(e, "Category name is required"@),
        },
{
    require_field(req.name.as_str(), "Category name is required")
}

/// A category's given name must not be blank.
pub fn validate_update_category(req: &UpdateCategoryRequest) -> (r: Result<(), ApiError>)
    ensures
        match req.name {
            Some(n) => match r {
                Ok(()) => !blank(n@),
                Err(e) => blank(n@) && is_validation(e, "Category name cannot be empty"@),
            },
            None => r is Ok,
        },
{
    require_if_present(&req.name, "Category name cannot be empty")
}

/// `"Cannot delete category '<name>': <count> blog(s) are associated with
/// this category"`.
pub open spec fn category_in_use_message(name: Seq<char>, count: i64) -> Seq<char> {
    "Cannot delete category '"@ + name + "': "@ + decimal(count as int)
        + " blog(s) are associated with this category"@
}

/// A category can be deleted only while no blog is filed under it.
pub fn ensure_category_unused(name: &str, blog_count: i64) -> (r: Result<(), ApiError>)
    ensures
        match r {
            Ok(()) => blog_count <= 0,
            Err(e) => blog_count > 0 && (e matches ApiError::BadRequest(m) && m@ == category_in_use_message(
                name@,
                blog_count,
            )),
        },
{
    if blog_count > 0 {
        let d = string_from_chars(i64_decimal(blog_count).as_slice());
        Err(
            ApiError::BadRequest(
                "Cannot delete category '".to_owned().concat(name).concat("': ").concat(d.as_str()).concat(
                    " blog(s) are associated with this category",
                ),
            ),
        )
    } else {
        Ok(())
    }
}

/// The name a new tag is stored under: trimmed, and not empty.
pub fn tag_name(name: &str) -> (r: Result<String, ApiError>)
    ensures
        match r {
            Ok(n) => !blank(name@) && n@ == trim_spec(name@),
            Err(e) => blank(name@) && is_validation(e, "Tag name is required"@),
        },
{
    let t = trim_str(name);
    if t.as_str().is_empty() {
        Err(ApiError::ValidationError(String::from_str("Tag name is required")))
    } else {
        Ok(t)
    }
}

/// A new text needs a name and content, and a password when it is
/// encrypted.
pub fn validate_create_text(
    name: &str,
    content: &str,
    is_encrypted: Option<bool>,
    has_view_password: bool,
) -> (r: Result<(), ApiError>)
    ensures
        r is Ok <==> (!blank(name@) && !blank(content@) && !(is_encrypted == Some(true)
            && !has_view_password)),
        r matches Err(e) ==> if blank(name@) {
            is_validation(e, "Text name is required"@)
        } else if blank(content@) {
            is_validation(e, "Text content is required"@)
        } else {
            is_validation(e, "Password is required for encrypted text"@)
        },
{
    match require_field(name, "Text name is required") {
        Ok(()) => {},
        Err(e) => {
            return Err(e);
        },
    }
    match require_field(content, "Text content is required") {
        Ok(()) => {},
        Err(e) => {
            return Err(e);
        },
    }
    let encrypted = match is_encrypted {
        Some(b) => b,
        None => false,
    };
    if encrypted && !has_view_password {
        return Err(ApiError::ValidationError(String::from_str("Password is required for encrypted text")));
    }
    Ok(())
}

/// A text's given name and content must not be blank.
pub fn validate_update_text(name: &Option<String>, content: &Option<String>) -> (r: Result<
    (),
    ApiError,
>)
    ensures
        r is Ok <==> (match name {
            Some(n) => !blank(n@),
            None => true,
        } && match content {
            Some(c) => !blank(c@),
            None => true,
        }),
        r matches Err(e) ==> if name matches Some(n) && blank(n@) {
            is_validation(e, "Text name cannot be empty"@)
        } else {
            is_validation(e, "Text content cannot be empty"@)
        },
{
    match require_if_present(name, "Text name cannot be empty") {
        Ok(()) => {},
        Err(e) => {
            return Err(e);
        },
    }
    require_if_present(content, "Text content cannot be empty")
}

/// A login needs a user name and a password.
pub fn validate_login(username: &str, password: &str) -> (r: Result<(), ApiError>)
    ensures
        r is Ok <==> (!blank(username@) && password@.len() > 0),
        r matches Err(e) ==> if blank(username@) {
            is_validation(e, "Username is required"@)
        } else {
            is_validation(e, "Password is required"@)
        },
{
    match require_field(username, "Username is required") {
        Ok(()) => {},
        Err(e) => {
            return Err(e);
        },
    }
    if password.is_empty() {
        return Err(ApiError::ValidationError(String::from_str("Password is required")));
    }
    Ok(())
}

/// The answer to a failed login, whatever the reason.
pub fn invalid_credentials() -> (e: ApiError)
    ensures
        e matches ApiError::Unauthorized(m) && m@ == "Invalid username or password"@,
{
    ApiError::Unauthorized(String::from_str("Invalid username or password"))
}

/// A refresh needs a token.
pub fn validate_refresh(refresh_token: &str) -> (r: Result<(), ApiError>)
    ensures
        match r {
            Ok(()) => !blank(refresh_token@),
            Err(e) => blank(refresh_token@) && is_validation(e, "Refresh token is required"@),
        },
{
    require_field(refresh_token, "Refresh token is required")
}

/// The first administrator can be set up only while there is no user, with
/// a user name and a password of at least 6 bytes.
pub fn validate_setup_admin(user_count: i64, username: &str, password: &str) -> (r: Result<
    (),
    ApiError,
>)
    ensures
        r is Ok <==> (user_count <= 0 && !blank(username@) && encode_utf8(password@).len() >= 6),
        r matches Err(e) ==> if user_count > 0 {
            is_validation(e, "Admin user already exists. Please use login instead."@)
        } else if blank(username@) {
            is_validation(e, "Username is required"@)
        } else {
            is_validation(e, "Password must be at least 6 characters"@)
        },
{
    if user_count > 0 {
        return Err(
            ApiError::ValidationError(
                String::from_str("Admin user already exists. Please use login instead."),
            ),
        );
    }
    match require_field(username, "Username is required") {
        Ok(()) => {},
        Err(e) => {
            return Err(e);
        },
    }
    let pv = chars_of(password);
    if !utf8_len_exceeds(pv.as_slice(), 5) {
        return Err(ApiError::ValidationError(String::from_str("Password must be at least 6 characters")));
    }
    Ok(())
}

/// A search needs a keyword (already trimmed).
pub fn validate_search_keyword(keyword: &str) -> (r: Result<(), ApiError>)
    ensures
        match r {
            Ok(()) => keyword@.len() > 0,
            Err(e) => keyword@.len() == 0 && is_validation(e, "Search keyword 'q' is required"@),
        },
{
    if keyword.is_empty() {
        Err(ApiError::ValidationError(String::from_str("Search keyword 'q' is required")))
    } else {
        Ok(())
    }
}

} // verus!
