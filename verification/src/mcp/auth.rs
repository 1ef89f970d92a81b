//! Access to the MCP endpoint: the runtime settings, the bearer token (its
//! issue, storage as an Argon2 hash, and masking), and the decision taken
//! on each request.

use vstd::prelude::*;
use argon2::PasswordHasher;
use argon2::PasswordVerifier;
use crate::error::ApiError;
use crate::models::Timestamp;
use crate::text::{chars_of, starts_with, starts_with_spec, string_from_chars, u64_decimal, decimal};

verus! {

broadcast use vstd::string::group_string_axioms;

// ---------------------------------------------------------------------
// Outside items: Argon2 password hashing, UUIDs, RFC 3339 dates
// ---------------------------------------------------------------------

/// The error type of the `password-hash` crate.
#[verifier::external_type_specification]
#[verifier::external_body]
pub struct ExPasswordHashError(argon2::password_hash::Error);

/// The error type of chrono's date parsers.
#[verifier::external_type_specification]
#[verifier::external_body]
pub struct ExChronoParseError(chrono::ParseError);

/// Whether `PasswordHash::new` accepts `hash` as a PHC string.
pub uninterp spec fn phc_parses(hash: Seq<char>) -> bool;

/// Whether Argon2 with its default settings accepts `secret` against the
/// PHC string `hash` (`Argon2::default().verify_password`).
pub uninterp spec fn argon2_accepts(secret: Seq<char>, hash: Seq<char>) -> bool;

/// The instant that `DateTime::parse_from_rfc3339` reads from `text`, in
/// UTC; `None` when it rejects the text.
pub uninterp spec fn rfc3339_instant(text: Seq<char>) -> Option<Timestamp>;

/// `PasswordHash::new(hash).is_ok()`: the result is the name `phc_parses`
/// of the text; the PHC grammar itself is not stated.
#[verifier::external_body]
fn phc_string_parses(hash: &str) -> (b: bool)
    ensures
        b == phc_parses(hash@),
{
    argon2::PasswordHash::new(hash).is_ok()
}

/// `Argon2::default().verify_password(secret, &PasswordHash::new(hash)?)`
/// for a hash that parses: the result is the name `argon2_accepts`; the
/// Argon2 computation is not stated.
#[verifier::external_body]
fn argon2_verify(secret: &str, hash: &str) -> (b: bool)
    requires
        phc_parses(hash@),
    ensures
        b == argon2_accepts(secret@, hash@),
{
    match argon2::PasswordHash::new(hash) {
        Ok(parsed) => argon2::Argon2::default().verify_password(secret.as_bytes(), &parsed).is_ok(),
        Err(_) => false,
    }
}

/// `Argon2::default().hash_password(secret, &SaltString::generate(&mut
/// OsRng))`, rendered as a PHC string. The salt is random, so nothing names
/// the result; what is claimed of every outcome is what the crate's design
/// gives: the string parses again and the same Argon2 settings accept
/// `secret` against it. That Argon2 rejects other secrets is not stated.
#[verifier::external_body]
fn argon2_hash(secret: &str) -> (r: Result<String, argon2::password_hash::Error>)
    ensures
        r matches Ok(h) ==> phc_parses(h@) && argon2_accepts(secret@, h@),
{
    let salt = argon2::password_hash::SaltString::generate(&mut argon2::password_hash::rand_core::OsRng);
    match argon2::Argon2::default().hash_password(secret.as_bytes(), &salt) {
        Ok(h) => Ok(h.to_string()),
        Err(e) => Err(e),
    }
}

/// `Uuid::new_v4().simple().to_string()`: a random UUID, claimed only to be
/// 32 lower-case hexadecimal digits (the `Simple` format).
#[verifier::external_body]
fn random_uuid_hex() -> (r: String)
    ensures
        r@.len() == 32,
        forall|i: int| 0 <= i < 32 ==> is_lower_hex(#[trigger] r@[i]),
{
    uuid::Uuid::new_v4().simple().to_string()
}

/// `DateTime::parse_from_rfc3339(text)` moved to UTC: the result is the
/// name `rfc3339_instant` of the text; the RFC 3339 grammar is not stated.
#[verifier::external_body]
fn parse_rfc3339(text: &str) -> (r: Result<Timestamp, chrono::ParseError>)
    ensures
        match r {
            Ok(t) => rfc3339_instant(text@) == Some(t),
            Err(_) => rfc3339_instant(text@) is None,
        },
{
    match chrono::DateTime::parse_from_rfc3339(text) {
        Ok(dt) => Ok(
            Timestamp {
                secs: dt.timestamp(),
                nanos: dt.timestamp_subsec_nanos(),
            },
        ),
        Err(e) => Err(e),
    }
}

// ---------------------------------------------------------------------
// Tokens and their hashes
// ---------------------------------------------------------------------

/// `c` is a lower-case hexadecimal digit.
pub open spec fn is_lower_hex(c: char) -> bool {
    ('0' <= c && c <= '9') || ('a' <= c && c <= 'f')
}

/// The prefix of every MCP token.
pub open spec fn token_prefix() -> Seq<char> {
    "ddb_mcp_"@
}

/// `t` has the shape of an issued token: the prefix, then 64 lower-case
/// hexadecimal digits.
pub open spec fn is_mcp_token(t: Seq<char>) -> bool {
    &&& t.len() == 72
    &&& t.take(8) == token_prefix()
    &&& forall|i: int| 8 <= i < 72 ==> is_lower_hex(#[trigger] t[i])
}

/// A new random token: `ddb_mcp_` followed by two random UUIDs in their
/// 32-digit hexadecimal form.
pub fn generate_mcp_token() -> (r: String)
    ensures
        is_mcp_token(r@),
{
    let a = random_uuid_hex();
    let b = random_uuid_hex();
    let r = String::from_str("ddb_mcp_").concat(a.as_str()).concat(b.as_str());
    proof {
        reveal_strlit("ddb_mcp_");
        assert(r@.take(8) =~= token_prefix());
        assert forall|i: int| 8 <= i < 72 implies is_lower_hex(#[trigger] r@[i]) by {
            if i < 40 {
                assert(r@[i] == a@[i - 8]);
            } else {
                assert(r@[i] == b@[i - 40]);
            }
        }
    }
    r
}

/// What checking `secret` against `hash` gives: `None` when the hash does
/// not parse (an error), else whether Argon2 accepts the secret.
pub open spec fn verify_secret_spec(secret: Seq<char>, hash: Seq<char>) -> Option<bool> {
    if phc_parses(hash) {
        Some(argon2_accepts(secret, hash))
    } else {
        None
    }
}

/// Hashes `secret` with a fresh random salt: `None` when Argon2 fails, else
/// a PHC string that verifies `secret`.
pub fn argon2_hash_secret(secret: &str) -> (r: Option<String>)
    ensures
        r matches Some(h) ==> verify_secret_spec(secret@, h@) == Some(true),
{
    match argon2_hash(secret) {
        Ok(h) => Some(h),
        Err(_) => None,
    }
}

/// Stores `secret` as an Argon2 PHC string with a fresh random salt. On
/// success the hash parses and Argon2 accepts `secret` against it; on
/// failure the error is `InternalError("Failed to hash MCP token")`.
pub fn hash_secret(secret: &str) -> (r: Result<String, ApiError>)
    ensures
        match r {
            Ok(h) => verify_secret_spec(secret@, h@) == Some(true),
            Err(e) => e matches ApiError::InternalError(m) && m@ == "Failed to hash MCP token"@,
        },
{
    match argon2_hash_secret(secret) {
        Some(h) => Ok(h),
        None => Err(ApiError::InternalError(String::from_str("Failed to hash MCP token"))),
    }
}

/// Checks `secret` against the PHC string `secret_hash`: an
/// `InternalError("MCP token verification failed")` when the hash does not
/// parse, else whether Argon2 accepts the secret.
pub fn verify_secret(secret: &str, secret_hash: &str) -> (r: Result<bool, ApiError>)
    ensures
        match r {
            Ok(b) => verify_secret_spec(secret@, secret_hash@) == Some(b),
            Err(e) => verify_secret_spec(secret@, secret_hash@) is None && (e matches ApiError::InternalError(m)
                && m@ == "MCP token verification failed"@),
        },
{
    if !phc_string_parses(secret_hash) {
        return Err(ApiError::InternalError(String::from_str("MCP token verification failed")));
    }
    Ok(argon2_verify(secret, secret_hash))
}

/// A secret that was hashed verifies against its hash.
pub proof fn lemma_hashed_secret_verifies(secret: Seq<char>, hash: Seq<char>)
    requires
        phc_parses(hash),
        argon2_accepts(secret, hash),
    ensures
        verify_secret_spec(secret, hash) == Some(true),
{
}

/// The masked form of a token from its last four characters.
pub open spec fn mask_token_spec(last_four: Seq<char>) -> Seq<char> {
    "********"@ + last_four
}

/// The token shown to administrators: eight `*` then the last four
/// characters.
pub fn mask_token(last_four: &str) -> (r: String)
    ensures
        r@ == mask_token_spec(last_four@),
{
    String::from_str("********").concat(last_four)
}

/// The last four characters of `s` (all of it when shorter).
pub open spec fn last_four_spec(s: Seq<char>) -> Seq<char> {
    if s.len() <= 4 {
        s
    } else {
        s.skip(s.len() - 4)
    }
}

/// The last four characters of `s`.
pub fn last_four_chars(s: &str) -> (r: String)
    ensures
        r@ == last_four_spec(s@),
{
    let v = chars_of(s);
    let n = v.len();
    let start: usize = if n <= 4 {
        0
    } else {
        n - 4
    };
    let tail = string_from_chars(&v.as_slice()[start..n]);
    proof {
        if n <= 4 {
            assert(v@.subrange(0, n as int) =~= s@);
        } else {
            assert(v@.subrange(start as int, n as int) =~= s@.skip(n - 4));
        }
    }
    tail
}

/// A freshly issued token with what is stored of it.
pub struct IssuedMcpToken {
    pub token: String,
    pub token_hash: String,
    pub last_four: String,
    pub token_masked: String,
}

/// Issues a new token: its hash verifies it, its last four characters and
/// masked form are those of the token.
pub fn issue_mcp_token() -> (r: Result<IssuedMcpToken, ApiError>)
    ensures
        match r {
            Ok(t) => {
                &&& is_mcp_token(t.token@)
                &&& verify_secret_spec(t.token@, t.token_hash@) == Some(true)
                &&& t.last_four@ == last_four_spec(t.token@)
                &&& t.token_masked@ == mask_token_spec(t.last_four@)
            },
            Err(e) => e matches ApiError::InternalError(m) && m@ == "Failed to hash MCP token"@,
        },
{
    let token = generate_mcp_token();
    let token_hash = match hash_secret(token.as_str()) {
        Ok(h) => h,
        Err(e) => {
            return Err(e);
        },
    };
    let last_four = last_four_chars(token.as_str());
    let token_masked = mask_token(last_four.as_str());
    Ok(IssuedMcpToken { token, token_hash, last_four, token_masked })
}

/// An issued token is 72 characters, is accepted against its stored hash,
/// and its masked form is twelve characters ending in its last four.
pub proof fn lemma_issued_token(t: Seq<char>, hash: Seq<char>)
    requires
        is_mcp_token(t),
        verify_secret_spec(t, hash) == Some(true),
    ensures
        last_four_spec(t).len() == 4,
        last_four_spec(t) == t.skip(68),
        mask_token_spec(last_four_spec(t)).len() == 12,
        mask_token_spec(last_four_spec(t)).skip(8) == last_four_spec(t),
{
    reveal_strlit("********");
    assert(mask_token_spec(last_four_spec(t)).skip(8) =~= last_four_spec(t));
}

// ---------------------------------------------------------------------
// Runtime settings
// ---------------------------------------------------------------------

/// The MCP settings read from the site configuration.
pub struct McpRuntimeConfig {
    pub enabled: bool,
    pub token_hash: Option<String>,
    pub token_last_four: Option<String>,
    pub token_rotated_at: Option<String>,
}

/// A token hash is stored and is not empty.
pub open spec fn token_initialized_spec(c: McpRuntimeConfig) -> bool {
    match c.token_hash {
        Some(h) => h@.len() > 0,
        None => false,
    }
}

impl McpRuntimeConfig {
    /// Whether a non-empty token hash is stored.
    pub fn token_initialized(&self) -> (b: bool)
        ensures
            b == token_initialized_spec(*self),
    {
        match &self.token_hash {
            Some(h) => !h.as_str().is_empty(),
            None => false,
        }
    }

    /// The settings from the stored values: MCP is enabled unless the
    /// `mcp_enabled` value is present and other than `true`.
    pub fn from_settings(
        enabled: Option<String>,
        token_hash: Option<String>,
        token_last_four: Option<String>,
        token_rotated_at: Option<String>,
    ) -> (r: McpRuntimeConfig)
        ensures
            r.enabled == match enabled {
                Some(v) => v@ == "true"@,
                None => true,
            },
            r.token_hash == token_hash,
            r.token_last_four == token_last_four,
            r.token_rotated_at == token_rotated_at,
    {
        let on = match &enabled {
            Some(v) => {
                let a = chars_of(v.as_str());
                let b = chars_of("true");
                crate::text::chars_eq(a.as_slice(), b.as_slice())
            },
            None => true,
        };
        McpRuntimeConfig { enabled: on, token_hash, token_last_four, token_rotated_at }
    }
}

/// The instant of the last rotation: absent or empty text gives none, and
/// so does text that is not RFC 3339.
pub open spec fn rotated_at_spec(value: Option<Seq<char>>) -> Option<Timestamp> {
    match value {
        Some(v) => if v.len() == 0 {
            None
        } else {
            rfc3339_instant(v)
        },
        None => None,
    }
}

/// Reads the stored rotation time.
pub fn parse_rotated_at(value: Option<&str>) -> (r: Option<Timestamp>)
    ensures
        r == rotated_at_spec(match value {
            Some(v) => Some(v@),
            None => None,
        }),
{
    match value {
        Some(v) => {
            if v.is_empty() {
                None
            } else {
                match parse_rfc3339(v) {
                    Ok(t) => Some(t),
                    Err(_) => None,
                }
            }
        },
        None => None,
    }
}

/// The settings shown to administrators.
pub struct McpSettingsResponse {
    pub enabled: bool,
    pub endpoint: String,
    pub token_initialized: bool,
    pub token_masked: Option<String>,
    pub token_last_rotated_at: Option<Timestamp>,
}

/// The settings response for `config` served at `endpoint`.
pub fn settings_response(config: &McpRuntimeConfig, endpoint: String) -> (r: McpSettingsResponse)
    ensures
        r.enabled == config.enabled,
        r.endpoint == endpoint,
        r.token_initialized == token_initialized_spec(*config),
        match config.token_last_four {
            Some(l) => r.token_masked matches Some(m) && m@ == mask_token_spec(l@),
            None => r.token_masked is None,
        },
        r.token_last_rotated_at == rotated_at_spec(match config.token_rotated_at {
            Some(v) => Some(v@),
            None => None,
        }),
{
    let token_masked = match &config.token_last_four {
        Some(l) => Some(mask_token(l.as_str())),
        None => None,
    };
    let rotated = match &config.token_rotated_at {
        Some(v) => parse_rotated_at(Some(v.as_str())),
        None => parse_rotated_at(None),
    };
    McpSettingsResponse {
        enabled: config.enabled,
        endpoint,
        token_initialized: config.token_initialized(),
        token_masked,
        token_last_rotated_at: rotated,
    }
}

// ---------------------------------------------------------------------
// The endpoint address
// ---------------------------------------------------------------------

/// The host part of the endpoint when no request header names one.
pub open spec fn fallback_host(scheme: Seq<char>, server_host: Seq<char>, port: u16) -> Seq<char> {
    let host = if server_host == "0.0.0.0"@ || server_host == "::"@ {
        "localhost"@
    } else {
        server_host
    };
    let default_port = (scheme == "http"@ && port == 80) || (scheme == "https"@ && port == 443);
    if default_port {
        host
    } else {
        host + seq![':'] + decimal(port as int)
    }
}

/// The MCP endpoint URL. `forwarded_proto` is the readable value of
/// `X-Forwarded-Proto`; `forwarded_host` and `host` are the headers
/// `X-Forwarded-Host` and `Host`, `None` when absent and `Some(None)` when
/// present but not readable text. The first present of the two host headers
/// is used when readable; otherwise the server's own address.
pub open spec fn endpoint_spec(
    forwarded_proto: Option<Seq<char>>,
    forwarded_host: Option<Option<Seq<char>>>,
    host: Option<Option<Seq<char>>>,
    server_host: Seq<char>,
    port: u16,
) -> Seq<char> {
    let scheme = match forwarded_proto {
        Some(p) => p,
        None => "http"@,
    };
    let header_host = match forwarded_host {
        Some(h) => h,
        None => match host {
            Some(h) => h,
            None => None,
        },
    };
    let host_text = match header_host {
        Some(h) => h,
        None => fallback_host(scheme, server_host, port),
    };
    scheme + "://"@ + host_text + "/mcp"@
}

/// Text of an optional header value.
pub open spec fn header_view(h: Option<String>) -> Option<Seq<char>> {
    match h {
        Some(s) => Some(s@),
        None => None,
    }
}

/// Text of an optional header that may be unreadable.
pub open spec fn header_view2(h: Option<Option<String>>) -> Option<Option<Seq<char>>> {
    match h {
        Some(v) => Some(header_view(v)),
        None => None,
    }
}

fn str_eq(a: &str, b: &str) -> (r: bool)
    ensures
        r == (a@ == b@),
{
    let x = chars_of(a);
    let y = chars_of(b);
    crate::text::chars_eq(x.as_slice(), y.as_slice())
}

/// The address of the MCP endpoint as seen by the client.
pub fn resolve_mcp_endpoint(
    forwarded_proto: Option<String>,
    forwarded_host: Option<Option<String>>,
    host: Option<Option<String>>,
    server_host: &str,
    port: u16,
) -> (r: String)
    ensures
        r@ == endpoint_spec(
            header_view(forwarded_proto),
            header_view2(forwarded_host),
            header_view2(host),
            server_host@,
            port,
        ),
{
    let scheme: String = match forwarded_proto {
        Some(p) => p,
        None => String::from_str("http"),
    };
    let header_host: Option<String> = match forwarded_host {
        Some(h) => h,
        None => match host {
            Some(h) => h,
            None => None,
        },
    };
    let host_text: String = match header_host {
        Some(h) => h,
        None => {
            let base: String = if str_eq(server_host, "0.0.0.0") || str_eq(server_host, "::") {
                String::from_str("localhost")
            } else {
                server_host.to_owned()
            };
            let is_default = (str_eq(scheme.as_str(), "http") && port == 80) || (str_eq(
                scheme.as_str(),
                "https",
            ) && port == 443);
            if is_default {
                base
            } else {
                let mut v = chars_of(base.as_str());
                v.push(':');
                let digits = u64_decimal(port as u64);
                crate::text::append_chars(&mut v, digits.as_slice());
                string_from_chars(v.as_slice())
            }
        },
    };
    scheme.concat("://").concat(host_text.as_str()).concat("/mcp")
}

// ---------------------------------------------------------------------
// The access decision
// ---------------------------------------------------------------------

/// What the middleware does with a request.
pub enum McpAccess {
    /// Pass the request on.
    Allow,
    /// Answer with this HTTP status, the same number as the body's code,
    /// and this message.
    Deny(u16, String),
}

/// The mathematical form of [`McpAccess`].
pub enum McpAccessView {
    Allow,
    Deny(u16, Seq<char>),
}

impl View for McpAccess {
    type V = McpAccessView;

    open spec fn view(&self) -> McpAccessView {
        match self {
            McpAccess::Allow => McpAccessView::Allow,
            McpAccess::Deny(s, m) => McpAccessView::Deny(*s, m@),
        }
    }
}

/// The decision on a request: `runtime` is `None` when the settings could
/// not be loaded; `authorization` is the readable `Authorization` header.
/// Only an enabled endpoint with a stored token, reached with
/// `Bearer <token>` where Argon2 accepts the token against the stored hash,
/// is passed on.
pub open spec fn mcp_access_spec(
    runtime: Option<McpRuntimeConfig>,
    authorization: Option<Seq<char>>,
) -> McpAccessView {
    match runtime {
        None => McpAccessView::Deny(500, "Failed to load MCP configuration"@),
        Some(c) => if !c.enabled {
            McpAccessView::Deny(404, "MCP is disabled"@)
        } else if !token_initialized_spec(c) {
            McpAccessView::Deny(401, "MCP token not initialized"@)
        } else {
            match authorization {
                Some(a) => if starts_with_spec(a, "Bearer "@) {
                    let token = a.skip(7);
                    let hash = c.token_hash->0@;
                    match verify_secret_spec(token, hash) {
                        Some(true) => McpAccessView::Allow,
                        Some(false) => McpAccessView::Deny(401, "Invalid MCP token"@),
                        None => McpAccessView::Deny(500, "MCP token verification failed"@),
                    }
                } else {
                    McpAccessView::Deny(401, "Missing or invalid Authorization header"@)
                },
                None => McpAccessView::Deny(401, "Missing or invalid Authorization header"@),
            }
        },
    }
}

/// Decides whether a request may reach the MCP endpoint.
pub fn check_mcp_access(runtime: Option<&McpRuntimeConfig>, authorization: Option<&str>) -> (r:
    McpAccess)
    ensures
        r@ == mcp_access_spec(
            match runtime {
                Some(c) => Some(*c),
                None => None,
            },
            match authorization {
                Some(a) => Some(a@),
                None => None,
            },
        ),
{
    let c = match runtime {
        Some(c) => c,
        None => {
            return McpAccess::Deny(500, String::from_str("Failed to load MCP configuration"));
        },
    };
    if !c.enabled {
        return McpAccess::Deny(404, String::from_str("MCP is disabled"));
    }
    if !c.token_initialized() {
        return McpAccess::Deny(401, String::from_str("MCP token not initialized"));
    }
    let hash: &String = match &c.token_hash {
        Some(h) => h,
        None => {
            return McpAccess::Deny(401, String::from_str("MCP token not initialized"));
        },
    };
    let header = match authorization {
        Some(a) => a,
        None => {
            return McpAccess::Deny(401, String::from_str("Missing or invalid Authorization header"));
        },
    };
    let hv = chars_of(header);
    let prefix = chars_of("Bearer ");
    if !starts_with(hv.as_slice(), prefix.as_slice()) {
        return McpAccess::Deny(401, String::from_str("Missing or invalid Authorization header"));
    }
    proof {
        reveal_strlit("Bearer ");
    }
    let token = string_from_chars(&hv.as_slice()[7..hv.len()]);
    proof {
        assert(hv@.subrange(7, hv@.len() as int) =~= header@.skip(7));
    }
    match verify_secret(token.as_str(), hash.as_str()) {
        Ok(true) => McpAccess::Allow,
        Ok(false) => McpAccess::Deny(401, String::from_str("Invalid MCP token")),
        Err(_) => McpAccess::Deny(500, String::from_str("MCP token verification failed")),
    }
}

/// A request is passed on only when MCP is enabled, a token is stored, the
/// header carries a bearer token, and Argon2 accepts that token against
/// the stored hash.
pub proof fn lemma_access_requires_valid_token(
    runtime: Option<McpRuntimeConfig>,
    authorization: Option<Seq<char>>,
)
    requires
        mcp_access_spec(runtime, authorization) == McpAccessView::Allow,
    ensures
        runtime is Some,
        runtime->0.enabled,
        token_initialized_spec(runtime->0),
        authorization is Some,
        starts_with_spec(authorization->0, "Bearer "@),
        argon2_accepts(authorization->0.skip(7), runtime->0.token_hash->0@),
{
}

} // verus!
