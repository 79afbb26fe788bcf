//! Security checks: input validation, permissions, rate limiting and escaping.
use vstd::prelude::*;
use crate::string_map::StringMap;
use crate::time::{elapsed_between, elapsed_ms};
use crate::string_map::chars_of;
use crate::text::{concat2, contains_seq, decimal, decimal_string, str_contains, string_from_chars};
use crate::json::{json_compact_text, json_to_string, json_tree, nests_within};
use vstd::utf8::encode_utf8;

verus! {

/// Security settings.
#[derive(Debug, Clone)]
pub struct SecurityConfig {
    pub enable_authentication: bool,
    pub jwt_secret: Option<String>,
    pub jwt_expiration_seconds: u64,
    pub enable_authorization: bool,
    pub default_role: String,
    pub enable_rate_limiting: bool,
    pub requests_per_minute: u32,
    pub burst_size: u32,
    pub enable_cors: bool,
    pub allowed_origins: Vec<String>,
    pub enable_input_validation: bool,
    pub enable_https_redirect: bool,
    pub enable_security_headers: bool,
}

impl SecurityConfig {
    /// Authentication and authorization off, rate limiting at 60 requests a minute
    /// with bursts of 10, CORS for every origin, input validation and security
    /// headers on, sessions of one hour, default role "user".
    pub fn default() -> (c: SecurityConfig)
        ensures
            !c.enable_authentication,
            c.jwt_secret is None,
            c.jwt_expiration_seconds == 3600,
            !c.enable_authorization,
            c.default_role@ == "user"@,
            c.enable_rate_limiting,
            c.requests_per_minute == 60,
            c.burst_size == 10,
            c.enable_cors,
            c.allowed_origins@.len() == 1 && c.allowed_origins@[0]@ == "*"@,
            c.enable_input_validation,
            !c.enable_https_redirect,
            c.enable_security_headers,
    {
        let mut origins: Vec<String> = Vec::new();
        origins.push(String::from_str("*"));
        SecurityConfig {
            enable_authentication: false,
            jwt_secret: None,
            jwt_expiration_seconds: 3600,
            enable_authorization: false,
            default_role: String::from_str("user"),
            enable_rate_limiting: true,
            requests_per_minute: 60,
            burst_size: 10,
            enable_cors: true,
            allowed_origins: origins,
            enable_input_validation: true,
            enable_https_redirect: false,
            enable_security_headers: true,
        }
    }
}

/// A signed-in user.
#[derive(Debug, Clone)]
pub struct UserSession {
    pub user_id: String,
    pub username: String,
    pub roles: Vec<String>,
    pub permissions: Vec<String>,
    pub created_at: std::time::SystemTime,
    pub expires_at: std::time::SystemTime,
}

/// What is known of a request when it is checked.
#[derive(Debug, Clone)]
pub struct SecurityContext {
    pub session: Option<UserSession>,
    pub client_ip: Option<String>,
    pub user_agent: Option<String>,
    pub path: String,
    pub method: String,
}

/// Errors of the security checks.
#[derive(Debug)]
pub enum SecurityError {
    AuthenticationError { message: String },
    AuthorizationError { message: String, permission: String, resource: String },
    ValidationError { field: String, message: String },
    RateLimitExceeded { client_ip: String, limit: u32 },
    SecurityViolation { message: String },
    SessionError { message: String },
}

/// Whether `e` is a validation error of `field` with `message`.
pub open spec fn is_validation_error(e: SecurityError, field: Seq<char>, message: Seq<char>) -> bool {
    e matches SecurityError::ValidationError { field: f, message: m } && f@ == field && m@ == message
}

/// Whether `e` is an authorization error with these message, permission and resource.
pub open spec fn is_authorization_error(
    e: SecurityError,
    message: Seq<char>,
    permission: Seq<char>,
    resource: Seq<char>,
) -> bool {
    e matches SecurityError::AuthorizationError { message: m, permission: p, resource: r } && m@ == message
        && p@ == permission && r@ == resource
}

/// Whether `r` is the validation error of `field` with `message`.
pub open spec fn fails_validation(r: Result<(), SecurityError>, field: Seq<char>, message: Seq<char>) -> bool {
    r matches Err(e) && is_validation_error(e, field, message)
}

fn validation_error(field: &str, message: &str) -> (e: SecurityError)
    ensures
        is_validation_error(e, field@, message@),
{
    SecurityError::ValidationError { field: String::from_str(field), message: String::from_str(message) }
}

/// Whether a character beyond ASCII is alphabetic or numeric in the Unicode sense.
pub uninterp spec fn unicode_alphanumeric(c: char) -> bool;

/// Whether `c` is an ASCII letter or digit.
pub open spec fn ascii_alphanumeric(c: char) -> bool {
    ('a' <= c && c <= 'z') || ('A' <= c && c <= 'Z') || ('0' <= c && c <= '9')
}

/// Whether a character is alphabetic or numeric: on ASCII, exactly the letters
/// and digits.
pub open spec fn is_alphanumeric_char(c: char) -> bool {
    if (c as u32) < 128 {
        ascii_alphanumeric(c)
    } else {
        unicode_alphanumeric(c)
    }
}

/// `char::is_alphanumeric`: the Unicode Alphabetic or Numeric property, which on
/// ASCII characters holds exactly of the letters and digits.
#[verifier::external_body]
pub(crate) fn char_is_alphanumeric(c: char) -> (b: bool)
    ensures
        b == (if (c as u32) < 128 {
            ascii_alphanumeric(c)
        } else {
            unicode_alphanumeric(c)
        }),
{
    c.is_alphanumeric()
}

/// The characters an algorithm name may hold: letters, digits, `_` and `-`.
pub open spec fn algorithm_name_char(c: char) -> bool {
    is_alphanumeric_char(c) || c == '_' || c == '-'
}

/// Checks of request inputs.
pub struct InputValidator;

impl InputValidator {
    /// An algorithm name is non-empty, at most 100 bytes long, and made of letters,
    /// digits, `_` and `-`; the first check that fails gives the error.
    pub fn validate_algorithm_name(name: &str) -> (r: Result<(), SecurityError>)
        ensures
            name@.len() == 0 ==> fails_validation(r, "algorithm"@,
                "Algorithm name cannot be empty"@,
            ),
            name@.len() > 0 && name.len() > 100 ==> fails_validation(r, "algorithm"@,
                "Algorithm name too long"@,
            ),
            name@.len() > 0 && name.len() <= 100 && !(forall|i: int|
                0 <= i < name@.len() ==> #[trigger] algorithm_name_char(name@[i])) ==> fails_validation(r, "algorithm"@, "Algorithm name contains invalid characters"@),
            r is Ok <==> (name@.len() > 0 && name.len() <= 100 && forall|i: int|
                0 <= i < name@.len() ==> #[trigger] algorithm_name_char(name@[i])),
    {
        if name.is_empty() {
            return Err(validation_error("algorithm", "Algorithm name cannot be empty"));
        }
        if name.len() > 100 {
            return Err(validation_error("algorithm", "Algorithm name too long"));
        }
        let cs = crate::text::chars_of(name);
        let mut i: usize = 0;
        while i < cs.len()
            invariant
                cs@ == name@,
                name.len() <= 100,
                i <= cs@.len(),
                forall|j: int| 0 <= j < i ==> #[trigger] algorithm_name_char(name@[j]),
            decreases cs@.len() - i,
        {
            let c = cs[i];
            if !(char_is_alphanumeric(c) || c == '_' || c == '-') {
                assert(!algorithm_name_char(name@[i as int]));
                return Err(validation_error("algorithm", "Algorithm name contains invalid characters"));
            }
            i += 1;
        }
        Ok(())
    }

    /// A task id is non-empty, at most 256 bytes long, and holds none of `..`, `/`
    /// and `\`; the first check that fails gives the error.
    pub fn validate_task_id(task_id: &str) -> (r: Result<(), SecurityError>)
        ensures
            task_id@.len() == 0 ==> fails_validation(r, "task_id"@,
                "Task ID cannot be empty"@,
            ),
            task_id@.len() > 0 && task_id.len() > 256 ==> fails_validation(r, "task_id"@,
                "Task ID too long"@,
            ),
            task_id@.len() > 0 && task_id.len() <= 256 && has_path_characters(task_id@) ==> fails_validation(r, "task_id"@, "Task ID contains invalid characters"@),
            r is Ok <==> (task_id@.len() > 0 && task_id.len() <= 256 && !has_path_characters(task_id@)),
    {
        if task_id.is_empty() {
            return Err(validation_error("task_id", "Task ID cannot be empty"));
        }
        if task_id.len() > 256 {
            return Err(validation_error("task_id", "Task ID too long"));
        }
        if str_contains(task_id, "..") || str_contains(task_id, "/") || str_contains(task_id, "\\") {
            return Err(validation_error("task_id", "Task ID contains invalid characters"));
        }
        Ok(())
    }
}

/// The nesting of a JSON value: a scalar, or an array or object with its member
/// values in order.
#[derive(Debug)]
pub enum JsonShape {
    Leaf,
    Array(Vec<JsonShape>),
    Object(Vec<JsonShape>),
}

/// How many levels of arrays and objects lie below a value: none below a scalar
/// or an empty container, else one more than below its deepest member.
pub open spec fn nesting(v: JsonShape) -> nat
    decreases v,
{
    match v {
        JsonShape::Leaf => 0,
        JsonShape::Array(items) => members_nesting(items@),
        JsonShape::Object(items) => members_nesting(items@),
    }
}

/// The nesting of a container with these members.
pub open spec fn members_nesting(items: Seq<JsonShape>) -> nat
    decreases items,
{
    if items.len() == 0 {
        0
    } else {
        let rest = members_nesting(items.drop_last());
        let last = 1 + nesting(items.last());
        if rest < last {
            last
        } else {
            rest
        }
    }
}

/// Largest text of parameters accepted, in bytes.
pub const MAX_PARAMS_BYTES: usize = 1048576;

/// Deepest nesting of parameters accepted.
pub const MAX_PARAMS_NESTING: usize = 10;

/// `a`, or `usize::MAX` where `a` does not fit in a `usize`.
pub open spec fn capped(a: int) -> int {
    if a < usize::MAX {
        a
    } else {
        usize::MAX as int
    }
}

/// The depth below `value` counted from `current_depth`, capped at `usize::MAX`.
fn check_json_depth(value: &JsonShape, current_depth: usize) -> (d: usize)
    ensures
        d == capped(current_depth + nesting(*value)),
    decreases value,
{
    match value {
        JsonShape::Leaf => current_depth,
        JsonShape::Array(items) => members_depth(items, current_depth),
        JsonShape::Object(items) => members_depth(items, current_depth),
    }
}

/// The depth below a container with these members, counted from `current_depth`.
fn members_depth(items: &Vec<JsonShape>, current_depth: usize) -> (d: usize)
    ensures
        d == capped(current_depth + members_nesting(items@)),
    decreases items,
{
    let mut max_depth = current_depth;
    let mut i: usize = 0;
    while i < items.len()
        invariant
            i <= items@.len(),
            max_depth == capped(current_depth + members_nesting(items@.take(i as int))),
        decreases items@.len() - i,
    {
        proof {
            assert(items@.take(i as int + 1).drop_last() =~= items@.take(i as int));
            assert(decreases_to!(items => items@[i as int]));
        }
        let child = check_json_depth(&items[i], current_depth.saturating_add(1));
        if max_depth < child {
            max_depth = child;
        }
        i += 1;
    }
    assert(items@.take(items@.len() as int) =~= items@);
    max_depth
}

impl InputValidator {
    /// Parameters whose JSON text takes `text_len` bytes and whose nesting is that
    /// of `shape` are accepted if the text takes at most 1 MiB and the nesting is
    /// at most 10 levels; the first check that fails gives the error.
    pub fn check_json_params(text_len: usize, shape: &JsonShape) -> (r: Result<(), SecurityError>)
        ensures
            text_len > MAX_PARAMS_BYTES ==> fails_validation(r, "parameters"@, "Parameters too large"@),
            text_len <= MAX_PARAMS_BYTES && nesting(*shape) > MAX_PARAMS_NESTING ==> fails_validation(
                r,
                "parameters"@,
                "Parameters nesting too deep"@,
            ),
            r is Ok <==> (text_len <= MAX_PARAMS_BYTES && nesting(*shape) <= MAX_PARAMS_NESTING),
    {
        if text_len > MAX_PARAMS_BYTES {
            return Err(validation_error("parameters", "Parameters too large"));
        }
        if check_json_depth(shape, 0) > MAX_PARAMS_NESTING {
            return Err(validation_error("parameters", "Parameters nesting too deep"));
        }
        Ok(())
    }

    /// Checks request parameters: their JSON text must be writable and at most
    /// 1 MiB long, and they may nest at most 10 levels deep; the first check that
    /// fails gives the error.
    pub fn validate_json_params(params: &serde_json::Value) -> (r: Result<(), SecurityError>)
        ensures
            params_text_bytes(*params) > MAX_PARAMS_BYTES ==> fails_validation(
                r,
                "parameters"@,
                "Parameters too large"@,
            ),
            params_text_bytes(*params) <= MAX_PARAMS_BYTES && !nests_within(json_tree(*params), MAX_PARAMS_NESTING as nat)
                ==> fails_validation(r, "parameters"@, "Parameters nesting too deep"@),
            r is Ok <==> (params_text_bytes(*params) <= MAX_PARAMS_BYTES && nests_within(
                json_tree(*params),
                MAX_PARAMS_NESTING as nat,
            )),
    {
        let text = match json_to_string(params) {
            Some(t) => t,
            None => return Err(validation_error("parameters", "Failed to serialize parameters")),
        };
        let shape = json_shape(params);
        let n = text.as_str().as_bytes().len();
        assert(n == encode_utf8(text@).len());
        assert(nests_within(json_tree(*params), MAX_PARAMS_NESTING as nat) <==> nesting(shape) <= MAX_PARAMS_NESTING);
        Self::check_json_params(n, &shape)
    }
}

/// Bytes of the compact JSON text of a value.
pub open spec fn params_text_bytes(v: serde_json::Value) -> nat {
    encode_utf8(json_compact_text(json_tree(v))).len()
}

/// The nesting of a JSON value, read from serde_json's `Value` variants: arrays
/// with their elements, objects with their values in serde_json's order, and
/// every other variant as a scalar; so the shape nests as deep as the value.
#[verifier::external_body]
fn json_shape(v: &serde_json::Value) -> (s: JsonShape)
    ensures
        forall|d: nat| #[trigger] nests_within(json_tree(*v), d) <==> nesting(s) <= d,
{
    match v {
        serde_json::Value::Array(items) => JsonShape::Array(items.iter().map(json_shape).collect()),
        serde_json::Value::Object(members) => JsonShape::Object(members.values().map(json_shape).collect()),
        _ => JsonShape::Leaf,
    }
}

/// Whether `s` holds `..`, `/` or `\`.
pub open spec fn has_path_characters(s: Seq<char>) -> bool {
    contains_seq(s, ".."@) || contains_seq(s, "/"@) || contains_seq(s, "\\"@)
}


/// Whether `s` is one of the strings of `v`.
pub open spec fn has_string(v: Seq<String>, s: Seq<char>) -> bool {
    exists|i: int| 0 <= i < v.len() && #[trigger] v[i]@ == s
}

/// Whether `s` is one of the strings of `v`.
pub fn contains_string(v: &Vec<String>, s: &String) -> (b: bool)
    ensures
        b == has_string(v@, s@),
{
    let mut i: usize = 0;
    while i < v.len()
        invariant
            i <= v@.len(),
            forall|j: int| 0 <= j < i ==> #[trigger] v@[j]@ != s@,
        decreases v@.len() - i,
    {
        if v[i] == *s {
            assert(v@[i as int]@ == s@);
            return true;
        }
        i += 1;
    }
    false
}

/// Whether `r` is the authorization error with these message, permission and resource.
pub open spec fn fails_authorization(
    r: Result<(), SecurityError>,
    message: Seq<char>,
    permission: Seq<char>,
    resource: Seq<char>,
) -> bool {
    r matches Err(e) && is_authorization_error(e, message, permission, resource)
}

/// The permission needed to run an algorithm.
pub open spec fn execute_permission(algorithm: Seq<char>) -> Seq<char> {
    "execute:"@ + algorithm
}

/// Checks of what a session may do.
pub struct PermissionChecker;

impl PermissionChecker {
    /// With authorization on, running `algorithm` needs a session holding the
    /// permission `execute:<algorithm>`; with it off, everything is allowed.
    pub fn check_algorithm_permission(
        session: &Option<UserSession>,
        algorithm: &str,
        config: &SecurityConfig,
    ) -> (r: Result<(), SecurityError>)
        ensures
            !config.enable_authorization ==> r is Ok,
            config.enable_authorization && session is None ==> fails_authorization(
                r,
                "No active session"@,
                execute_permission(algorithm@),
                algorithm@,
            ),
            config.enable_authorization && session is Some && !has_string(session->0.permissions@,
                execute_permission(algorithm@),
            ) ==> fails_authorization(
                r,
                "User "@ + session->0.username@ + " does not have permission to execute "@ + algorithm@,
                execute_permission(algorithm@),
                algorithm@,
            ),
            r is Ok <==> (!config.enable_authorization || (session is Some && has_string(session->0.permissions@,
                execute_permission(algorithm@),
            ))),
    {
        if !config.enable_authorization {
            return Ok(());
        }
        let required = concat2("execute:", algorithm);
        match session {
            None => Err(
                SecurityError::AuthorizationError {
                    message: String::from_str("No active session"),
                    permission: required,
                    resource: String::from_str(algorithm),
                },
            ),
            Some(u) => {
                if contains_string(&u.permissions, &required) {
                    Ok(())
                } else {
                    let message = concat2(
                        concat2("User ", u.username.as_str()).as_str(),
                        concat2(" does not have permission to execute ", algorithm).as_str(),
                    );
                    assert(message@ == "User "@ + u.username@ + " does not have permission to execute "@
                        + algorithm@);
                    Err(
                        SecurityError::AuthorizationError {
                            message,
                            permission: required,
                            resource: String::from_str(algorithm),
                        },
                    )
                }
            },
        }
    }

    /// Administration needs a session holding the permission `admin:*`.
    pub fn check_admin_permission(session: &Option<UserSession>) -> (r: Result<(), SecurityError>)
        ensures
            session is None ==> fails_authorization(r, "No active session"@, "admin:*"@, "*"@),
            session is Some && !has_string(session->0.permissions@, "admin:*"@) ==> fails_authorization(
                r,
                "User "@ + session->0.username@ + " does not have admin permissions"@,
                "admin:*"@,
                "*"@,
            ),
            r is Ok <==> (session is Some && has_string(session->0.permissions@, "admin:*"@)),
    {
        match session {
            None => Err(
                SecurityError::AuthorizationError {
                    message: String::from_str("No active session"),
                    permission: String::from_str("admin:*"),
                    resource: String::from_str("*"),
                },
            ),
            Some(u) => {
                let admin = String::from_str("admin:*");
                if contains_string(&u.permissions, &admin) {
                    Ok(())
                } else {
                    let message = concat2(
                        concat2("User ", u.username.as_str()).as_str(),
                        " does not have admin permissions",
                    );
                    Err(
                        SecurityError::AuthorizationError {
                            message,
                            permission: admin,
                            resource: String::from_str("*"),
                        },
                    )
                }
            },
        }
    }
}


/// The text of a security error.
pub open spec fn security_error_text(e: SecurityError) -> Seq<char> {
    match e {
        SecurityError::AuthenticationError { message } => "Authentication error: "@ + message@,
        SecurityError::AuthorizationError { message, permission, resource } => "Authorization error: permission '"@
            + permission@ + "' denied for resource '"@ + resource@ + "' - "@ + message@,
        SecurityError::ValidationError { field, message } => "Validation error in field '"@ + field@ + "': "@
            + message@,
        SecurityError::RateLimitExceeded { client_ip, limit } => "Rate limit exceeded for client "@ + client_ip@
            + ", limit: "@ + decimal(limit as nat) + " requests/minute"@,
        SecurityError::SecurityViolation { message } => "Security violation: "@ + message@,
        SecurityError::SessionError { message } => "Session error: "@ + message@,
    }
}

impl SecurityError {
    /// The text of the error, as it is displayed.
    pub fn to_message(&self) -> (s: String)
        ensures
            s@ == security_error_text(*self),
    {
        match self {
            SecurityError::AuthenticationError { message } => concat2("Authentication error: ", message.as_str()),
            SecurityError::AuthorizationError { message, permission, resource } => {
                let mut s = String::from_str("Authorization error: permission '");
                s.append(permission.as_str());
                s.append("' denied for resource '");
                s.append(resource.as_str());
                s.append("' - ");
                s.append(message.as_str());
                s
            },
            SecurityError::ValidationError { field, message } => {
                let mut s = String::from_str("Validation error in field '");
                s.append(field.as_str());
                s.append("': ");
                s.append(message.as_str());
                s
            },
            SecurityError::RateLimitExceeded { client_ip, limit } => {
                let mut s = String::from_str("Rate limit exceeded for client ");
                s.append(client_ip.as_str());
                s.append(", limit: ");
                let n = decimal_string(*limit as u64);
                s.append(n.as_str());
                s.append(" requests/minute");
                s
            },
            SecurityError::SecurityViolation { message } => concat2("Security violation: ", message.as_str()),
            SecurityError::SessionError { message } => concat2("Session error: ", message.as_str()),
        }
    }
}

/// The escape of one character: `&`, `<`, `>`, `"` and `'` become `&amp;`,
/// `&lt;`, `&gt;`, `&quot;` and `&#x27;`; any other character stays.
pub open spec fn escape_char(c: char) -> Seq<char> {
    if c == '&' {
        "&amp;"@
    } else if c == '<' {
        "&lt;"@
    } else if c == '>' {
        "&gt;"@
    } else if c == '"' {
        "&quot;"@
    } else if c == '\'' {
        "&#x27;"@
    } else {
        seq![c]
    }
}

/// The escaping of `sanitize_input`: each character of the text in turn, escaped
/// once by `escape_char`.
pub open spec fn sanitized(s: Seq<char>) -> Seq<char>
    decreases s.len(),
{
    if s.len() == 0 {
        Seq::empty()
    } else {
        sanitized(s.drop_last()) + escape_char(s.last())
    }
}

/// Escapes the characters that have a meaning in markup, each once.
pub fn sanitize_input(input: &str) -> (s: String)
    ensures
        s@ == sanitized(input@),
{
    let cs = crate::text::chars_of(input);
    let amp = crate::text::chars_of("&amp;");
    let lt = crate::text::chars_of("&lt;");
    let gt = crate::text::chars_of("&gt;");
    let quot = crate::text::chars_of("&quot;");
    let apos = crate::text::chars_of("&#x27;");
    let mut r: Vec<char> = Vec::new();
    let mut i: usize = 0;
    while i < cs.len()
        invariant
            i <= cs@.len(),
            cs@ == input@,
            amp@ == "&amp;"@,
            lt@ == "&lt;"@,
            gt@ == "&gt;"@,
            quot@ == "&quot;"@,
            apos@ == "&#x27;"@,
            r@ == sanitized(cs@.take(i as int)),
        decreases cs@.len() - i,
    {
        let c = cs[i];
        let ghost before = r@;
        if c == '&' {
            r.extend_from_slice(amp.as_slice());
        } else if c == '<' {
            r.extend_from_slice(lt.as_slice());
        } else if c == '>' {
            r.extend_from_slice(gt.as_slice());
        } else if c == '"' {
            r.extend_from_slice(quot.as_slice());
        } else if c == '\'' {
            r.extend_from_slice(apos.as_slice());
        } else {
            r.push(c);
        }
        assert(r@ =~= before + escape_char(c));
        assert(cs@.take(i + 1).drop_last() =~= cs@.take(i as int));
        i += 1;
    }
    assert(cs@.take(cs@.len() as int) =~= cs@);
    string_from_chars(&r)
}

/// Escaping works character by character: the escape of two texts one after the
/// other is the escape of the first followed by the escape of the second.
pub proof fn lemma_sanitized_concat(a: Seq<char>, b: Seq<char>)
    ensures
        sanitized(a + b) == sanitized(a) + sanitized(b),
    decreases b.len(),
{
    if b.len() == 0 {
        assert(a + b =~= a);
        assert(sanitized(a) + sanitized(b) =~= sanitized(a));
    } else {
        lemma_sanitized_concat(a, b.drop_last());
        assert((a + b).drop_last() =~= a + b.drop_last());
        assert((a + b).last() == b.last());
        assert(sanitized(a + b) =~= sanitized(a) + sanitized(b));
    }
}

/// A text holding none of `&`, `<`, `>`, `"` and `'` is its own escape.
pub proof fn lemma_sanitized_plain_text(s: Seq<char>)
    requires
        forall|i: int| 0 <= i < s.len() ==> !is_markup_char(#[trigger] s[i]) && s[i] != '&',
    ensures
        sanitized(s) == s,
    decreases s.len(),
{
    if s.len() > 0 {
        lemma_sanitized_plain_text(s.drop_last());
        assert(!is_markup_char(s[s.len() - 1]));
        assert(sanitized(s) =~= s);
    }
}

/// Whether one of the entities `&amp;`, `&lt;`, `&gt;`, `&quot;` and `&#x27;`
/// begins at position `i` of `t`.
pub open spec fn entity_at(t: Seq<char>, i: int) -> bool {
    exists|c: char|
        is_escaped_char(c) && i + escape_char(c).len() <= t.len() && #[trigger] t.subrange(
            i,
            i + escape_char(c).len(),
        ) == escape_char(c)
}

/// The characters that escaping replaces by an entity.
pub open spec fn is_escaped_char(c: char) -> bool {
    c == '&' || is_markup_char(c)
}

/// In escaped text every `&` begins an entity: no `&` of the input survives
/// unescaped.
pub proof fn lemma_sanitized_ampersands_begin_entities(s: Seq<char>)
    ensures
        forall|i: int| 0 <= i < sanitized(s).len() && #[trigger] sanitized(s)[i] == '&' ==> entity_at(sanitized(s), i),
    decreases s.len(),
{
    if s.len() > 0 {
        lemma_sanitized_ampersands_begin_entities(s.drop_last());
        reveal_strlit("&amp;");
        reveal_strlit("&lt;");
        reveal_strlit("&gt;");
        reveal_strlit("&quot;");
        reveal_strlit("&#x27;");
        let head = sanitized(s.drop_last());
        let c = s.last();
        let tail = escape_char(c);
        let t = sanitized(s);
        assert(t == head + tail);
        assert forall|i: int| 0 <= i < t.len() && #[trigger] t[i] == '&' implies entity_at(t, i) by {
            if i < head.len() {
                assert(t[i] == head[i]);
                assert(entity_at(head, i));
                let e = choose|e: char|
                    is_escaped_char(e) && i + escape_char(e).len() <= head.len() && #[trigger] head.subrange(
                        i,
                        i + escape_char(e).len(),
                    ) == escape_char(e);
                assert(t.subrange(i, i + escape_char(e).len()) =~= head.subrange(i, i + escape_char(e).len()));
            } else {
                let j = i - head.len();
                assert(t[i] == tail[j]);
                if is_escaped_char(c) {
                    assert(j == 0);
                    assert(t.subrange(i, i + tail.len()) =~= tail);
                } else {
                    assert(tail[j] == c);
                }
            }
        }
    }
}

/// Whether `d` is one of the characters that markup gives a meaning to, other
/// than `&`.
pub open spec fn is_markup_char(d: char) -> bool {
    d == '<' || d == '>' || d == '"' || d == '\''
}

/// Escaped text holds none of `<`, `>`, `"` and `'`.
pub proof fn lemma_sanitized_has_no_markup(s: Seq<char>)
    ensures
        !sanitized(s).contains('<'),
        !sanitized(s).contains('>'),
        !sanitized(s).contains('"'),
        !sanitized(s).contains('\''),
    decreases s.len(),
{
    if s.len() > 0 {
        lemma_sanitized_has_no_markup(s.drop_last());
        reveal_strlit("&amp;");
        reveal_strlit("&lt;");
        reveal_strlit("&gt;");
        reveal_strlit("&quot;");
        reveal_strlit("&#x27;");
        let head = sanitized(s.drop_last());
        let tail = escape_char(s.last());
        assert forall|j: int| 0 <= j < tail.len() implies !is_markup_char(#[trigger] tail[j]) by {}
        assert forall|j: int| 0 <= j < (head + tail).len() implies !is_markup_char(#[trigger] (head + tail)[j]) by {
            if j < head.len() {
                assert((head + tail)[j] == head[j]);
                assert(head.contains(head[j]));
            } else {
                assert((head + tail)[j] == tail[j - head.len()]);
            }
        }
    }
}


/// A client's request count in the current minute and when that minute began.
pub open spec fn window_after(entry: Option<(u32, u64)>, now_ms: u64) -> (u32, u64) {
    match entry {
        Some((count, since)) => if elapsed_ms(now_ms, since) >= 60_000 {
            (0u32, now_ms)
        } else {
            (count, since)
        },
        None => (0u32, now_ms),
    }
}

/// One request of a client at clock reading `now_ms` under limit `limit`: whether
/// it is admitted, and the client's count and minute afterwards.  It is admitted,
/// and counted, while fewer than the limit were admitted in the current minute.
pub open spec fn rate_step(entry: Option<(u32, u64)>, limit: u32, now_ms: u64) -> (bool, (u32, u64)) {
    let (count, since) = window_after(entry, now_ms);
    if count < limit {
        (true, ((count + 1) as u32, since))
    } else {
        (false, (count, since))
    }
}

/// A run of requests of one client, at these clock readings, from no record: the
/// answer to each, and the client's record afterwards.
pub open spec fn rate_run(limit: u32, times: Seq<u64>) -> (Seq<bool>, Option<(u32, u64)>)
    decreases times.len(),
{
    if times.len() == 0 {
        (Seq::empty(), None)
    } else {
        let (answers, entry) = rate_run(limit, times.drop_last());
        let (ok, next) = rate_step(entry, limit, times.last());
        (answers.push(ok), Some(next))
    }
}

/// Within one minute of a client's first request, its first `limit` requests are
/// admitted and every later one is refused; the burst size plays no part.
pub proof fn lemma_rate_limit_run(limit: u32, times: Seq<u64>)
    requires
        forall|i: int| 0 <= i < times.len() ==> times[0] <= #[trigger] times[i] && times[i] - times[0] < 60_000,
    ensures
        rate_run(limit, times).0.len() == times.len(),
        forall|i: int| 0 <= i < times.len() ==> #[trigger] rate_run(limit, times).0[i] == (i < limit),
        times.len() > 0 ==> rate_run(limit, times).1 == Some(
            ((if times.len() < limit { times.len() as int } else { limit as int }) as u32, times[0]),
        ),
    decreases times.len(),
{
    if times.len() > 0 {
        let prefix = times.drop_last();
        assert forall|i: int| 0 <= i < prefix.len() implies prefix[0] <= #[trigger] prefix[i] && prefix[i]
            - prefix[0] < 60_000 by {
            assert(prefix[i] == times[i]);
        }
        lemma_rate_limit_run(limit, prefix);
        let (answers, entry) = rate_run(limit, prefix);
        assert(times[times.len() - 1] == times.last());
        if prefix.len() > 0 {
            assert(prefix[0] == times[0]);
        }
        assert forall|i: int| 0 <= i < times.len() implies #[trigger] rate_run(limit, times).0[i] == (i < limit) by {
            if i < prefix.len() {
                assert(rate_run(limit, times).0[i] == answers[i]);
            }
        }
    }
}

/// Number of admitted requests among `answers`.
pub open spec fn admitted_count(answers: Seq<bool>) -> nat
    decreases answers.len(),
{
    if answers.len() == 0 {
        0
    } else {
        admitted_count(answers.drop_last()) + (if answers.last() {
            1nat
        } else {
            0
        })
    }
}

/// The client's record after a run of requests (none before any request).
pub open spec fn record_after(limit: u32, times: Seq<u64>) -> (u32, u64) {
    match rate_run(limit, times).1 {
        Some(r) => r,
        None => (0u32, 0u64),
    }
}

/// Every minute is limited, not only the first: after any run of requests of one
/// client (at any clock readings), the client's current minute began at one of
/// those requests, every later request of the run came less than 60 s after it,
/// and the requests admitted since it are exactly those counted, at most `limit`
/// of them.  So within a minute that began at a request, at most `limit`
/// requests are admitted.
pub proof fn lemma_every_minute_is_limited(limit: u32, times: Seq<u64>)
    requires
        times.len() > 0,
    ensures
        rate_run(limit, times).0.len() == times.len(),
        exists|k: int|
            0 <= k < times.len() && #[trigger] times[k] == record_after(limit, times).1 && (forall|j: int|
                k <= j < times.len() ==> times[j] < times[k] + 60_000) && record_after(limit, times).0
                == admitted_count(rate_run(limit, times).0.skip(k)) && record_after(limit, times).0 <= limit,
    decreases times.len(),
{
    let n = times.len();
    let t = times.last();
    let prefix = times.drop_last();
    let answers = rate_run(limit, times).0;
    let rec = record_after(limit, times);
    let prev = rate_run(limit, prefix).1;
    let step = rate_step(prev, limit, t);
    assert(answers == rate_run(limit, prefix).0.push(step.0));
    assert(rec == step.1);
    assert(times[n - 1] == t);
    if n == 1 {
        assert(rate_run(limit, prefix).0.len() == 0);
        assert(prev is None);
        let k = 0int;
        let tail = answers.skip(k);
        assert(tail.len() == 1);
        assert(tail.drop_last().len() == 0);
        assert(admitted_count(tail.drop_last()) == 0);
        assert(tail.last() == step.0);
        assert(admitted_count(tail) == (if step.0 { 1nat } else { 0 }));
        assert(rec.1 == t);
        assert(times[k] == rec.1 && (forall|j: int| k <= j < n ==> times[j] < times[k] + 60_000)
            && rec.0 == admitted_count(answers.skip(k)) && rec.0 <= limit);
    } else {
        lemma_every_minute_is_limited(limit, prefix);
        let pre_answers = rate_run(limit, prefix).0;
        let pre_rec = record_after(limit, prefix);
        let k0 = choose|k: int|
            0 <= k < prefix.len() && #[trigger] prefix[k] == pre_rec.1 && (forall|j: int|
                k <= j < prefix.len() ==> prefix[j] < prefix[k] + 60_000) && pre_rec.0 == admitted_count(
                pre_answers.skip(k),
            ) && pre_rec.0 <= limit;
        assert(prev == Some(pre_rec));
        if elapsed_ms(t, pre_rec.1) >= 60_000 {
            let k = n - 1;
            let tail = answers.skip(k);
            assert(tail.len() == 1);
            assert(tail.drop_last().len() == 0);
            assert(admitted_count(tail.drop_last()) == 0);
            assert(tail.last() == step.0);
            assert(admitted_count(tail) == (if step.0 { 1nat } else { 0 }));
            assert(times[k] == rec.1 && (forall|j: int| k <= j < n ==> times[j] < times[k] + 60_000)
                && rec.0 == admitted_count(answers.skip(k)) && rec.0 <= limit);
        } else {
            let k = k0;
            assert(times[k] == prefix[k]);
            assert forall|j: int| k <= j < n implies times[j] < times[k] + 60_000 by {
                if j < n - 1 {
                    assert(times[j] == prefix[j]);
                }
            }
            assert(answers.skip(k).drop_last() =~= pre_answers.skip(k));
            assert(answers.skip(k).last() == step.0);
            assert(admitted_count(answers.skip(k)) == admitted_count(pre_answers.skip(k)) + (if step.0 {
                1nat
            } else {
                0
            }));
            assert(times[k] == rec.1 && (forall|j: int| k <= j < n ==> times[j] < times[k] + 60_000)
                && rec.0 == admitted_count(answers.skip(k)) && rec.0 <= limit);
        }
    }
}

/// A client's count and the whole seconds until its minute is over; a full
/// minute for an unknown client.
pub open spec fn client_stats(entry: Option<(u32, u64)>, now_ms: u64) -> (u32, u64) {
    match entry {
        Some((count, since)) => (count, (if elapsed_ms(now_ms, since) / 1000 < 60 {
            60 - elapsed_ms(now_ms, since) / 1000
        } else {
            0
        }) as u64),
        None => (0u32, 60u64),
    }
}

/// Counts requests per client and refuses those beyond the limit of each minute.
pub struct RateLimiter {
    records: StringMap<(u32, u64)>,
    requests_per_minute: u32,
    burst_size: u32,
}

impl RateLimiter {
    /// Every client's count is at most the limit.
    pub closed spec fn wf(&self) -> bool {
        &&& self.records.wf()
        &&& forall|k: Seq<char>| #[trigger] self.records@.contains_key(k) ==> self.records@[k].0
            <= self.requests_per_minute
    }

    /// For each client: requests counted in its current minute, and when that
    /// minute began (milliseconds of the caller's clock).
    pub closed spec fn records(&self) -> Map<Seq<char>, (u32, u64)> {
        self.records@
    }

    pub closed spec fn limit(&self) -> u32 {
        self.requests_per_minute
    }

    pub closed spec fn burst(&self) -> u32 {
        self.burst_size
    }

    pub fn new(requests_per_minute: u32, burst_size: u32) -> (r: RateLimiter)
        ensures
            r.wf(),
            r.records() == Map::<Seq<char>, (u32, u64)>::empty(),
            r.limit() == requests_per_minute,
            r.burst() == burst_size,
    {
        RateLimiter { records: StringMap::new(), requests_per_minute, burst_size }
    }

    /// Counts a request of `client_ip` at clock reading `now_ms`.  A client's
    /// minute starts at its first request and starts over once 60 s have passed;
    /// the request is admitted while fewer than the limit were admitted in it.
    pub fn check_rate_limit(&mut self, client_ip: &str, now_ms: u64) -> (r: Result<bool, SecurityError>)
        requires
            old(self).wf(),
        ensures
            final(self).wf(),
            final(self).limit() == old(self).limit(),
            final(self).burst() == old(self).burst(),
            ({
                let (ok, next) = rate_step(old(self).records().get(client_ip@), old(self).limit(), now_ms);
                &&& r == Ok::<bool, SecurityError>(ok)
                &&& final(self).records() == old(self).records().insert(client_ip@, next)
            }),
    {
        let (count, since) = match self.records.get(client_ip) {
            Some(e) => {
                let (c, t) = *e;
                if elapsed_between(now_ms, t) >= 60_000 {
                    (0u32, now_ms)
                } else {
                    (c, t)
                }
            },
            None => (0u32, now_ms),
        };
        if count >= self.requests_per_minute {
            self.records.insert(String::from_str(client_ip), (count, since));
            Ok(false)
        } else {
            self.records.insert(String::from_str(client_ip), (count + 1, since));
            Ok(true)
        }
    }

    /// The count of `client_ip` and the whole seconds until its minute is over (a
    /// full minute for an unknown client).
    pub fn get_client_stats(&self, client_ip: &str, now_ms: u64) -> (r: (u32, u64))
        requires
            self.wf(),
        ensures
            r == client_stats(self.records().get(client_ip@), now_ms),
    {
        match self.records.get(client_ip) {
            Some(e) => {
                let (count, since) = *e;
                let secs = elapsed_between(now_ms, since) / 1000;
                (count, if secs < 60 { 60 - secs } else { 0 })
            },
            None => (0, 60),
        }
    }

    /// Forgets the clients whose minute began two minutes ago or more.
    pub fn cleanup_expired(&mut self, now_ms: u64)
        requires
            old(self).wf(),
        ensures
            final(self).wf(),
            final(self).limit() == old(self).limit(),
            final(self).burst() == old(self).burst(),
            final(self).records() == old(self).records().restrict(
                old(self).records().dom().filter(|k: Seq<char>| recent_record(old(self).records()[k], now_ms)),
            ),
    {
        let ghost before = self.records@;
        let keys = self.records.keys();
        proof {
            self.records.lemma_enumeration();
            assert forall|j: int| 0 <= j < keys@.len() implies #[trigger] self.records@.contains_key(keys@[j]@) by {
                assert(chars_of(keys@)[j] == keys@[j]@);
                assert(chars_of(keys@).contains(keys@[j]@));
            }
        }
        let mut i: usize = 0;
        while i < keys.len()
            invariant
                self.records.wf(),
                self.requests_per_minute == old(self).requests_per_minute,
                self.burst_size == old(self).burst_size,
                before == old(self).records@,
                forall|k: Seq<char>| #[trigger] before.contains_key(k) ==> before[k].0 <= self.requests_per_minute,
                chars_of(keys@).no_duplicates(),
                chars_of(keys@).to_set() == before.dom(),
                i <= keys@.len(),
                forall|k: Seq<char>| #[trigger] self.records@.contains_key(k) ==> before.contains_key(k)
                    && self.records@[k] == before[k],
                forall|j: int| 0 <= j < keys@.len() ==> (#[trigger] self.records@.contains_key(keys@[j]@) <==> (
                    j >= i || recent_record(before[keys@[j]@], now_ms))),
            decreases keys@.len() - i,
        {
            let k = &keys[i];
            let expired = match self.records.get(k.as_str()) {
                Some(e) => elapsed_between(now_ms, e.1) / 1000 >= 120,
                None => false,
            };
            let ghost prev = self.records@;
            if expired {
                let _ = self.records.take(k.as_str());
            }
            proof {
                assert(chars_of(keys@)[i as int] == keys@[i as int]@);
                assert(before.contains_key(keys@[i as int]@)) by {
                    assert(chars_of(keys@).contains(keys@[i as int]@));
                }
                assert forall|j: int| 0 <= j < keys@.len() && j != i implies keys@[j]@ != keys@[i as int]@ by {
                    assert(chars_of(keys@)[j] == keys@[j]@);
                }
            }
            i += 1;
        }
        proof {
            let target = before.restrict(before.dom().filter(|k: Seq<char>| recent_record(before[k], now_ms)));
            assert forall|k: Seq<char>| self.records@.contains_key(k) <==> target.contains_key(k) by {
                if before.contains_key(k) {
                    assert(chars_of(keys@).to_set().contains(k));
                    let j = choose|j: int| 0 <= j < chars_of(keys@).len() && chars_of(keys@)[j] == k;
                    assert(chars_of(keys@)[j] == keys@[j]@);
                }
            }
            assert(self.records@ =~= target);
        }
    }
}

/// Whether a client's minute began less than two minutes before `now_ms`.
pub open spec fn recent_record(rec: (u32, u64), now_ms: u64) -> bool {
    elapsed_ms(now_ms, rec.1) / 1000 < 120
}


/// The methods a request may use.
pub open spec fn allowed_method(m: Seq<char>) -> bool {
    m == "GET"@ || m == "POST"@ || m == "PUT"@ || m == "DELETE"@
}

/// Rate limiting and request validation in front of the handlers.
pub struct SecurityMiddleware {
    config: SecurityConfig,
    rate_limiter: Option<RateLimiter>,
}

impl SecurityMiddleware {
    pub closed spec fn wf(&self) -> bool {
        &&& (self.rate_limiter is Some <==> self.config.enable_rate_limiting)
        &&& (self.rate_limiter matches Some(l) ==> l.wf() && l.limit() == self.config.requests_per_minute)
    }

    pub closed spec fn configuration(&self) -> SecurityConfig {
        self.config
    }

    /// The rate limiter's records, when rate limiting is on.
    pub closed spec fn limiter(&self) -> Option<RateLimiter> {
        self.rate_limiter
    }

    /// A middleware with a rate limiter exactly when rate limiting is enabled.
    pub fn new(config: SecurityConfig) -> (m: SecurityMiddleware)
        ensures
            m.wf(),
            m.configuration() == config,
            m.limiter() matches Some(l) ==> l.records() == Map::<Seq<char>, (u32, u64)>::empty()
                && l.burst() == config.burst_size,
    {
        let rate_limiter = if config.enable_rate_limiting {
            Some(RateLimiter::new(config.requests_per_minute, config.burst_size))
        } else {
            None
        };
        SecurityMiddleware { config, rate_limiter }
    }

    /// Checks a request at clock reading `now_ms`: first the rate limit of its
    /// client (when rate limiting is on and the client address is known), then,
    /// when input validation is on, its path and method.
    pub fn process_request(&mut self, context: &SecurityContext, now_ms: u64) -> (r: Result<(), SecurityError>)
        requires
            old(self).wf(),
        ensures
            final(self).wf(),
            final(self).configuration() == old(self).configuration(),
            ({
                let limited = old(self).limiter() is Some && context.client_ip is Some;
                let admitted = limited ==> window_after(
                    old(self).limiter()->0.records().get(context.client_ip->0@),
                    now_ms,
                ).0 < old(self).configuration().requests_per_minute;
                &&& (limited && !admitted) ==> (r matches Err(SecurityError::RateLimitExceeded {
                    client_ip,
                    limit,
                }) && client_ip@ == context.client_ip->0@ && limit
                    == old(self).configuration().requests_per_minute)
                &&& admitted && old(self).configuration().enable_input_validation && request_fault(context)
                    is Some ==> fails_validation(r, fault_field(context), fault_message(context))
                &&& r is Ok <==> (admitted && (!old(self).configuration().enable_input_validation
                    || request_fault(context) is None))
            }),
            match (old(self).limiter(), context.client_ip) {
                (Some(l), Some(ip)) => final(self).limiter() matches Some(m) && m.limit() == l.limit() && m.burst()
                    == l.burst() && m.records() == l.records().insert(
                    ip@,
                    rate_step(l.records().get(ip@), l.limit(), now_ms).1,
                ),
                _ => final(self).limiter() == old(self).limiter(),
            },
    {
        if let Some(limiter) = &mut self.rate_limiter {
            if let Some(ip) = &context.client_ip {
                let admitted = limiter.check_rate_limit(ip.as_str(), now_ms);
                match admitted {
                    Ok(true) => {},
                    _ => {
                        return Err(
                            SecurityError::RateLimitExceeded {
                                client_ip: ip.clone(),
                                limit: self.config.requests_per_minute,
                            },
                        );
                    },
                }
            }
        }
        if self.config.enable_input_validation {
            Self::validate_request(context)
        } else {
            Ok(())
        }
    }

    /// A path may hold neither `..` nor `//`; the method must be GET, POST, PUT or
    /// DELETE.
    pub fn validate_request(context: &SecurityContext) -> (r: Result<(), SecurityError>)
        ensures
            match request_fault(context) {
                Some((field, message)) => fails_validation(r, field, message),
                None => r is Ok,
            },
    {
        if str_contains(context.path.as_str(), "..") || str_contains(context.path.as_str(), "//") {
            return Err(validation_error("path", "Invalid path format"));
        }
        let get = String::from_str("GET");
        let post = String::from_str("POST");
        let put = String::from_str("PUT");
        let delete = String::from_str("DELETE");
        if !(context.method == get || context.method == post || context.method == put || context.method == delete) {
            return Err(validation_error("method", "Unsupported HTTP method"));
        }
        Ok(())
    }

    /// The count and seconds to reset of a client, when rate limiting is on.
    pub fn get_rate_limit_stats(&self, client_ip: &str, now_ms: u64) -> (r: Option<(u32, u64)>)
        requires
            self.wf(),
        ensures
            match self.limiter() {
                Some(l) => r == Some(client_stats(l.records().get(client_ip@), now_ms)),
                None => r is None,
            },
    {
        match &self.rate_limiter {
            Some(l) => Some(l.get_client_stats(client_ip, now_ms)),
            None => None,
        }
    }
}

/// The first fault of a request, as the field and the message of its error.
pub open spec fn request_fault(context: &SecurityContext) -> Option<(Seq<char>, Seq<char>)> {
    if contains_seq(context.path@, ".."@) || contains_seq(context.path@, "//"@) {
        Some(("path"@, "Invalid path format"@))
    } else if !allowed_method(context.method@) {
        Some(("method"@, "Unsupported HTTP method"@))
    } else {
        None
    }
}

/// The field of the first fault of a request.
pub open spec fn fault_field(context: &SecurityContext) -> Seq<char> {
    match request_fault(context) {
        Some((f, _)) => f,
        None => Seq::empty(),
    }
}

/// The message of the first fault of a request.
pub open spec fn fault_message(context: &SecurityContext) -> Seq<char> {
    match request_fault(context) {
        Some((_, m)) => m,
        None => Seq::empty(),
    }
}

/// The base64 text (standard alphabet, with padding) of some bytes.
pub uninterp spec fn base64_standard(bytes: Seq<u8>) -> Seq<char>;

/// The bytes a standard-alphabet, padded base64 text decodes to, if it is one.
pub uninterp spec fn base64_standard_decoded(text: Seq<char>) -> Option<Seq<u8>>;

/// `base64::encode`: the standard-alphabet, padded base64 text of the bytes, which
/// decodes back to them.
#[verifier::external_body]
#[allow(deprecated)]
pub(crate) fn base64_encode(bytes: &Vec<u8>) -> (s: String)
    ensures
        s@ == base64_standard(bytes@),
        base64_standard_decoded(s@) == Some(bytes@),
{
    base64::encode(bytes)
}

/// `ring::rand::SystemRandom::fill` on `len` zero bytes: random bytes from the
/// operating system, or none when it cannot give them.  Nothing is stated of the
/// bytes but their number.
#[verifier::external_body]
pub(crate) fn system_random_bytes(len: usize) -> (r: Option<Vec<u8>>)
    ensures
        r matches Some(v) ==> v@.len() == len,
{
    let rng = ring::rand::SystemRandom::new();
    let mut bytes = vec![0u8; len];
    match ring::rand::SecureRandom::fill(&rng, &mut bytes) {
        Ok(()) => Some(bytes),
        Err(_) => None,
    }
}

/// The token made of the random bytes the system gave: the bytes in standard
/// base64; none when it gave none.
pub fn token_of_bytes(bytes: Option<Vec<u8>>) -> (r: Option<String>)
    ensures
        match bytes {
            Some(b) => r matches Some(t) && t@ == base64_standard(b@),
            None => r is None,
        },
{
    match bytes {
        Some(b) => Some(base64_encode(&b)),
        None => None,
    }
}

/// A random token: `length` random bytes in base64; none when the system gives
/// no random bytes.
pub fn generate_secure_token(length: usize) -> (r: Option<String>)
    ensures
        r matches Some(t) ==> exists|b: Seq<u8>| b.len() == length && t@ == #[trigger] base64_standard(b),
{
    let bytes = system_random_bytes(length);
    let ghost given = bytes;
    let r = token_of_bytes(bytes);
    proof {
        if let Some(b) = given {
            assert(r->0@ == base64_standard(b@));
        }
    }
    r
}

/// PBKDF2 with HMAC-SHA256: `out_len` bytes derived from `secret` (a text, taken
/// as its UTF-8 bytes) and `salt` in `iterations` rounds.
pub uninterp spec fn pbkdf2_hmac_sha256(iterations: nat, salt: Seq<u8>, secret: Seq<char>, out_len: nat) -> Seq<u8>;

/// `ring::pbkdf2::derive` with `PBKDF2_HMAC_SHA256` into 32 bytes.
#[verifier::external_body]
fn pbkdf2_derive_32(iterations: u32, salt: &[u8], secret: &str) -> (h: Vec<u8>)
    requires
        iterations > 0,
    ensures
        h@ == pbkdf2_hmac_sha256(iterations as nat, salt@, secret@, 32),
        h@.len() == 32,
{
    let mut hash = vec![0u8; 32];
    ring::pbkdf2::derive(
        ring::pbkdf2::PBKDF2_HMAC_SHA256,
        std::num::NonZeroU32::new(iterations).unwrap(),
        salt,
        secret.as_bytes(),
        &mut hash,
    );
    hash
}

/// `ring::pbkdf2::verify` with `PBKDF2_HMAC_SHA256`: it succeeds exactly when
/// `expected` is not empty and equals the bytes derived to its length.
#[verifier::external_body]
fn pbkdf2_verify(iterations: u32, salt: &[u8], secret: &str, expected: &[u8]) -> (b: bool)
    requires
        iterations > 0,
    ensures
        b == (expected@.len() > 0 && expected@ == pbkdf2_hmac_sha256(
            iterations as nat,
            salt@,
            secret@,
            expected@.len(),
        )),
{
    ring::pbkdf2::verify(
        ring::pbkdf2::PBKDF2_HMAC_SHA256,
        std::num::NonZeroU32::new(iterations).unwrap(),
        salt,
        secret.as_bytes(),
        expected,
    ).is_ok()
}

/// Rounds of PBKDF2 for passwords.
pub const PASSWORD_HASH_ITERATIONS: u32 = 100_000;

/// The 32-byte PBKDF2-HMAC-SHA256 hash of a password, 100 000 rounds.
pub fn hash_password(password: &str, salt: &[u8]) -> (h: Vec<u8>)
    ensures
        h@ == pbkdf2_hmac_sha256(PASSWORD_HASH_ITERATIONS as nat, salt@, password@, 32),
        h@.len() == 32,
{
    pbkdf2_derive_32(PASSWORD_HASH_ITERATIONS, salt, password)
}

/// Whether `expected` is the hash of `password` with `salt`, to its own length.
pub open spec fn password_matches(password: Seq<char>, salt: Seq<u8>, expected: Seq<u8>) -> bool {
    expected.len() > 0 && expected == pbkdf2_hmac_sha256(PASSWORD_HASH_ITERATIONS as nat, salt, password, expected.len())
}

/// Whether `expected_hash` is the hash of the password with this salt.
pub fn verify_password(password: &str, salt: &[u8], expected_hash: &[u8]) -> (b: bool)
    ensures
        b == password_matches(password@, salt@, expected_hash@),
{
    pbkdf2_verify(PASSWORD_HASH_ITERATIONS, salt, password, expected_hash)
}

/// A password matches the hash that `hash_password` made of it with the same salt.
pub proof fn lemma_hashed_password_matches(password: Seq<char>, salt: Seq<u8>, hash: Seq<u8>)
    requires
        hash == pbkdf2_hmac_sha256(PASSWORD_HASH_ITERATIONS as nat, salt, password, 32),
        hash.len() == 32,
    ensures
        password_matches(password, salt, hash),
{
}

} // verus!
