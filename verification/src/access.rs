//! Request authentication: the context a request resolves to, the role
//! checks handlers ask for, the credentials read from request headers and
//! the session cookie handed out at login.

use crate::auth::{administers, role_of_text, role_text, writes, Role};
use crate::conditions::expr::{dec, push_dec};
use crate::ids::UserId;
use crate::jil::fields::split_on;
use crate::jil::fields::split_bounds;
use crate::jil::model::next_index;
use crate::jil::scan::index_in;
use crate::text::{
    append_str, byte_len, chars_vec, push_char, range_eq_lit, starts_with, string_of,
    string_of_str, trim, trim_bounds,
};
use crate::time::Timestamp;
use base64::Engine;
use rand::RngCore;
use vstd::prelude::*;

verus! {

/// Name of the session cookie.
pub const SESSION_COOKIE: &'static str = "rsched_session";

/// Lifetime of a session, in hours.
pub const SESSION_TTL_HOURS: i64 = 12;

/// Resolved request authentication context.
#[derive(Debug, Clone, Copy, PartialEq, Eq, Structural)]
pub struct AuthCtx {
    /// Authenticated user.
    pub user_id: UserId,
    /// User's role.
    pub role: Role,
}

/// Why a request is refused.
#[derive(Debug, Clone, Copy, PartialEq, Eq, Structural)]
pub enum AccessError {
    /// No credentials, or invalid ones.
    Unauthorized,
    /// Authenticated but lacks the required role.
    Forbidden,
}

/// An authenticated request. Refused as `Unauthorized` when the request
/// carries no context.
#[derive(Debug, Clone, Copy, PartialEq, Eq, Structural)]
pub struct AuthUser(pub AuthCtx);

/// An authenticated request whose user may write.
#[derive(Debug, Clone, Copy, PartialEq, Eq, Structural)]
pub struct RequireWrite(pub AuthCtx);

/// An authenticated request whose user is an administrator.
#[derive(Debug, Clone, Copy, PartialEq, Eq, Structural)]
pub struct RequireAdmin(pub AuthCtx);

/// Admission of a request that needs a role passing `allowed`.
pub open spec fn admission(ctx: Option<AuthCtx>, allowed: bool) -> Result<AuthCtx, AccessError> {
    match ctx {
        None => Err(AccessError::Unauthorized),
        Some(c) => if allowed {
            Ok(c)
        } else {
            Err(AccessError::Forbidden)
        },
    }
}

/// Admission needing a user who may write.
pub open spec fn write_admission(ctx: Option<AuthCtx>) -> Result<AuthCtx, AccessError> {
    admission(ctx, ctx is Some && writes(ctx->Some_0.role))
}

/// Admission needing an administrator.
pub open spec fn admin_admission(ctx: Option<AuthCtx>) -> Result<AuthCtx, AccessError> {
    admission(ctx, ctx is Some && administers(ctx->Some_0.role))
}

impl AuthUser {
    /// Extracts the context resolved for a request.
    pub fn from_ctx(ctx: Option<AuthCtx>) -> (r: Result<AuthUser, AccessError>)
        ensures
            r == (match ctx {
                Some(c) => Ok(AuthUser(c)),
                None => Err(AccessError::Unauthorized),
            }),
    {
        match ctx {
            Some(c) => Ok(AuthUser(c)),
            None => Err(AccessError::Unauthorized),
        }
    }
}

impl RequireWrite {
    /// Admits a request whose user may write.
    pub fn from_ctx(ctx: Option<AuthCtx>) -> (r: Result<RequireWrite, AccessError>)
        ensures
            r == (match write_admission(ctx) {
                Ok(c) => Ok(RequireWrite(c)),
                Err(e) => Err(e),
            }),
    {
        match ctx {
            None => Err(AccessError::Unauthorized),
            Some(c) => {
                if !c.role.can_write() {
                    return Err(AccessError::Forbidden);
                }
                Ok(RequireWrite(c))
            },
        }
    }
}

impl RequireAdmin {
    /// Admits a request whose user is an administrator.
    pub fn from_ctx(ctx: Option<AuthCtx>) -> (r: Result<RequireAdmin, AccessError>)
        ensures
            r == (match admin_admission(ctx) {
                Ok(c) => Ok(RequireAdmin(c)),
                Err(e) => Err(e),
            }),
    {
        match ctx {
            None => Err(AccessError::Unauthorized),
            Some(c) => {
                if !c.role.can_admin() {
                    return Err(AccessError::Forbidden);
                }
                Ok(RequireAdmin(c))
            },
        }
    }
}

/// Whatever an administrator may do, so may a writer: an admitted admin
/// request is also admitted where write access is required, with the same
/// context.
pub proof fn lemma_admin_admitted_as_writer(ctx: Option<AuthCtx>)
    requires
        admin_admission(ctx) is Ok,
    ensures
        write_admission(ctx) == admin_admission(ctx),
{
}

/// A request without context is refused as unauthorized everywhere, and a
/// request with context is never refused as unauthorized.
pub proof fn lemma_unauthorized_iff_no_context(ctx: Option<AuthCtx>)
    ensures
        (write_admission(ctx) == Err::<AuthCtx, AccessError>(AccessError::Unauthorized)) <==> ctx is None,
        (admin_admission(ctx) == Err::<AuthCtx, AccessError>(AccessError::Unauthorized)) <==> ctx is None,
{
}

impl AccessError {
    /// HTTP status a refusal is answered with: 401 or 403.
    pub fn status(&self) -> (r: u16)
        ensures
            r == (match self {
                AccessError::Unauthorized => 401u16,
                AccessError::Forbidden => 403u16,
            }),
    {
        match self {
            AccessError::Unauthorized => 401,
            AccessError::Forbidden => 403,
        }
    }

    /// Error text of the response body.
    pub fn message(&self) -> (r: &'static str)
        ensures
            r@ == (match self {
                AccessError::Unauthorized => "unauthorized"@,
                AccessError::Forbidden => "forbidden"@,
            }),
    {
        match self {
            AccessError::Unauthorized => "unauthorized",
            AccessError::Forbidden => "forbidden",
        }
    }
}

/// A login succeeds only for an existing, enabled user whose password
/// verifies; every refusal reads as unauthorized, so it does not tell which
/// check failed.
pub fn login_check(found: bool, disabled: bool, password_ok: bool) -> (r: Result<(), AccessError>)
    ensures
        r is Ok <==> (found && !disabled && password_ok),
        r is Err ==> r->Err_0 == AccessError::Unauthorized,
{
    if !found || disabled || !password_ok {
        return Err(AccessError::Unauthorized);
    }
    Ok(())
}

/// The context a credential resolves to for the user it names: none for a
/// disabled account.
pub fn context_for(user_id: UserId, role: Role, disabled: bool) -> (r: Option<AuthCtx>)
    ensures
        r == (if disabled {
            None
        } else {
            Some(AuthCtx { user_id, role })
        }),
{
    if disabled {
        None
    } else {
        Some(AuthCtx { user_id, role })
    }
}

/// The value of the first `name=value` pair among the `;`-separated parts
/// (each trimmed, split at its first `=`).
pub open spec fn cookie_in(parts: Seq<Seq<char>>, name: Seq<char>) -> Option<Seq<char>>
    decreases parts.len(),
{
    if parts.len() == 0 {
        None
    } else {
        let p = trim(parts[0]);
        let e = next_index(p, '=', 0);
        if e < p.len() && p.subrange(0, e) == name {
            Some(p.subrange(e + 1, p.len() as int))
        } else {
            cookie_in(parts.drop_first(), name)
        }
    }
}

/// The value of cookie `name` in a `Cookie` header.
pub open spec fn cookie_value(header: Seq<char>, name: Seq<char>) -> Option<Seq<char>> {
    cookie_in(split_on(header, ';'), name)
}

/// The value of cookie `name` in a `Cookie` header, if present.
pub fn parse_cookie(header: &str, name: &str) -> (r: Option<String>)
    ensures
        match r {
            Some(v) => cookie_value(header@, name@) == Some(v@),
            None => cookie_value(header@, name@) is None,
        },
{
    let v = chars_vec(header);
    let parts = split_bounds(&v, 0, v.len(), ';');
    let ghost ps = split_on(v@.subrange(0, v@.len() as int), ';');
    assert(v@.subrange(0, v@.len() as int) =~= header@);
    let mut k: usize = 0;
    assert(ps.subrange(0, ps.len() as int) =~= ps);
    while k < parts.len()
        invariant
            v@ == header@,
            ps == split_on(header@, ';'),
            parts@.len() == ps.len(),
            forall|j: int|
                0 <= j < parts@.len() ==> parts@[j].0 <= parts@[j].1 <= v@.len() && v@.subrange(
                    #[trigger] parts@[j].0 as int,
                    parts@[j].1 as int,
                ) == ps[j],
            k <= parts@.len(),
            cookie_value(header@, name@) == cookie_in(ps.subrange(k as int, ps.len() as int), name@),
        decreases parts.len() - k,
    {
        let (lo, hi) = parts[k];
        let (a, b) = trim_bounds(&v, lo, hi);
        let e = index_in(&v, a, b, '=');
        let ghost p = trim(ps[k as int]);
        proof {
            assert(ps.subrange(k as int, ps.len() as int).drop_first() =~= ps.subrange(
                k + 1,
                ps.len() as int,
            ));
            assert(v@.subrange(a as int, b as int) == p);
            assert(p.subrange(0, e - a) =~= v@.subrange(a as int, e as int));
            if e < b {
                assert(p.subrange(e - a + 1, p.len() as int) =~= v@.subrange(e + 1, b as int));
            }
        }
        if e < b && range_eq_lit(&v, a, e, name) {
            return Some(string_of(&v, e + 1, b));
        }
        k = k + 1;
    }
    None
}

/// The token of an `Authorization: Bearer <token>` header value.
pub open spec fn bearer_of(authz: Seq<char>) -> Option<Seq<char>> {
    if starts_with(authz, "Bearer "@) {
        Some(authz.subrange(7, authz.len() as int))
    } else {
        None
    }
}

/// The token of an `Authorization` header value, when it is a bearer token.
pub fn bearer_token(authz: &str) -> (r: Option<String>)
    ensures
        match r {
            Some(t) => bearer_of(authz@) == Some(t@),
            None => bearer_of(authz@) is None,
        },
{
    let v = chars_vec(authz);
    proof {
        reveal_strlit("Bearer ");
    }
    if v.len() >= 7 && range_eq_lit(&v, 0, 7, "Bearer ") {
        Some(string_of(&v, 7, v.len()))
    } else {
        proof {
            if starts_with(authz@, "Bearer "@) {
                assert(v@.subrange(0, 7) == "Bearer "@);
            }
        }
        None
    }
}

/// The `Set-Cookie` value issued at login for a session token.
pub open spec fn session_cookie_text(token: Seq<char>) -> Seq<char> {
    "rsched_session="@ + token + "; Path=/; HttpOnly; SameSite=Lax; Max-Age="@ + dec(43200)
}

/// `Set-Cookie` value carrying a new session token; it expires with the
/// session, `SESSION_TTL_HOURS * 3600` seconds later.
pub fn session_cookie(token: &str) -> (r: String)
    ensures
        r@ == session_cookie_text(token@),
{
    let mut s = string_of_str("rsched_session=");
    append_str(&mut s, token);
    append_str(&mut s, "; Path=/; HttpOnly; SameSite=Lax; Max-Age=");
    push_dec(&mut s, 12 * 3600);
    s
}

/// `Set-Cookie` value that clears the session cookie at logout.
pub fn cleared_session_cookie() -> (r: &'static str)
    ensures
        r@ == "rsched_session=; Path=/; HttpOnly; SameSite=Lax; Max-Age=0"@,
{
    "rsched_session=; Path=/; HttpOnly; SameSite=Lax; Max-Age=0"
}

/// When a session started at `now` expires: `SESSION_TTL_HOURS` later.
pub fn session_expiry(now: Timestamp) -> (r: Timestamp)
    requires
        now.secs + 43200 <= i64::MAX,
    ensures
        r.secs == now.secs + 43200,
        r.nanos == now.nanos,
{
    Timestamp { secs: now.secs + SESSION_TTL_HOURS * 3600, nanos: now.nanos }
}

/// Why a new user is refused, if it is: an unknown role, or a password
/// shorter than 8 bytes.
pub open spec fn new_user_error(role: Seq<char>, password: Seq<char>) -> Option<Seq<char>> {
    if role_of_text(role) is None {
        Some("bad role: "@ + role)
    } else if byte_len(password) < 8 {
        Some("password must be at least 8 characters"@)
    } else {
        None
    }
}

/// Checks a user-creation request: the role it names, or the validation
/// message it is refused with.
pub fn check_new_user(role: &str, password: &str) -> (r: Result<Role, String>)
    ensures
        match r {
            Ok(x) => new_user_error(role@, password@) is None && role_of_text(role@) == Some(x),
            Err(m) => new_user_error(role@, password@) == Some(m@),
        },
{
    match Role::parse(role) {
        None => {
            let mut m = string_of_str("bad role: ");
            append_str(&mut m, role);
            Err(m)
        },
        Some(x) => {
            if password.len() < 8 {
                return Err(string_of_str("password must be at least 8 characters"));
            }
            Ok(x)
        },
    }
}

/// `s` with every `"` replaced by `'` (`str::replace('"', "'")`).
pub open spec fn unquoted(s: Seq<char>) -> Seq<char> {
    s.map_values(|c: char| if c == '"' { '\'' } else { c })
}

/// Appends `t` with double quotes turned into single quotes.
fn append_unquoted(out: &mut String, t: &str)
    ensures
        final(out)@ == old(out)@ + unquoted(t@),
{
    let v = chars_vec(t);
    let mut i: usize = 0;
    while i < v.len()
        invariant
            i <= v.len(),
            v@ == t@,
            out@ == old(out)@ + unquoted(v@.subrange(0, i as int)),
        decreases v.len() - i,
    {
        let c = if v[i] == '"' {
            '\''
        } else {
            v[i]
        };
        push_char(out, c);
        assert(unquoted(v@.subrange(0, i + 1)) =~= unquoted(v@.subrange(0, i as int)).push(c));
        i = i + 1;
    }
    assert(v@.subrange(0, i as int) =~= v@);
}

/// Audit detail recorded when an API key is created: `{"name":"<name>"}`.
pub fn api_key_audit_detail(name: &str) -> (r: String)
    ensures
        r@ == "{\"name\":\""@ + unquoted(name@) + "\"}"@,
{
    let mut s = string_of_str("{\"name\":\"");
    append_unquoted(&mut s, name);
    append_str(&mut s, "\"}");
    s
}

/// Audit detail recorded when a user is created:
/// `{"username":"<username>","role":"<role>"}`.
pub fn user_audit_detail(username: &str, role: Role) -> (r: String)
    ensures
        r@ == "{\"username\":\""@ + unquoted(username@) + "\",\"role\":\""@ + role_text(role)
            + "\"}"@,
{
    let mut s = string_of_str("{\"username\":\"");
    append_unquoted(&mut s, username);
    append_str(&mut s, "\",\"role\":\"");
    append_str(&mut s, role.as_str());
    append_str(&mut s, "\"}");
    s
}

/// Character of a 6-bit value in the URL-safe base64 alphabet:
/// `A`-`Z`, `a`-`z`, `0`-`9`, `-`, `_`.
pub open spec fn b64_char(v: int) -> char {
    (if v < 26 {
        65 + v
    } else if v < 52 {
        71 + v
    } else if v < 62 {
        v - 4
    } else if v == 62 {
        45
    } else {
        95
    }) as char
}

/// Text that `base64`'s URL-safe, unpadded engine writes for `bytes`: each
/// group of three bytes as four characters of six bits each, a trailing
/// group of one or two bytes as two or three characters, no padding.
pub open spec fn base64_url_text(bytes: Seq<u8>) -> Seq<char>
    decreases bytes.len(),
{
    if bytes.len() == 0 {
        Seq::empty()
    } else {
        let b0 = bytes[0] as int;
        let b1 = if bytes.len() > 1 { bytes[1] as int } else { 0 };
        let b2 = if bytes.len() > 2 { bytes[2] as int } else { 0 };
        let c0 = b64_char(b0 / 4);
        let c1 = b64_char((b0 % 4) * 16 + b1 / 16);
        let c2 = b64_char((b1 % 16) * 4 + b2 / 64);
        let c3 = b64_char(b2 % 64);
        if bytes.len() == 1 {
            seq![c0, c1]
        } else if bytes.len() == 2 {
            seq![c0, c1, c2]
        } else {
            seq![c0, c1, c2, c3] + base64_url_text(bytes.skip(3))
        }
    }
}

/// Unpadded base64 writes four characters per three bytes, rounding up.
pub proof fn lemma_base64_len(bytes: Seq<u8>)
    ensures
        base64_url_text(bytes).len() == (4 * bytes.len() + 2) / 3,
    decreases bytes.len(),
{
    if bytes.len() >= 3 {
        lemma_base64_len(bytes.skip(3));
    }
}

/// `Engine::encode` of `base64::engine::general_purpose::URL_SAFE_NO_PAD`.
#[verifier::external_body]
fn encode_url_safe(bytes: &Vec<u8>) -> (r: String)
    ensures
        r@ == base64_url_text(bytes@),
{
    base64::engine::general_purpose::URL_SAFE_NO_PAD.encode(bytes)
}

/// `RngCore::fill_bytes` of the operating system's generator on a buffer of
/// `n` zero bytes: `n` random bytes, of which nothing more is stated.
#[verifier::external_body]
fn os_random_bytes(n: usize) -> (r: Vec<u8>)
    ensures
        r@.len() == n,
{
    let mut buf = vec![0u8; n];
    rand::rngs::OsRng.fill_bytes(&mut buf);
    buf
}

/// A cryptographically random URL-safe token of `byte_len` random bytes,
/// encoded base64-url without padding.
pub fn random_token(byte_len: usize) -> (r: String)
    ensures
        exists|bytes: Seq<u8>| bytes.len() == byte_len && r@ == base64_url_text(bytes),
        r@.len() == (4 * byte_len + 2) / 3,
{
    let buf = os_random_bytes(byte_len);
    proof {
        lemma_base64_len(buf@);
    }
    encode_url_safe(&buf)
}

} // verus!
