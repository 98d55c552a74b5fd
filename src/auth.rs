//! Identities and bearer-token handling.
use vstd::prelude::*;
use vstd::string::StringExecFns;

verus! {

/// The claims that a signed bearer token carries.
#[derive(Debug)]
pub struct Claims {
    pub sub: u32,
    pub username: String,
    pub iat: usize,
    pub exp: usize,
}

/// The identity of a caller for the duration of a stream.
#[derive(Debug)]
pub struct AuthenticatedUser {
    pub user_id: u32,
    pub username: String,
}

impl AuthenticatedUser {
    /// A copy with the same fields.
    pub fn duplicate(&self) -> (r: AuthenticatedUser)
        ensures
            r == *self,
    {
        AuthenticatedUser { user_id: self.user_id, username: self.username.clone() }
    }
}

impl Clone for AuthenticatedUser {
    fn clone(&self) -> (r: Self)
        ensures
            r == *self,
    {
        self.duplicate()
    }
}

} // verus!

verus! {

/// Whether a text starts with `p`.
pub open spec fn has_prefix(s: Seq<char>, p: Seq<char>) -> bool {
    p.len() <= s.len() && s.take(p.len() as int) == p
}

/// Scans `s` from `i`, inside the `sep`-separated segment that starts at
/// `seg_start`, for the first segment that is `token=<value>`.
pub open spec fn query_scan(s: Seq<char>, seg_start: int, i: int) -> Option<Seq<char>>
    decreases s.len() - i,
{
    if i >= s.len() || s[i] == '&' {
        let seg = s.subrange(seg_start, if i >= s.len() { s.len() as int } else { i });
        if has_prefix(seg, "token="@) {
            Some(seg.skip(6))
        } else if i >= s.len() {
            None
        } else {
            query_scan(s, i + 1, i + 1)
        }
    } else {
        query_scan(s, seg_start, i + 1)
    }
}

/// The value of the first `token=` parameter of a query string.
pub open spec fn query_token(s: Seq<char>) -> Option<Seq<char>> {
    query_scan(s, 0, 0)
}

fn starts_with_at(s: &str, from: usize, to: usize, prefix: &str) -> (r: bool)
    requires
        from <= to <= s@.len(),
    ensures
        r == has_prefix(s@.subrange(from as int, to as int), prefix@),
{
    let n = prefix.unicode_len();
    if n > to - from {
        return false;
    }
    let head = s.substring_char(from, from + n).to_string();
    let p = prefix.to_string();
    proof {
        assert(s@.subrange(from as int, to as int).take(n as int) =~= s@.subrange(from as int, (from + n) as int));
    }
    head == p
}

/// The value of the first `token=` parameter of a query string such as
/// `token=abc&other=1`; parameters are separated by `&`.
pub fn extract_token_from_query(query: &str) -> (r: Option<String>)
    ensures
        opt_text(r) == query_token(query@),
{
    let n = query.unicode_len();
    let mut seg_start: usize = 0;
    let mut i: usize = 0;
    while i <= n
        invariant
            n == query@.len(),
            seg_start <= i <= n,
            seg_start <= n,
            query_scan(query@, 0, 0) == query_scan(query@, seg_start as int, i as int),
        decreases n + 1 - i,
    {
        if i == n || query.get_char(i) == '&' {
            if starts_with_at(query, seg_start, i, "token=") {
                proof {
                    reveal_strlit("token=");
                }
                let v = query.substring_char(seg_start + 6, i).to_string();
                proof {
                    assert(query@.subrange(seg_start as int, i as int).skip(6) =~= query@.subrange(
                        seg_start + 6,
                        i as int,
                    ));
                }
                return Some(v);
            }
            if i == n {
                return None;
            }
            seg_start = i + 1;
        }
        i = i + 1;
    }
    None
}

/// The view of an optional text.
pub open spec fn opt_text(o: Option<String>) -> Option<Seq<char>> {
    match o {
        Some(s) => Some(s@),
        None => None,
    }
}

/// A character of the Unicode `White_Space` property.
pub open spec fn is_white_space(c: char) -> bool {
    ||| '\u{9}' <= c <= '\u{d}'
    ||| c == ' '
    ||| c == '\u{85}'
    ||| c == '\u{a0}'
    ||| c == '\u{1680}'
    ||| '\u{2000}' <= c <= '\u{200a}'
    ||| c == '\u{2028}'
    ||| c == '\u{2029}'
    ||| c == '\u{202f}'
    ||| c == '\u{205f}'
    ||| c == '\u{3000}'
}

/// The text without its leading white space.
pub open spec fn trim_start(s: Seq<char>) -> Seq<char>
    decreases s.len(),
{
    if s.len() > 0 && is_white_space(s[0]) {
        trim_start(s.drop_first())
    } else {
        s
    }
}

/// The text without its trailing white space.
pub open spec fn trim_end(s: Seq<char>) -> Seq<char>
    decreases s.len(),
{
    if s.len() > 0 && is_white_space(s.last()) {
        trim_end(s.drop_last())
    } else {
        s
    }
}

/// What `str::trim` returns for a text: the text without leading and
/// trailing Unicode white space.
pub open spec fn trimmed(s: Seq<char>) -> Seq<char> {
    trim_end(trim_start(s))
}

/// Relies on `str::trim` of std to strip leading and trailing white space.
#[verifier::external_body]
fn trim_text(s: &str) -> (r: String)
    ensures
        r@ == trimmed(s@),
{
    s.trim().to_string()
}

/// What `str::to_lowercase` returns for a text.
pub uninterp spec fn lower_of(s: Seq<char>) -> Seq<char>;

/// Relies on `str::to_lowercase` of std for the lowercase form of a header name.
#[verifier::external_body]
fn lowercase(s: &str) -> (r: String)
    ensures
        r@ == lower_of(s@),
{
    s.to_lowercase()
}

/// The token of one trimmed cookie `auth_token=<v>`, `jwt=<v>` or `token=<v>`,
/// names tried in that order.
pub open spec fn cookie_value(c: Seq<char>) -> Option<Seq<char>> {
    if has_prefix(c, "auth_token="@) {
        Some(c.skip(11))
    } else if has_prefix(c, "jwt="@) {
        Some(c.skip(4))
    } else if has_prefix(c, "token="@) {
        Some(c.skip(6))
    } else {
        None
    }
}

/// Scans a cookie header from `i`, inside the `;`-separated cookie that starts
/// at `seg_start`, for the first cookie that carries a token once trimmed.
pub open spec fn cookie_scan(s: Seq<char>, seg_start: int, i: int) -> Option<Seq<char>>
    decreases s.len() - i,
{
    if i >= s.len() || s[i] == ';' {
        let seg = s.subrange(seg_start, if i >= s.len() { s.len() as int } else { i });
        if cookie_value(trimmed(seg)) is Some {
            cookie_value(trimmed(seg))
        } else if i >= s.len() {
            None
        } else {
            cookie_scan(s, i + 1, i + 1)
        }
    } else {
        cookie_scan(s, seg_start, i + 1)
    }
}

/// The token of the first cookie of a header that carries one.
pub open spec fn cookies_token(s: Seq<char>) -> Option<Seq<char>> {
    cookie_scan(s, 0, 0)
}

/// The token of one cookie that is already trimmed.
pub fn token_from_cookie(cookie: &str) -> (r: Option<String>)
    ensures
        opt_text(r) == cookie_value(cookie@),
{
    let n = cookie.unicode_len();
    if starts_with_at(cookie, 0, n, "auth_token=") {
        proof {
            reveal_strlit("auth_token=");
            assert(cookie@.subrange(0, n as int) =~= cookie@);
        }
        let v = cookie.substring_char(11, n).to_string();
        proof {
            assert(cookie@.skip(11) =~= cookie@.subrange(11, n as int));
        }
        return Some(v);
    }
    proof {
        assert(cookie@.subrange(0, n as int) =~= cookie@);
    }
    if starts_with_at(cookie, 0, n, "jwt=") {
        proof {
            reveal_strlit("jwt=");
        }
        let v = cookie.substring_char(4, n).to_string();
        proof {
            assert(cookie@.skip(4) =~= cookie@.subrange(4, n as int));
        }
        return Some(v);
    }
    if starts_with_at(cookie, 0, n, "token=") {
        proof {
            reveal_strlit("token=");
        }
        let v = cookie.substring_char(6, n).to_string();
        proof {
            assert(cookie@.skip(6) =~= cookie@.subrange(6, n as int));
        }
        return Some(v);
    }
    None
}

/// The token of the first cookie of a `Cookie` header, such as
/// `auth_token=abc; other=1`, that is named `auth_token`, `jwt` or `token`.
/// Cookies are separated by `;` and trimmed.
pub fn extract_token_from_cookies(cookie_header: &str) -> (r: Option<String>)
    ensures
        opt_text(r) == cookies_token(cookie_header@),
{
    let n = cookie_header.unicode_len();
    let mut seg_start: usize = 0;
    let mut i: usize = 0;
    while i <= n
        invariant
            n == cookie_header@.len(),
            seg_start <= i <= n,
            cookie_scan(cookie_header@, 0, 0) == cookie_scan(cookie_header@, seg_start as int, i as int),
        decreases n + 1 - i,
    {
        if i == n || cookie_header.get_char(i) == ';' {
            let seg = cookie_header.substring_char(seg_start, i);
            let cookie = trim_text(seg);
            match token_from_cookie(cookie.as_str()) {
                Some(v) => {
                    return Some(v);
                },
                None => {},
            }
            if i == n {
                return None;
            }
            seg_start = i + 1;
        }
        i = i + 1;
    }
    None
}

/// The token that one header offers, given its lowercase name:
/// `authorization: Bearer <v>`, or the whole value of `x-auth-token` or
/// `x-jwt-token`.
pub open spec fn header_token(lower_name: Seq<char>, value: Seq<char>) -> Option<Seq<char>> {
    if lower_name == "authorization"@ && has_prefix(value, "Bearer "@) {
        Some(value.skip(7))
    } else if lower_name == "x-auth-token"@ || lower_name == "x-jwt-token"@ {
        Some(value)
    } else {
        None
    }
}

/// The token of the first header, from `i` on, that offers one.
pub open spec fn headers_token(hs: Seq<(&str, &str)>, i: int) -> Option<Seq<char>>
    decreases hs.len() - i,
{
    if i >= hs.len() {
        None
    } else if header_token(lower_of(hs[i].0@), hs[i].1@) is Some {
        header_token(lower_of(hs[i].0@), hs[i].1@)
    } else {
        headers_token(hs, i + 1)
    }
}

/// The token that one header offers, given its name in lowercase.
pub fn token_from_header(lower_name: &str, value: &str) -> (r: Option<String>)
    ensures
        opt_text(r) == header_token(lower_name@, value@),
{
    let name = lower_name.to_string();
    if name == "authorization".to_string() {
        let n = value.unicode_len();
        if starts_with_at(value, 0, n, "Bearer ") {
            proof {
                reveal_strlit("Bearer ");
                assert(value@.subrange(0, n as int) =~= value@);
            }
            let v = value.substring_char(7, n).to_string();
            proof {
                assert(value@.skip(7) =~= value@.subrange(7, n as int));
            }
            return Some(v);
        }
        proof {
            assert(value@.subrange(0, n as int) =~= value@);
            reveal_strlit("authorization");
            reveal_strlit("x-auth-token");
            reveal_strlit("x-jwt-token");
            assert("authorization"@.len() != "x-auth-token"@.len());
            assert("authorization"@.len() != "x-jwt-token"@.len());
        }
        return None;
    }
    if name == "x-auth-token".to_string() || name == "x-jwt-token".to_string() {
        return Some(value.to_string());
    }
    None
}

/// The token that the first suitable header of an upgrade request offers:
/// `Authorization: Bearer <v>`, `X-Auth-Token` or `X-JWT-Token`, with header
/// names compared in lowercase.
pub fn extract_token_from_headers(headers: &[(&str, &str)]) -> (r: Option<String>)
    ensures
        opt_text(r) == headers_token(headers@, 0),
{
    let mut i: usize = 0;
    while i < headers.len()
        invariant
            i <= headers@.len(),
            headers_token(headers@, 0) == headers_token(headers@, i as int),
        decreases headers@.len() - i,
    {
        let (name, value) = headers[i];
        let lower = lowercase(name);
        match token_from_header(lower.as_str(), value) {
            Some(v) => {
                return Some(v);
            },
            None => {},
        }
        i = i + 1;
    }
    None
}

impl AuthenticatedUser {
    /// The identity that validated claims name.
    pub fn from_claims(claims: Claims) -> (r: AuthenticatedUser)
        ensures
            r.user_id == claims.sub,
            r.username == claims.username,
    {
        AuthenticatedUser { user_id: claims.sub, username: claims.username }
    }
}

/// The rejection reason for a token that failed validation.
pub fn invalid_token(reason: &str) -> (r: String)
    ensures
        r@ == "Invalid token: "@ + reason@,
{
    "Invalid token: ".to_string().concat(reason)
}

#[verifier::external_type_specification]
#[verifier::external_body]
pub struct ExDecodingKey(jsonwebtoken::DecodingKey);

#[verifier::external_type_specification]
#[verifier::external_body]
pub struct ExValidation(jsonwebtoken::Validation);

#[verifier::external_type_specification]
#[verifier::external_body]
pub struct ExJwtError(jsonwebtoken::errors::Error);

#[verifier::external_type_specification]
#[verifier::external_body]
pub struct ExJsonValue(serde_json::Value);

/// Relies on `serde_json::Value::as_u64`; nothing is assumed of its answer.
pub assume_specification[ serde_json::Value::as_u64 ](v: &serde_json::Value) -> Option<u64>;

/// Relies on `serde_json::Value::as_str`; nothing is assumed of its answer.
pub assume_specification<'a>[ serde_json::Value::as_str ](v: &'a serde_json::Value) -> Option<&'a str>;

/// Relies on `jsonwebtoken::DecodingKey::from_secret` for the HMAC key of a
/// shared secret.
#[verifier::external_body]
fn decoding_key(secret: &str) -> jsonwebtoken::DecodingKey {
    jsonwebtoken::DecodingKey::from_secret(secret.as_bytes())
}

/// Relies on `jsonwebtoken::Validation::new`: HS256, with the expiry
/// checked (its default).
#[verifier::external_body]
fn hs256_validation() -> jsonwebtoken::Validation {
    jsonwebtoken::Validation::new(jsonwebtoken::Algorithm::HS256)
}

/// Relies on `jsonwebtoken::decode`: the signature and the expiry are
/// checked and the claims come back as JSON. The outcome depends on the clock.
#[verifier::external_body]
fn decode_claims(
    token: &str,
    key: &jsonwebtoken::DecodingKey,
    validation: &jsonwebtoken::Validation,
) -> Result<serde_json::Value, jsonwebtoken::errors::Error> {
    jsonwebtoken::decode::<serde_json::Value>(token, key, validation).map(|data| data.claims)
}

/// Relies on `serde_json::Value::get` for a member of the claims object.
#[verifier::external_body]
fn claim<'a>(claims: &'a serde_json::Value, name: &str) -> Option<&'a serde_json::Value> {
    claims.get(name)
}

/// Relies on the `Display` of jsonwebtoken's error for its description.
#[verifier::external_body]
fn error_text(e: &jsonwebtoken::errors::Error) -> String {
    e.to_string()
}

proof fn lemma_prefix_of_concat(p: Seq<char>, x: Seq<char>)
    ensures
        has_prefix(p + x, p),
{
    assert((p + x).take(p.len() as int) =~= p);
}

/// The claims read from a token's payload: `sub` a 32-bit number, `username`
/// a text, `iat` and `exp` numbers; `None` when any is missing or does not fit.
pub fn claims_from_values(sub: Option<u64>, username: Option<&str>, iat: Option<u64>, exp: Option<u64>) -> (r: Option<
    Claims,
>)
    ensures
        match (sub, username, iat, exp) {
            (Some(s), Some(u), Some(i), Some(e)) => if s <= u32::MAX && i <= usize::MAX && e <= usize::MAX {
                r matches Some(c) && c.sub == s && c.username@ == u@ && c.iat == i && c.exp == e
            } else {
                r is None
            },
            _ => r is None,
        },
{
    match (sub, username, iat, exp) {
        (Some(s), Some(u), Some(i), Some(e)) => {
            if s <= 0xffff_ffffu64 && i <= usize::MAX as u64 && e <= usize::MAX as u64 {
                Some(Claims { sub: s as u32, username: u.to_string(), iat: i as usize, exp: e as usize })
            } else {
                None
            }
        },
        _ => None,
    }
}

/// The outcome of validation once the signature and expiry have passed,
/// from the claim values found in the token: the identity they name, or the
/// refusal of a token whose claims are missing or ill-typed.
pub fn user_from_claim_values(sub: Option<u64>, username: Option<&str>, iat: Option<u64>, exp: Option<u64>) -> (r:
    Result<AuthenticatedUser, String>)
    ensures
        match (sub, username, iat, exp) {
            (Some(s), Some(u), Some(i), Some(e)) => if s <= u32::MAX && i <= usize::MAX && e <= usize::MAX {
                r matches Ok(user) && user.user_id == s && user.username@ == u@
            } else {
                r matches Err(m) && m@ == "Invalid token: "@ + "missing or ill-typed claims"@
            },
            _ => r matches Err(m) && m@ == "Invalid token: "@ + "missing or ill-typed claims"@,
        },
{
    match claims_from_values(sub, username, iat, exp) {
        Some(c) => Ok(AuthenticatedUser::from_claims(c)),
        None => Err(invalid_token("missing or ill-typed claims")),
    }
}

fn number_claim(claims: &serde_json::Value, name: &str) -> Option<u64> {
    match claim(claims, name) {
        Some(v) => v.as_u64(),
        None => None,
    }
}

/// Checks HS256 bearer tokens signed with a shared secret.
pub struct JwtValidator {
    secret: jsonwebtoken::DecodingKey,
    validation: jsonwebtoken::Validation,
}

impl JwtValidator {
    /// A validator for tokens signed with `secret`, expiry checked.
    pub fn new(secret: &str) -> JwtValidator {
        JwtValidator { secret: decoding_key(secret), validation: hs256_validation() }
    }

    /// The identity a valid token names. A token whose signature or expiry
    /// fails is refused with a reason that starts with `Invalid token: `; the
    /// claims of one that passes decide as [`user_from_claim_values`] says.
    pub fn validate_token(&self, token: &str) -> (r: Result<AuthenticatedUser, String>)
        ensures
            r matches Err(e) ==> has_prefix(e@, "Invalid token: "@),
    {
        match decode_claims(token, &self.secret, &self.validation) {
            Ok(claims) => {
                let username = match claim(&claims, "username") {
                    Some(v) => v.as_str(),
                    None => None,
                };
                let r = user_from_claim_values(
                    number_claim(&claims, "sub"),
                    username,
                    number_claim(&claims, "iat"),
                    number_claim(&claims, "exp"),
                );
                proof {
                    lemma_prefix_of_concat("Invalid token: "@, "missing or ill-typed claims"@);
                }
                r
            },
            Err(err) => {
                let reason = error_text(&err);
                let e = invalid_token(reason.as_str());
                proof {
                    lemma_prefix_of_concat("Invalid token: "@, reason@);
                }
                Err(e)
            },
        }
    }
}

} // verus!
