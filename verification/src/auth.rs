//! The device-authorization protocol client: response shapes, the closed
//! error taxonomy, and the classification of every authorization-server
//! reply.
//!
//! A reply body is classified the same way for all three operations: if it
//! decodes as an error envelope, its `error` code string is mapped into the
//! taxonomy at this boundary (an unrecognized code is a contract violation
//! and maps to [`AuthorizationError::MalformedResponse`]); otherwise, if it
//! decodes as the operation's success shape, the call succeeds; otherwise
//! the reply is a protocol violation and the call fails as
//! `MalformedResponse`. The network exchange itself is performed by an
//! unverified shell, which hands the body text in and takes the
//! classification out.

use vstd::prelude::*;

use crate::config::str_eq;
use crate::json::{parse_lit, parse_num, parse_string, sp_lit, sp_num, sp_string};

verus! {

/// The closed error taxonomy shared by all three protocol operations.
/// `AuthorizationPending` and `SlowDown` are the only retryable members;
/// every other variant is terminal for the current attempt.
#[derive(Clone, Copy, Debug, PartialEq, Eq, Structural)]
pub enum AuthorizationError {
    /// The request is missing a parameter or is otherwise malformed.
    InvalidRequest,
    /// The client may not request an authorization code.
    UnauthorizedClient,
    /// The resource owner or server denied the request.
    AccessDenied,
    /// The requested response type is unsupported.
    UnsupportedResponseType,
    /// The requested scope is wrong.
    InvalidScope,
    /// The server hit an unexpected condition.
    ServerError,
    /// The server is temporarily overloaded or in maintenance.
    TemporarilyUnavailable,
    /// The user has not yet entered the user code; poll again.
    AuthorizationPending,
    /// Polling is too frequent; widen the interval before the next poll.
    SlowDown,
    /// The device code's lifetime has elapsed; the flow must restart.
    ExpiredToken,
    /// The exchange itself failed: a network or connection error.
    TransportFailure,
    /// The reply matched neither an error envelope nor the success shape,
    /// or carried an unrecognized error code.
    MalformedResponse,
}

/// An error envelope as the server sends it.
#[derive(Debug)]
pub struct ErrorResponse {
    pub error: String,
    pub error_description: Option<String>,
}

/// A successful device/user code grant.
#[derive(Debug)]
pub struct CodePairResponse {
    pub user_code: String,
    pub device_code: String,
    pub verification_uri: String,
    pub expires_in: i64,
    pub interval: u64,
}

/// A successful token grant, from either the device-code or the refresh
/// exchange.
#[derive(Debug)]
pub struct TokenResponse {
    pub access_token: String,
    pub refresh_token: String,
    pub token_type: String,
    pub expires_in: u64,
}

impl Clone for TokenResponse {
    fn clone(&self) -> (r: Self)
        ensures
            r.access_token@ == self.access_token@,
            r.refresh_token@ == self.refresh_token@,
            r.token_type@ == self.token_type@,
            r.expires_in == self.expires_in,
    {
        TokenResponse {
            access_token: self.access_token.clone(),
            refresh_token: self.refresh_token.clone(),
            token_type: self.token_type.clone(),
            expires_in: self.expires_in,
        }
    }
}

/// How each known `error` code string reads in the taxonomy; anything
/// outside the known set is a contract violation.
pub open spec fn spec_map_error_code(code: Seq<char>) -> AuthorizationError {
    if code == "invalid_request"@ {
        AuthorizationError::InvalidRequest
    } else if code == "unauthorized_client"@ {
        AuthorizationError::UnauthorizedClient
    } else if code == "access_denied"@ {
        AuthorizationError::AccessDenied
    } else if code == "unsupported_response_type"@ {
        AuthorizationError::UnsupportedResponseType
    } else if code == "invalid_scope"@ {
        AuthorizationError::InvalidScope
    } else if code == "server_error"@ {
        AuthorizationError::ServerError
    } else if code == "temporarily_unavailable"@ {
        AuthorizationError::TemporarilyUnavailable
    } else if code == "authorization_pending"@ {
        AuthorizationError::AuthorizationPending
    } else if code == "slow_down"@ {
        AuthorizationError::SlowDown
    } else if code == "expired_token"@ {
        AuthorizationError::ExpiredToken
    } else {
        AuthorizationError::MalformedResponse
    }
}

impl AuthorizationError {
    /// Decode the server's string-coded discriminant into the taxonomy,
    /// immediately at the boundary.
    pub fn from_error_response(res: &ErrorResponse) -> (r: Self)
        ensures
            r == spec_map_error_code(res.error@),
    {
        let code = res.error.as_str();
        if str_eq(code, "invalid_request") {
            AuthorizationError::InvalidRequest
        } else if str_eq(code, "unauthorized_client") {
            AuthorizationError::UnauthorizedClient
        } else if str_eq(code, "access_denied") {
            AuthorizationError::AccessDenied
        } else if str_eq(code, "unsupported_response_type") {
            AuthorizationError::UnsupportedResponseType
        } else if str_eq(code, "invalid_scope") {
            AuthorizationError::InvalidScope
        } else if str_eq(code, "server_error") {
            AuthorizationError::ServerError
        } else if str_eq(code, "temporarily_unavailable") {
            AuthorizationError::TemporarilyUnavailable
        } else if str_eq(code, "authorization_pending") {
            AuthorizationError::AuthorizationPending
        } else if str_eq(code, "slow_down") {
            AuthorizationError::SlowDown
        } else if str_eq(code, "expired_token") {
            AuthorizationError::ExpiredToken
        } else {
            AuthorizationError::MalformedResponse
        }
    }
}

// ---------------------------------------------------------------------------
// Reply canonicalization: servers may format a JSON reply freely, so the
// insignificant whitespace between tokens is dropped before the shape is
// read. Whitespace inside quoted strings, escapes included, is kept.
// ---------------------------------------------------------------------------
/// The whitespace JSON allows between tokens.
pub open spec fn spec_json_ws(c: char) -> bool {
    c == ' ' || c == '\t' || c == '\n' || c == '\r'
}

/// The reply text with inter-token whitespace removed. The flag says
/// whether the position lies inside a quoted string, where every character
/// (and every two-character escape) is kept as it stands.
pub open spec fn spec_strip_ws(s: Seq<char>, in_string: bool) -> Seq<char>
    decreases s.len(),
{
    if s.len() == 0 {
        Seq::empty()
    } else if in_string {
        if s[0] == '\\' && s.len() >= 2 {
            seq![s[0], s[1]] + spec_strip_ws(s.skip(2), true)
        } else if s[0] == '"' {
            seq![s[0]] + spec_strip_ws(s.skip(1), false)
        } else {
            seq![s[0]] + spec_strip_ws(s.skip(1), true)
        }
    } else {
        if spec_json_ws(s[0]) {
            spec_strip_ws(s.skip(1), false)
        } else if s[0] == '"' {
            seq![s[0]] + spec_strip_ws(s.skip(1), true)
        } else {
            seq![s[0]] + spec_strip_ws(s.skip(1), false)
        }
    }
}

/// The canonical spelling of a reply body.
pub open spec fn spec_canonical_body(s: Seq<char>) -> Seq<char> {
    spec_strip_ws(s, false)
}

/// Drop the whitespace between tokens, from position `i` on.
fn strip_ws_from(body: &Vec<char>, i: usize, in_string: bool) -> (r: Vec<char>)
    requires
        i <= body@.len(),
    ensures
        r@ == spec_strip_ws(body@.skip(i as int), in_string),
    decreases body@.len() - i,
{
    if i >= body.len() {
        return Vec::new();
    }
    let c = body[i];
    proof {
        assert(body@.skip(i as int)[0] == c);
    }
    if in_string {
        if c == '\\' && i + 1 < body.len() {
            let e = body[i + 1];
            proof {
                assert(body@.skip(i as int)[1] == e);
                assert(body@.skip(i as int).skip(2) =~= body@.skip(i + 2));
            }
            let mut r = strip_ws_from(body, i + 2, true);
            r.insert(0, e);
            r.insert(0, c);
            proof {
                assert(r@ =~= seq![c, e] + r@.skip(2));
            }
            r
        } else if c == '\\' {
            // A trailing backslash: the suffix has length one, so the
            // escape arm of the specification does not apply.
            let mut r = strip_ws_from(body, i + 1, true);
            r.insert(0, c);
            proof {
                assert(body@.skip(i as int).skip(1) =~= body@.skip(i + 1));
                assert(r@ =~= seq![c] + r@.skip(1));
            }
            r
        } else {
            proof {
                assert(body@.skip(i as int).skip(1) =~= body@.skip(i + 1));
            }
            let next = c != '"';
            let mut r = strip_ws_from(body, i + 1, next);
            r.insert(0, c);
            proof {
                assert(r@ =~= seq![c] + r@.skip(1));
            }
            r
        }
    } else {
        if c == ' ' || c == '\t' || c == '\n' || c == '\r' {
            proof {
                assert(body@.skip(i as int).skip(1) =~= body@.skip(i + 1));
            }
            strip_ws_from(body, i + 1, false)
        } else {
            proof {
                assert(body@.skip(i as int).skip(1) =~= body@.skip(i + 1));
            }
            let next = c == '"';
            let mut r = strip_ws_from(body, i + 1, next);
            r.insert(0, c);
            proof {
                assert(r@ =~= seq![c] + r@.skip(1));
            }
            r
        }
    }
}

/// The reply body in canonical spelling.
pub(crate) fn canonical_body(body: &Vec<char>) -> (r: Vec<char>)
    ensures
        r@ == spec_canonical_body(body@),
{
    proof {
        assert(body@.skip(0) =~= body@);
    }
    strip_ws_from(body, 0, false)
}

// ---------------------------------------------------------------------------
// Reply shapes, as mathematical functions of the canonical body text.
// ---------------------------------------------------------------------------
/// An error envelope: the `error` code and the optional description, when
/// the body is exactly that and nothing else.
pub open spec fn sp_error_envelope(s: Seq<char>) -> Option<(Seq<char>, Option<Seq<char>>)> {
    match sp_lit(s, "{\"error\":"@) {
        None => None,
        Some(s1) => match sp_string(s1) {
            None => None,
            Some((code, s2)) => match sp_lit(s2, "}"@) {
                Some(r) => if r.len() == 0 {
                    Some((code, None))
                } else {
                    None
                },
                None => match sp_lit(s2, ",\"error_description\":"@) {
                    None => None,
                    Some(s3) => match sp_string(s3) {
                        None => None,
                        Some((desc, s4)) => match sp_lit(s4, "}"@) {
                            Some(r) => if r.len() == 0 {
                                Some((code, Some(desc)))
                            } else {
                                None
                            },
                            None => None,
                        },
                    },
                },
            },
        },
    }
}

/// A code-pair success body: user code, device code, verification URI,
/// lifetime and polling interval, when the body is exactly that.
pub open spec fn sp_codepair(s: Seq<char>) -> Option<
    (Seq<char>, Seq<char>, Seq<char>, u64, u64),
> {
    match sp_lit(s, "{\"user_code\":"@) {
        None => None,
        Some(s1) => match sp_string(s1) {
            None => None,
            Some((uc, s2)) => match sp_lit(s2, ",\"device_code\":"@) {
                None => None,
                Some(s3) => match sp_string(s3) {
                    None => None,
                    Some((dc, s4)) => match sp_lit(s4, ",\"verification_uri\":"@) {
                        None => None,
                        Some(s5) => match sp_string(s5) {
                            None => None,
                            Some((vu, s6)) => match sp_lit(s6, ",\"expires_in\":"@) {
                                None => None,
                                Some(s7) => match sp_num(s7) {
                                    None => None,
                                    Some((ei, s8)) => match sp_lit(s8, ",\"interval\":"@) {
                                        None => None,
                                        Some(s9) => match sp_num(s9) {
                                            None => None,
                                            Some((iv, s10)) => match sp_lit(s10, "}"@) {
                                                Some(r) => if r.len() == 0 {
                                                    Some((uc, dc, vu, ei, iv))
                                                } else {
                                                    None
                                                },
                                                None => None,
                                            },
                                        },
                                    },
                                },
                            },
                        },
                    },
                },
            },
        },
    }
}

/// A token success body: the credential quadruple, when the body is exactly
/// that.
pub open spec fn sp_token(s: Seq<char>) -> Option<(Seq<char>, Seq<char>, Seq<char>, u64)> {
    match sp_lit(s, "{\"access_token\":"@) {
        None => None,
        Some(s1) => match sp_string(s1) {
            None => None,
            Some((at, s2)) => match sp_lit(s2, ",\"refresh_token\":"@) {
                None => None,
                Some(s3) => match sp_string(s3) {
                    None => None,
                    Some((rt, s4)) => match sp_lit(s4, ",\"token_type\":"@) {
                        None => None,
                        Some(s5) => match sp_string(s5) {
                            None => None,
                            Some((tt, s6)) => match sp_lit(s6, ",\"expires_in\":"@) {
                                None => None,
                                Some(s7) => match sp_num(s7) {
                                    None => None,
                                    Some((ei, s8)) => match sp_lit(s8, "}"@) {
                                        Some(r) => if r.len() == 0 {
                                            Some((at, rt, tt, ei))
                                        } else {
                                            None
                                        },
                                        None => None,
                                    },
                                },
                            },
                        },
                    },
                },
            },
        },
    }
}

// ---------------------------------------------------------------------------
// Executable decoding of the three shapes.
// ---------------------------------------------------------------------------
/// Decode an error envelope, exactly.
fn parse_error_envelope(body: &Vec<char>) -> (r: Option<ErrorResponse>)
    ensures
        match r {
            Some(e) => sp_error_envelope(body@) == Some(
                (
                    e.error@,
                    match e.error_description {
                        Some(d) => Some(d@),
                        None => None,
                    },
                ),
            ),
            None => sp_error_envelope(body@) is None,
        },
{
    proof {
        assert(body@.skip(0) =~= body@);
    }
    let s1 = match parse_lit(body, 0, "{\"error\":") {
        Some(j) => j,
        None => {
            return None;
        },
    };
    let (code, s2) = match parse_string(body, s1) {
        Some(v) => v,
        None => {
            return None;
        },
    };
    match parse_lit(body, s2, "}") {
        Some(j) => {
            if j == body.len() {
                proof {
                    assert(body@.skip(j as int).len() == 0);
                }
                return Some(ErrorResponse { error: code, error_description: None });
            }
            return None;
        },
        None => {},
    }
    let s3 = match parse_lit(body, s2, ",\"error_description\":") {
        Some(j) => j,
        None => {
            return None;
        },
    };
    let (desc, s4) = match parse_string(body, s3) {
        Some(v) => v,
        None => {
            return None;
        },
    };
    let s5 = match parse_lit(body, s4, "}") {
        Some(j) => j,
        None => {
            return None;
        },
    };
    if s5 == body.len() {
        proof {
            assert(body@.skip(s5 as int).len() == 0);
        }
        Some(ErrorResponse { error: code, error_description: Some(desc) })
    } else {
        None
    }
}

/// Decode a code-pair success body, exactly; a lifetime beyond `i64` range
/// is refused.
fn parse_codepair_success(body: &Vec<char>) -> (r: Option<CodePairResponse>)
    ensures
        match r {
            Some(c) => {
                &&& sp_codepair(body@) matches Some((uc, dc, vu, ei, iv))
                &&& c.user_code@ == uc
                &&& c.device_code@ == dc
                &&& c.verification_uri@ == vu
                &&& c.expires_in == ei
                &&& c.expires_in >= 0
                &&& c.interval == iv
            },
            None => match sp_codepair(body@) {
                Some((uc, dc, vu, ei, iv)) => ei > i64::MAX,
                None => true,
            },
        },
{
    proof {
        assert(body@.skip(0) =~= body@);
    }
    let s1 = match parse_lit(body, 0, "{\"user_code\":") {
        Some(j) => j,
        None => {
            return None;
        },
    };
    let (uc, s2) = match parse_string(body, s1) {
        Some(v) => v,
        None => {
            return None;
        },
    };
    let s3 = match parse_lit(body, s2, ",\"device_code\":") {
        Some(j) => j,
        None => {
            return None;
        },
    };
    let (dc, s4) = match parse_string(body, s3) {
        Some(v) => v,
        None => {
            return None;
        },
    };
    let s5 = match parse_lit(body, s4, ",\"verification_uri\":") {
        Some(j) => j,
        None => {
            return None;
        },
    };
    let (vu, s6) = match parse_string(body, s5) {
        Some(v) => v,
        None => {
            return None;
        },
    };
    let s7 = match parse_lit(body, s6, ",\"expires_in\":") {
        Some(j) => j,
        None => {
            return None;
        },
    };
    let (ei, s8) = match parse_num(body, s7) {
        Some(v) => v,
        None => {
            return None;
        },
    };
    let s9 = match parse_lit(body, s8, ",\"interval\":") {
        Some(j) => j,
        None => {
            return None;
        },
    };
    let (iv, s10) = match parse_num(body, s9) {
        Some(v) => v,
        None => {
            return None;
        },
    };
    let s11 = match parse_lit(body, s10, "}") {
        Some(j) => j,
        None => {
            return None;
        },
    };
    if s11 != body.len() {
        return None;
    }
    proof {
        assert(body@.skip(s11 as int).len() == 0);
    }
    if ei > i64::MAX as u64 {
        return None;
    }
    Some(
        CodePairResponse {
            user_code: uc,
            device_code: dc,
            verification_uri: vu,
            expires_in: ei as i64,
            interval: iv,
        },
    )
}

/// Decode a token success body, exactly.
fn parse_token_success(body: &Vec<char>) -> (r: Option<TokenResponse>)
    ensures
        match r {
            Some(t) => {
                &&& sp_token(body@) matches Some((at, rt, tt, ei))
                &&& t.access_token@ == at
                &&& t.refresh_token@ == rt
                &&& t.token_type@ == tt
                &&& t.expires_in == ei
            },
            None => sp_token(body@) is None,
        },
{
    proof {
        assert(body@.skip(0) =~= body@);
    }
    let s1 = match parse_lit(body, 0, "{\"access_token\":") {
        Some(j) => j,
        None => {
            return None;
        },
    };
    let (at, s2) = match parse_string(body, s1) {
        Some(v) => v,
        None => {
            return None;
        },
    };
    let s3 = match parse_lit(body, s2, ",\"refresh_token\":") {
        Some(j) => j,
        None => {
            return None;
        },
    };
    let (rt, s4) = match parse_string(body, s3) {
        Some(v) => v,
        None => {
            return None;
        },
    };
    let s5 = match parse_lit(body, s4, ",\"token_type\":") {
        Some(j) => j,
        None => {
            return None;
        },
    };
    let (tt, s6) = match parse_string(body, s5) {
        Some(v) => v,
        None => {
            return None;
        },
    };
    let s7 = match parse_lit(body, s6, ",\"expires_in\":") {
        Some(j) => j,
        None => {
            return None;
        },
    };
    let (ei, s8) = match parse_num(body, s7) {
        Some(v) => v,
        None => {
            return None;
        },
    };
    let s9 = match parse_lit(body, s8, "}") {
        Some(j) => j,
        None => {
            return None;
        },
    };
    if s9 != body.len() {
        return None;
    }
    proof {
        assert(body@.skip(s9 as int).len() == 0);
    }
    Some(TokenResponse { access_token: at, refresh_token: rt, token_type: tt, expires_in: ei })
}

/// Classify a reply to the code-pair request: an error envelope maps
/// through the taxonomy, the success shape yields the code pair, anything
/// else is a protocol violation. The shapes are read off the canonical
/// spelling, so a server may format its reply freely.
pub fn classify_codepair_response(body: &Vec<char>) -> (r: Result<
    CodePairResponse,
    AuthorizationError,
>)
    ensures
        match sp_error_envelope(spec_canonical_body(body@)) {
            Some((code, desc)) => r matches Err(e) && e == spec_map_error_code(code),
            None => match sp_codepair(spec_canonical_body(body@)) {
                Some((uc, dc, vu, ei, iv)) => if ei <= i64::MAX {
                    {
                        &&& r matches Ok(c)
                        &&& c.user_code@ == uc
                        &&& c.device_code@ == dc
                        &&& c.verification_uri@ == vu
                        &&& c.expires_in == ei
                        &&& c.interval == iv
                    }
                } else {
                    r == Result::<CodePairResponse, AuthorizationError>::Err(
                        AuthorizationError::MalformedResponse,
                    )
                },
                None => r == Result::<CodePairResponse, AuthorizationError>::Err(
                    AuthorizationError::MalformedResponse,
                ),
            },
        },
{
    let canon = canonical_body(body);
    match parse_error_envelope(&canon) {
        Some(env) => Err(AuthorizationError::from_error_response(&env)),
        None => match parse_codepair_success(&canon) {
            Some(c) => Ok(c),
            None => Err(AuthorizationError::MalformedResponse),
        },
    }
}

/// Classify a reply to either token exchange (device-code grant or refresh
/// grant): same rules as for the code pair, with the token success shape.
pub fn classify_token_response(body: &Vec<char>) -> (r: Result<TokenResponse, AuthorizationError>)
    ensures
        match sp_error_envelope(spec_canonical_body(body@)) {
            Some((code, desc)) => r matches Err(e) && e == spec_map_error_code(code),
            None => match sp_token(spec_canonical_body(body@)) {
                Some((at, rt, tt, ei)) => {
                    &&& r matches Ok(t)
                    &&& t.access_token@ == at
                    &&& t.refresh_token@ == rt
                    &&& t.token_type@ == tt
                    &&& t.expires_in == ei
                },
                None => r == Result::<TokenResponse, AuthorizationError>::Err(
                    AuthorizationError::MalformedResponse,
                ),
            },
        },
{
    let canon = canonical_body(body);
    match parse_error_envelope(&canon) {
        Some(env) => Err(AuthorizationError::from_error_response(&env)),
        None => match parse_token_success(&canon) {
            Some(t) => Ok(t),
            None => Err(AuthorizationError::MalformedResponse),
        },
    }
}


// ---------------------------------------------------------------------------
// Request bodies: the three form-encoded exchanges, as exact functions of
// their parameters. The unverified shell only posts these strings.
// ---------------------------------------------------------------------------
/// The uppercase numeral for one hexadecimal digit.
pub open spec fn spec_hex_upper(d: u8) -> char {
    if d == 0 {
        '0'
    } else if d == 1 {
        '1'
    } else if d == 2 {
        '2'
    } else if d == 3 {
        '3'
    } else if d == 4 {
        '4'
    } else if d == 5 {
        '5'
    } else if d == 6 {
        '6'
    } else if d == 7 {
        '7'
    } else if d == 8 {
        '8'
    } else if d == 9 {
        '9'
    } else if d == 10 {
        'A'
    } else if d == 11 {
        'B'
    } else if d == 12 {
        'C'
    } else if d == 13 {
        'D'
    } else if d == 14 {
        'E'
    } else {
        'F'
    }
}

/// The UTF-8 bytes of one character.
pub open spec fn spec_utf8_bytes(c: char) -> Seq<u8> {
    let u = c as u32;
    if u < 0x80 {
        seq![u as u8]
    } else if u < 0x800 {
        seq![(0xC0 + u / 0x40) as u8, (0x80 + u % 0x40) as u8]
    } else if u < 0x10000 {
        seq![
            (0xE0 + u / 0x1000) as u8,
            (0x80 + (u / 0x40) % 0x40) as u8,
            (0x80 + u % 0x40) as u8,
        ]
    } else {
        seq![
            (0xF0 + u / 0x40000) as u8,
            (0x80 + (u / 0x1000) % 0x40) as u8,
            (0x80 + (u / 0x40) % 0x40) as u8,
            (0x80 + u % 0x40) as u8,
        ]
    }
}

/// One byte percent-encoded.
pub open spec fn spec_pct_byte(b: u8) -> Seq<char> {
    seq!['%', spec_hex_upper(b / 16), spec_hex_upper(b % 16)]
}

/// A byte sequence percent-encoded.
pub open spec fn spec_pct_bytes(bs: Seq<u8>) -> Seq<char>
    decreases bs.len(),
{
    if bs.len() == 0 {
        Seq::empty()
    } else {
        spec_pct_byte(bs[0]) + spec_pct_bytes(bs.skip(1))
    }
}

/// Whether a character stands unencoded in a form value.
pub open spec fn spec_form_unreserved(c: char) -> bool {
    let u = c as u32;
    (0x41 <= u <= 0x5A) || (0x61 <= u <= 0x7A) || (0x30 <= u <= 0x39) || u == 0x2D || u == 0x5F
        || u == 0x2E || u == 0x7E
}

/// One character of a form value.
pub open spec fn spec_form_char(c: char) -> Seq<char> {
    if spec_form_unreserved(c) {
        seq![c]
    } else {
        spec_pct_bytes(spec_utf8_bytes(c))
    }
}

/// A form value: unreserved characters as they stand, everything else as
/// the percent-encoded UTF-8 bytes.
pub open spec fn spec_form_encode(s: Seq<char>) -> Seq<char>
    decreases s.len(),
{
    if s.len() == 0 {
        Seq::empty()
    } else {
        spec_form_char(s[0]) + spec_form_encode(s.skip(1))
    }
}

/// The body of the device/user code request.
pub open spec fn spec_codepair_request(client_id: Seq<char>) -> Seq<char> {
    "client_id="@ + spec_form_encode(client_id) + "&response_type=device_code&scope=profile"@
}

/// The body of the device-code token exchange.
pub open spec fn spec_device_grant_request(device_code: Seq<char>, user_code: Seq<char>) -> Seq<
    char,
> {
    "grant_type=device_code&device_code="@ + spec_form_encode(device_code) + "&user_code="@
        + spec_form_encode(user_code)
}

/// The body of the refresh-token exchange.
pub open spec fn spec_refresh_request(refresh_token: Seq<char>, client_id: Seq<char>) -> Seq<
    char,
> {
    "grant_type=refresh_token&refresh_token="@ + spec_form_encode(refresh_token) + "&client_id="@
        + spec_form_encode(client_id)
}

/// The uppercase numeral for one hexadecimal digit.
fn hex_upper(d: u8) -> (c: char)
    requires
        d < 16,
    ensures
        c == spec_hex_upper(d),
{
    if d == 0 {
        '0'
    } else if d == 1 {
        '1'
    } else if d == 2 {
        '2'
    } else if d == 3 {
        '3'
    } else if d == 4 {
        '4'
    } else if d == 5 {
        '5'
    } else if d == 6 {
        '6'
    } else if d == 7 {
        '7'
    } else if d == 8 {
        '8'
    } else if d == 9 {
        '9'
    } else if d == 10 {
        'A'
    } else if d == 11 {
        'B'
    } else if d == 12 {
        'C'
    } else if d == 13 {
        'D'
    } else if d == 14 {
        'E'
    } else {
        'F'
    }
}

/// Append one percent-encoded byte.
fn push_pct_byte(s: &mut String, b: u8)
    ensures
        final(s)@ == old(s)@ + spec_pct_byte(b),
{
    crate::json::push_char(s, '%');
    crate::json::push_char(s, hex_upper(b / 16));
    crate::json::push_char(s, hex_upper(b % 16));
    proof {
        assert(s@ =~= old(s)@ + spec_pct_byte(b));
    }
}

/// Percent-encoding written out for one to four bytes.
proof fn lemma_pct_bytes_1(b0: u8)
    ensures
        spec_pct_bytes(seq![b0]) == spec_pct_byte(b0),
{
    assert(seq![b0].skip(1) =~= Seq::<u8>::empty());
    assert(spec_pct_bytes(Seq::<u8>::empty()) == Seq::<char>::empty());
    assert(spec_pct_bytes(seq![b0]) =~= spec_pct_byte(b0));
}

proof fn lemma_pct_bytes_2(b0: u8, b1: u8)
    ensures
        spec_pct_bytes(seq![b0, b1]) == spec_pct_byte(b0) + spec_pct_byte(b1),
{
    assert(seq![b0, b1].skip(1) =~= seq![b1]);
    lemma_pct_bytes_1(b1);
    assert(spec_pct_bytes(seq![b0, b1]) =~= spec_pct_byte(b0) + spec_pct_byte(b1));
}

proof fn lemma_pct_bytes_3(b0: u8, b1: u8, b2: u8)
    ensures
        spec_pct_bytes(seq![b0, b1, b2]) == spec_pct_byte(b0) + spec_pct_byte(b1) + spec_pct_byte(
            b2,
        ),
{
    assert(seq![b0, b1, b2].skip(1) =~= seq![b1, b2]);
    lemma_pct_bytes_2(b1, b2);
    assert(spec_pct_bytes(seq![b0, b1, b2]) =~= spec_pct_byte(b0) + spec_pct_byte(b1)
        + spec_pct_byte(b2));
}

proof fn lemma_pct_bytes_4(b0: u8, b1: u8, b2: u8, b3: u8)
    ensures
        spec_pct_bytes(seq![b0, b1, b2, b3]) == spec_pct_byte(b0) + spec_pct_byte(b1)
            + spec_pct_byte(b2) + spec_pct_byte(b3),
{
    assert(seq![b0, b1, b2, b3].skip(1) =~= seq![b1, b2, b3]);
    lemma_pct_bytes_3(b1, b2, b3);
    assert(spec_pct_bytes(seq![b0, b1, b2, b3]) =~= spec_pct_byte(b0) + spec_pct_byte(b1)
        + spec_pct_byte(b2) + spec_pct_byte(b3));
}

/// Append one form-value character.
fn push_form_char(s: &mut String, c: char)
    ensures
        final(s)@ == old(s)@ + spec_form_char(c),
{
    let u = c as u32;
    if (0x41 <= u && u <= 0x5A) || (0x61 <= u && u <= 0x7A) || (0x30 <= u && u <= 0x39) || u
        == 0x2D || u == 0x5F || u == 0x2E || u == 0x7E {
        crate::json::push_char(s, c);
    } else if u < 0x80 {
        push_pct_byte(s, u as u8);
        proof {
            assert(spec_utf8_bytes(c) =~= seq![u as u8]);
            lemma_pct_bytes_1(u as u8);
        }
    } else if u < 0x800 {
        let b0: u8 = (0xC0 + u / 0x40) as u8;
        let b1: u8 = (0x80 + u % 0x40) as u8;
        push_pct_byte(s, b0);
        push_pct_byte(s, b1);
        proof {
            assert(spec_utf8_bytes(c) =~= seq![b0, b1]);
            lemma_pct_bytes_2(b0, b1);
            assert(s@ =~= old(s)@ + spec_form_char(c));
        }
    } else if u < 0x10000 {
        let b0: u8 = (0xE0 + u / 0x1000) as u8;
        let b1: u8 = (0x80 + (u / 0x40) % 0x40) as u8;
        let b2: u8 = (0x80 + u % 0x40) as u8;
        push_pct_byte(s, b0);
        push_pct_byte(s, b1);
        push_pct_byte(s, b2);
        proof {
            assert(spec_utf8_bytes(c) =~= seq![b0, b1, b2]);
            lemma_pct_bytes_3(b0, b1, b2);
            assert(s@ =~= old(s)@ + spec_form_char(c));
        }
    } else {
        let b0: u8 = (0xF0 + u / 0x40000) as u8;
        let b1: u8 = (0x80 + (u / 0x1000) % 0x40) as u8;
        let b2: u8 = (0x80 + (u / 0x40) % 0x40) as u8;
        let b3: u8 = (0x80 + u % 0x40) as u8;
        push_pct_byte(s, b0);
        push_pct_byte(s, b1);
        push_pct_byte(s, b2);
        push_pct_byte(s, b3);
        proof {
            assert(spec_utf8_bytes(c) =~= seq![b0, b1, b2, b3]);
            lemma_pct_bytes_4(b0, b1, b2, b3);
            assert(s@ =~= old(s)@ + spec_form_char(c));
        }
    }
}

/// Form encoding distributes over extending the value by one character.
proof fn lemma_form_encode_snoc(s: Seq<char>, c: char)
    ensures
        spec_form_encode(s.push(c)) == spec_form_encode(s) + spec_form_char(c),
    decreases s.len(),
{
    if s.len() == 0 {
        assert(s.push(c)[0] == c);
        assert(s.push(c).skip(1) =~= Seq::<char>::empty());
        assert(spec_form_encode(Seq::<char>::empty()) == Seq::<char>::empty());
        assert(spec_form_encode(s.push(c)) =~= spec_form_char(c));
    } else {
        assert(s.push(c)[0] == s[0]);
        assert(s.push(c).skip(1) =~= s.skip(1).push(c));
        lemma_form_encode_snoc(s.skip(1), c);
        assert((spec_form_char(s[0]) + spec_form_encode(s.skip(1))) + spec_form_char(c)
            =~= spec_form_char(s[0]) + (spec_form_encode(s.skip(1)) + spec_form_char(c)));
    }
}

/// Append a whole form value.
fn push_form_value(s: &mut String, v: &str)
    ensures
        final(s)@ == old(s)@ + spec_form_encode(v@),
{
    let n = v.unicode_len();
    let mut i: usize = 0;
    while i < n
        invariant
            n == v@.len(),
            i <= n,
            s@ == old(s)@ + spec_form_encode(v@.take(i as int)),
        decreases n - i,
    {
        push_form_char(s, v.get_char(i));
        proof {
            assert(v@.take(i + 1) =~= v@.take(i as int).push(v@[i as int]));
            lemma_form_encode_snoc(v@.take(i as int), v@[i as int]);
            assert((old(s)@ + spec_form_encode(v@.take(i as int))) + spec_form_char(v@[i as int])
                =~= old(s)@ + (spec_form_encode(v@.take(i as int)) + spec_form_char(
                v@[i as int],
            )));
        }
        i += 1;
    }
    proof {
        assert(v@.take(n as int) =~= v@);
    }
}

/// Build the device/user code request body.
pub fn codepair_request_body(client_id: &str) -> (r: String)
    ensures
        r@ == spec_codepair_request(client_id@),
{
    let mut s = String::from_str("client_id=");
    push_form_value(&mut s, client_id);
    s.append("&response_type=device_code&scope=profile");
    s
}

/// Build the device-code token exchange body.
pub fn device_grant_request_body(device_code: &str, user_code: &str) -> (r: String)
    ensures
        r@ == spec_device_grant_request(device_code@, user_code@),
{
    let mut s = String::from_str("grant_type=device_code&device_code=");
    push_form_value(&mut s, device_code);
    s.append("&user_code=");
    push_form_value(&mut s, user_code);
    s
}

/// Build the refresh-token exchange body.
pub fn refresh_request_body(refresh_token: &str, client_id: &str) -> (r: String)
    ensures
        r@ == spec_refresh_request(refresh_token@, client_id@),
{
    let mut s = String::from_str("grant_type=refresh_token&refresh_token=");
    push_form_value(&mut s, refresh_token);
    s.append("&client_id=");
    push_form_value(&mut s, client_id);
    s
}

} // verus!
