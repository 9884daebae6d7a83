//! Who may use the gateway.
use crate::text::{byte_len, starts_with};
use vstd::prelude::*;
use vstd::string::*;
use vstd::utf8::encode_utf8;

verus! {

/// The credential of a request that may go on.
#[derive(Debug)]
pub struct AuthContext {
    /// The credential as it came.
    pub token_or_key: String,
    /// Whether it is a key that the gateway gave out.
    pub is_virtual_key: bool,
}

/// Why a request may not go on.
#[derive(Debug, Clone, Copy, PartialEq, Eq, Structural)]
pub enum AuthRejection {
    /// It bears no credential, or one too short to be one.
    MissingToken,
    /// Its credential is neither a key that the gateway gave out nor looks like one of the
    /// backend's.
    InvalidFormat,
}

/// The fewest bytes that a credential has.
pub const SHORTEST_TOKEN: usize = 10;

/// A credential that is long enough.
pub open spec fn is_long_enough(token: Seq<char>) -> bool {
    encode_utf8(token).len() >= SHORTEST_TOKEN
}

/// A credential that looks like one that the backend, or a gateway before this one, accepts.
pub open spec fn looks_direct(token: Seq<char>) -> bool {
    "1//"@.is_prefix_of(token) || "ya29."@.is_prefix_of(token) || "sk-"@.is_prefix_of(token)
}

impl AuthRejection {
    /// The HTTP status of the answer.
    pub fn status(&self) -> (r: u16)
        ensures
            r == 401,
    {
        401
    }

    /// The text of the answer.
    pub fn message(&self) -> (r: &'static str)
        ensures
            *self == AuthRejection::MissingToken ==> r@ == "Missing Token"@,
            *self == AuthRejection::InvalidFormat ==> r@ == "Invalid authentication key format."@,
    {
        match self {
            AuthRejection::MissingToken => "Missing Token",
            AuthRejection::InvalidFormat => "Invalid authentication key format.",
        }
    }
}

/// What comes of the credential that the headers bear.
pub open spec fn presented(token: Option<String>) -> Result<String, AuthRejection> {
    match token {
        Some(t) => if is_long_enough(t@) {
            Ok(t)
        } else {
            Err(AuthRejection::MissingToken)
        },
        None => Err(AuthRejection::MissingToken),
    }
}

/// What comes of a credential of which is known whether the gateway gave it out.
pub open spec fn accepted(token: String, is_virtual_key: bool) -> Result<
    AuthContext,
    AuthRejection,
> {
    if is_virtual_key || looks_direct(token@) {
        Ok(AuthContext { token_or_key: token, is_virtual_key })
    } else {
        Err(AuthRejection::InvalidFormat)
    }
}

/// The credential that the headers bear, where it is long enough to be one.
pub fn presented_token(token: Option<String>) -> (r: Result<String, AuthRejection>)
    ensures
        r == presented(token),
{
    match token {
        Some(t) => if byte_len(t.as_str()) >= SHORTEST_TOKEN {
            Ok(t)
        } else {
            Err(AuthRejection::MissingToken)
        },
        None => Err(AuthRejection::MissingToken),
    }
}

impl AuthContext {
    /// Accepts a credential; `is_virtual_key` tells whether the gateway gave it out.
    pub fn accept(token: String, is_virtual_key: bool) -> (r: Result<AuthContext, AuthRejection>)
        ensures
            r == accepted(token, is_virtual_key),
    {
        if !is_virtual_key && !starts_with(token.as_str(), "1//") && !starts_with(
            token.as_str(),
            "ya29.",
        ) && !starts_with(token.as_str(), "sk-") {
            return Err(AuthRejection::InvalidFormat);
        }
        Ok(AuthContext { token_or_key: token, is_virtual_key })
    }
}

/// What comes of a request, from its headers on.
pub open spec fn authenticated(token: Option<String>, is_virtual_key: bool) -> Result<
    AuthContext,
    AuthRejection,
> {
    match presented(token) {
        Ok(t) => accepted(t, is_virtual_key),
        Err(rejection) => Err(rejection),
    }
}

/// A request goes on exactly where it bears a credential that is long enough and that the gateway
/// gave out or that looks like one of the backend's; it goes on with that credential unchanged.
pub proof fn law_authentication(token: Option<String>, is_virtual_key: bool)
    ensures
        authenticated(token, is_virtual_key) is Ok <==> (token matches Some(t) && is_long_enough(t@)
            && (is_virtual_key || looks_direct(t@))),
        authenticated(token, is_virtual_key) matches Ok(context) ==> Some(context.token_or_key)
            == token && context.is_virtual_key == is_virtual_key,
        authenticated(token, is_virtual_key) == Err::<AuthContext, AuthRejection>(
            AuthRejection::MissingToken,
        ) <==> !(token matches Some(t) && is_long_enough(t@)),
{
}

/// A request goes on exactly where its credential has ten bytes or more and is a key that the
/// gateway gave out or begins as the credentials of the backend do; it goes on with the credential
/// as it came.
pub proof fn law_who_may_go_on(token: String, is_virtual_key: bool)
    ensures
        presented(None) == Err::<String, AuthRejection>(AuthRejection::MissingToken),
        presented(Some(token)) == if encode_utf8(token@).len() >= 10 {
            Ok::<String, AuthRejection>(token)
        } else {
            Err(AuthRejection::MissingToken)
        },
        accepted(token, is_virtual_key) == if is_virtual_key || (exists|rest: Seq<char>|
            token@ == #[trigger] ("1//"@ + rest)) || (exists|rest: Seq<char>|
            token@ == #[trigger] ("ya29."@ + rest)) || (exists|rest: Seq<char>|
            token@ == #[trigger] ("sk-"@ + rest)) {
            Ok::<AuthContext, AuthRejection>(AuthContext { token_or_key: token, is_virtual_key })
        } else {
            Err(AuthRejection::InvalidFormat)
        },
{
    lemma_prefix("1//"@, token@);
    lemma_prefix("ya29."@, token@);
    lemma_prefix("sk-"@, token@);
}

proof fn lemma_prefix(prefix: Seq<char>, s: Seq<char>)
    ensures
        prefix.is_prefix_of(s) <==> exists|rest: Seq<char>| s == #[trigger] (prefix + rest),
{
    if prefix.is_prefix_of(s) {
        assert(s =~= prefix + s.skip(prefix.len() as int));
    }
    if exists|rest: Seq<char>| s == #[trigger] (prefix + rest) {
        let rest = choose|rest: Seq<char>| s == #[trigger] (prefix + rest);
        assert(s.subrange(0, prefix.len() as int) =~= prefix);
    }
}

} // verus!
