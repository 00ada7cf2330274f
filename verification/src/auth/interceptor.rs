use vstd::prelude::*;
use vstd::string::StringExecFns;

use crate::auth::token_manager::{AuthError, SharedAccessToken};

verus! {

/// The authorization value an outbound call carries for `token`: the call
/// fails locally — before any network traffic — when the token is empty,
/// signalling a client-side authentication precondition failure; otherwise
/// the value is the bearer prefix followed by the token.
pub fn bearer_header(token: &String) -> (r: Result<String, AuthError>)
    ensures
        token@.len() == 0 ==> r == Err::<String, AuthError>(AuthError::EmptyToken),
        token@.len() > 0 ==> (r matches Ok(h) && h@ == "Bearer "@ + token@),
{
    if token.as_str().is_empty() {
        Err(AuthError::EmptyToken)
    } else {
        let mut h = "Bearer ".to_owned();
        h.append(token.as_str());
        Ok(h)
    }
}

/// Attaches the current bearer token to every outbound call. It keeps no
/// copy of its own: every call re-reads the shared token at call time.
#[derive(Clone)]
pub struct AuthInterceptor {
    access_token: SharedAccessToken,
}

impl AuthInterceptor {
    pub fn new(access_token: SharedAccessToken) -> AuthInterceptor {
        AuthInterceptor { access_token }
    }

    /// The authorization value for one outbound call, from the token as it
    /// is at this moment: empty fails the call locally, anything else is a
    /// bearer value carrying the token that was read.
    pub fn authorization_header(&self) -> (r: Result<String, AuthError>)
        ensures
            (match r {
                Ok(h) => exists|t: Seq<char>| t.len() > 0 && h@ == "Bearer "@ + t,
                Err(e) => e == AuthError::EmptyToken,
            }),
    {
        let token = self.access_token.read();
        bearer_header(&token)
    }
}

} // verus!
