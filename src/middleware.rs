//! The checks that guard the sender's operations: a static shared secret in
//! a request header, and a signed claims cookie.
use std::sync::Arc;
use vstd::prelude::*;

verus! {

/// Whether two byte strings are equal.
pub fn bytes_equal(a: &[u8], b: &[u8]) -> (r: bool)
    ensures
        r == (a@ == b@),
{
    if a.len() != b.len() {
        return false;
    }
    let mut i: usize = 0;
    while i < a.len()
        invariant
            a@.len() == b@.len(),
            0 <= i <= a@.len(),
            forall|j: int| 0 <= j < i ==> a@[j] == b@[j],
        decreases a@.len() - i,
    {
        if a[i] != b[i] {
            return false;
        }
        i = i + 1;
    }
    assert(a@ =~= b@);
    true
}

#[derive(Debug, Clone, Copy, PartialEq, Eq, Structural)]
pub enum RequireTokenError {
    NoToken,
    BadToken,
}


#[derive(Debug, Clone, Copy, PartialEq, Eq, Structural)]
pub enum JwtDecodeError {
    NoToken,
    BadToken,
}


/// What a request's static secret header says of it.
pub open spec fn token_verdict(expected: Seq<u8>, header: Option<Seq<u8>>) -> Result<(), RequireTokenError> {
    match header {
        None => Err(RequireTokenError::NoToken),
        Some(h) => if h == expected {
            Ok(())
        } else {
            Err(RequireTokenError::BadToken)
        },
    }
}

fn check_secret(expected: &Vec<u8>, header: Option<&[u8]>) -> (r: Result<(), RequireTokenError>)
    ensures
        r == token_verdict(expected@, match header {
            Some(h) => Some(h@),
            None => None,
        }),
{
    match header {
        None => Err(RequireTokenError::NoToken),
        Some(h) => if bytes_equal(h, expected.as_slice()) {
            Ok(())
        } else {
            Err(RequireTokenError::BadToken)
        },
    }
}

/// Guards a scope with the static shared secret, held as bytes.
pub struct RequireToken(pub Arc<Vec<u8>>);

impl RequireToken {
    /// Whether a request with this secret header may go on.
    pub fn check(&self, header: Option<&[u8]>) -> (r: Result<(), RequireTokenError>)
        ensures
            r == token_verdict(self.0@, match header {
                Some(h) => Some(h@),
                None => None,
            }),
    {
        check_secret(&*self.0, header)
    }
}

/// The guard of [`RequireToken`] wrapped around one service.
pub struct RequireTokenMiddleware<S> {
    pub service: S,
    pub token: Arc<Vec<u8>>,
}

impl<S> RequireTokenMiddleware<S> {
    /// Whether a request with this secret header may reach the service.
    pub fn check(&self, header: Option<&[u8]>) -> (r: Result<(), RequireTokenError>)
        ensures
            r == token_verdict(self.token@, match header {
                Some(h) => Some(h@),
                None => None,
            }),
    {
        check_secret(&*self.token, header)
    }
}

/// What the claims cookie of a request says of it: no cookie, a cookie
/// that does not decode to valid claims, or the decoded claims.
pub fn claims_verdict<C>(cookie_present: bool, decoded: Option<C>) -> (r: Result<C, JwtDecodeError>)
    ensures
        !cookie_present ==> r == Err::<C, JwtDecodeError>(JwtDecodeError::NoToken),
        cookie_present && decoded is None ==> r == Err::<C, JwtDecodeError>(JwtDecodeError::BadToken),
        cookie_present && decoded is Some ==> r == Ok::<C, JwtDecodeError>(decoded.unwrap()),
{
    if !cookie_present {
        return Err(JwtDecodeError::NoToken);
    }
    match decoded {
        Some(c) => Ok(c),
        None => Err(JwtDecodeError::BadToken),
    }
}

} // verus!
