//! Callers and the capabilities they hold.

use vstd::prelude::*;

verus! {

/// Claims carried by a signed access token.
pub struct Claims {
    pub sub: String,
    pub role: String,
    pub exp: usize,
}

/// A caller whose token has been validated.
pub struct AuthenticatedUser {
    pub username: String,
    pub role: String,
}

/// The role name that grants every capability.
pub open spec fn admin_role() -> Seq<char> {
    "admin"@
}

/// The role name of point-of-sale operators.
pub open spec fn cashier_role() -> Seq<char> {
    "usuario"@
}

/// Why a request carries no usable credentials.
#[derive(PartialEq, Eq, Structural, Clone, Copy, Debug)]
pub enum AuthError {
    /// No `Authorization` header was sent.
    MissingHeader,
    /// The header does not use the bearer scheme.
    MalformedHeader,
}

/// The scheme prefix of a bearer `Authorization` header.
pub open spec fn bearer_prefix() -> Seq<char> {
    "Bearer "@
}

/// The token of a bearer `Authorization` header.
pub fn bearer_token(header: Option<&str>) -> (r: Result<String, AuthError>)
    ensures
        header is None ==> r == Err::<String, AuthError>(AuthError::MissingHeader),
        header matches Some(h) ==> (bearer_prefix().is_prefix_of(h@) <==> r is Ok),
        header matches Some(h) && !bearer_prefix().is_prefix_of(h@) ==> r == Err::<
            String,
            AuthError,
        >(AuthError::MalformedHeader),
        r matches Ok(token) ==> header matches Some(h) && h@ == bearer_prefix() + token@,
{
    proof {
        reveal_strlit("Bearer ");
    }
    match header {
        None => Err(AuthError::MissingHeader),
        Some(h) => {
            let len = h.unicode_len();
            if len < 7 {
                return Err(AuthError::MalformedHeader);
            }
            let scheme = h.substring_char(0, 7).to_owned();
            let expected = "Bearer ".to_owned();
            if scheme == expected {
                let token = h.substring_char(7, len);
                proof {
                    assert(h@ =~= bearer_prefix() + token@);
                }
                Ok(token.to_owned())
            } else {
                proof {
                    assert(!bearer_prefix().is_prefix_of(h@)) by {
                        if bearer_prefix().is_prefix_of(h@) {
                            assert(scheme@ =~= bearer_prefix());
                        }
                    }
                }
                Err(AuthError::MalformedHeader)
            }
        },
    }
}

/// The caller that validated `claims` describe.
pub fn user_from_claims(claims: Claims) -> (r: AuthenticatedUser)
    ensures
        r.username == claims.sub,
        r.role == claims.role,
{
    AuthenticatedUser { username: claims.sub, role: claims.role }
}

impl AuthenticatedUser {
    /// Whether the caller holds exactly the given role.
    pub fn has_role(&self, role: &str) -> (r: bool)
        ensures
            r == (self.role@ == role@),
    {
        let wanted = role.to_owned();
        self.role == wanted
    }

    /// Whether the caller is an administrator.
    pub fn is_admin(&self) -> (r: bool)
        ensures
            r == (self.role@ == admin_role()),
    {
        proof {
            reveal_strlit("admin");
        }
        self.has_role("admin")
    }

    /// Whether the caller may run point-of-sale operations: operators and
    /// administrators may.
    pub fn may_operate(&self) -> (r: bool)
        ensures
            r == (self.role@ == cashier_role() || self.role@ == admin_role()),
    {
        proof {
            reveal_strlit("usuario");
        }
        self.has_role("usuario") || self.is_admin()
    }
}

} // verus!
