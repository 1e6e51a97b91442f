//! Client registration rules.

use vstd::prelude::*;

verus! {

/// A client as submitted for registration.
pub struct NewCliente {
    pub fullname: String,
    pub is_minor: bool,
    pub phone: Option<String>,
    pub email: Option<String>,
    pub monthly_pay_ref: Option<String>,
    pub is_preferred: bool,
    pub schedule: Option<String>,
    pub is_active: bool,
    pub times: Option<String>,
}

/// Why a client cannot be registered.
#[derive(PartialEq, Eq, Structural, Clone, Copy, Debug)]
pub enum ClientError {
    /// A minor must be reachable by both phone and email.
    MinorWithoutContact,
}

/// A client may be registered unless it is a minor lacking a phone or an
/// email.
pub open spec fn registrable(c: NewCliente) -> bool {
    !c.is_minor || (c.phone is Some && c.email is Some)
}

/// Checks `client` against the registration rules.
pub fn check_new_client(client: &NewCliente) -> (r: Result<(), ClientError>)
    ensures
        r is Ok <==> registrable(*client),
        r is Err ==> r == Err::<(), ClientError>(ClientError::MinorWithoutContact),
{
    if client.is_minor && (client.phone.is_none() || client.email.is_none()) {
        Err(ClientError::MinorWithoutContact)
    } else {
        Ok(())
    }
}

} // verus!
