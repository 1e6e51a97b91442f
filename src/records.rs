//! Plain records exchanged with the user, client and payment tables.

use std::collections::HashMap;
use vstd::prelude::*;

verus! {

/// A user as listed, its identifier rendered as text.
pub struct UserAsString {
    pub id: String,
    pub fullname: String,
    pub roles: String,
    pub username: String,
    pub branch: String,
}

/// Fields of a user that an update replaces.
pub struct UpdateUser {
    pub fullname: Option<String>,
    pub roles: Option<String>,
    pub username: Option<String>,
    pub password: Option<String>,
    pub branch: Option<String>,
}

/// A client as listed, its identifier rendered as text.
pub struct ClienteAsString {
    pub id: String,
    pub fullname: String,
    pub is_minor: bool,
    pub phone: Option<String>,
    pub email: Option<String>,
    pub monthly_pay_ref: Option<String>,
    pub is_preferred: bool,
    pub schedule: Option<String>,
    pub is_active: bool,
    pub times: Option<String>,
}

/// Fields of a client that an update replaces.
pub struct UpdateCliente {
    pub fullname: Option<String>,
    pub is_minor: Option<bool>,
    pub phone: Option<String>,
    pub email: Option<String>,
    pub monthly_pay_ref: Option<String>,
    pub is_preferred: Option<bool>,
    pub schedule: Option<String>,
    pub is_active: bool,
    pub times: Option<String>,
}

/// Fields of a payment sheet that an update replaces: the paid flag of
/// each month, and the year.
pub struct UpdatePayment {
    pub months: Option<Vec<HashMap<String, bool>>>,
    pub year: Option<u16>,
}

/// A client's payment sheet as listed.
pub struct SimplifiedPaymentAsString {
    pub client_name: String,
    pub id: String,
    pub months: Vec<HashMap<String, bool>>,
    pub schedule: Option<String>,
    pub year: u16,
}

/// The name listed for a payment sheet whose client cannot be found.
pub open spec fn unknown_client() -> Seq<char> {
    "Unknown"@
}

/// The schedule listed for a payment sheet without one.
pub open spec fn no_schedule() -> Seq<char> {
    "No Schedule"@
}

/// A payment sheet as listed, with placeholders for a missing client name
/// or schedule.
pub fn payment_as_string(
    client_name: Option<String>,
    id: String,
    months: Vec<HashMap<String, bool>>,
    schedule: Option<String>,
    year: u16,
) -> (r: SimplifiedPaymentAsString)
    ensures
        client_name matches Some(n) ==> r.client_name == n,
        client_name is None ==> r.client_name@ == unknown_client(),
        r.id == id,
        r.months == months,
        schedule matches Some(s) ==> r.schedule == Some(s),
        schedule is None ==> (r.schedule matches Some(s) && s@ == no_schedule()),
        r.year == year,
{
    proof {
        reveal_strlit("Unknown");
        reveal_strlit("No Schedule");
    }
    let client_name = match client_name {
        Some(n) => n,
        None => "Unknown".to_owned(),
    };
    let schedule = match schedule {
        Some(s) => s,
        None => "No Schedule".to_owned(),
    };
    SimplifiedPaymentAsString { client_name, id, months, schedule: Some(schedule), year }
}

} // verus!
