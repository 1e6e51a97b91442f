use central_choi::auth::{bearer_token, user_from_claims, AuthError, AuthenticatedUser, Claims};
use central_choi::clients::{check_new_client, ClientError, NewCliente};
use central_choi::identifier::parse_item_id;
use central_choi::records::payment_as_string;
use central_choi::inventory::{lookup_step, Catalog, LookupStep, ProductAsString};

fn found(id: &str) -> Option<ProductAsString> {
    Some(ProductAsString {
        id: id.to_string(),
        name: Some("Belt".to_string()),
        price: Some(100),
        bar_code: None,
        quantity: Some(1),
        category: None,
    })
}

#[test]
fn qualified_identifier_splits() {
    let r = parse_item_id("products:42").unwrap();
    assert_eq!(r.catalog, "products");
    assert_eq!(r.local_id, "42");
}

#[test]
fn identifier_without_qualifier_is_malformed() {
    assert!(parse_item_id("42").is_none());
    assert!(parse_item_id("").is_none());
}

#[test]
fn identifier_with_two_separators_is_malformed() {
    assert!(parse_item_id("products:4:2").is_none());
    assert!(parse_item_id("::").is_none());
}

#[test]
fn identifier_parts_may_be_empty_or_unicode() {
    let r = parse_item_id(":x").unwrap();
    assert_eq!(r.catalog, "");
    assert_eq!(r.local_id, "x");
    let r = parse_item_id("exámenes:ñ1").unwrap();
    assert_eq!(r.catalog, "exámenes");
    assert_eq!(r.local_id, "ñ1");
}

#[test]
fn search_runs_products_exams_monthly() {
    let first = Catalog::first();
    assert_eq!(first, Catalog::Products);
    assert_eq!(first.table_name(), "products");
    let second = match lookup_step(first, None) {
        LookupStep::Search(c) => c,
        _ => panic!("expected a second catalog"),
    };
    assert_eq!(second, Catalog::Exams);
    assert_eq!(second.table_name(), "exams");
    let third = match lookup_step(second, None) {
        LookupStep::Search(c) => c,
        _ => panic!("expected a third catalog"),
    };
    assert_eq!(third, Catalog::Monthly);
    assert_eq!(third.table_name(), "monthly");
    assert!(matches!(lookup_step(third, None), LookupStep::NotFound));
}

#[test]
fn first_match_ends_the_search() {
    match lookup_step(Catalog::Exams, found("exams:3")) {
        LookupStep::Found(item) => assert_eq!(item.id, "exams:3"),
        _ => panic!("expected the match"),
    }
}

#[test]
fn roles_grant_capabilities() {
    let admin = AuthenticatedUser { username: "root".to_string(), role: "admin".to_string() };
    let cashier = AuthenticatedUser { username: "ana".to_string(), role: "usuario".to_string() };
    let guest = AuthenticatedUser { username: "bob".to_string(), role: "invitado".to_string() };
    assert!(admin.is_admin());
    assert!(admin.may_operate());
    assert!(!cashier.is_admin());
    assert!(cashier.has_role("usuario"));
    assert!(cashier.may_operate());
    assert!(!guest.may_operate());
    assert!(!guest.has_role("admin"));
    assert!(!admin.has_role("Admin"));
}

#[test]
fn bearer_header_yields_token() {
    assert_eq!(bearer_token(Some("Bearer abc.def.ghi")), Ok("abc.def.ghi".to_string()));
    assert_eq!(bearer_token(Some("Bearer ")), Ok(String::new()));
}

#[test]
fn bad_headers_are_refused() {
    assert_eq!(bearer_token(None), Err(AuthError::MissingHeader));
    assert_eq!(bearer_token(Some("Basic abc")), Err(AuthError::MalformedHeader));
    assert_eq!(bearer_token(Some("Bearer")), Err(AuthError::MalformedHeader));
    assert_eq!(bearer_token(Some("bearer abc")), Err(AuthError::MalformedHeader));
}

#[test]
fn claims_become_the_caller() {
    let user = user_from_claims(Claims { sub: "ana".to_string(), role: "usuario".to_string(), exp: 10 });
    assert_eq!(user.username, "ana");
    assert_eq!(user.role, "usuario");
}

fn new_client(is_minor: bool, phone: Option<&str>, email: Option<&str>) -> NewCliente {
    NewCliente {
        fullname: "Luis".to_string(),
        is_minor,
        phone: phone.map(|p| p.to_string()),
        email: email.map(|e| e.to_string()),
        monthly_pay_ref: None,
        is_preferred: false,
        schedule: None,
        is_active: true,
        times: None,
    }
}

#[test]
fn minor_needs_phone_and_email() {
    assert_eq!(check_new_client(&new_client(true, Some("555"), None)), Err(ClientError::MinorWithoutContact));
    assert_eq!(check_new_client(&new_client(true, None, Some("a@b.c"))), Err(ClientError::MinorWithoutContact));
    assert_eq!(check_new_client(&new_client(true, Some("555"), Some("a@b.c"))), Ok(()));
}

#[test]
fn adult_needs_no_contact() {
    assert_eq!(check_new_client(&new_client(false, None, None)), Ok(()));
}

#[test]
fn payment_listing_fills_placeholders() {
    let row = payment_as_string(None, "payments:1".to_string(), vec![], None, 2025);
    assert_eq!(row.client_name, "Unknown");
    assert_eq!(row.schedule.as_deref(), Some("No Schedule"));
    assert_eq!(row.id, "payments:1");
    assert_eq!(row.year, 2025);
    let row = payment_as_string(Some("Ana".to_string()), "payments:2".to_string(), vec![], Some("Tarde".to_string()), 2024);
    assert_eq!(row.client_name, "Ana");
    assert_eq!(row.schedule.as_deref(), Some("Tarde"));
}
