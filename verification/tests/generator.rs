use license_generator::api::{
    GeneratorRequest, InventoryFetchResponse, InventoryListResponse, LicenseFetchResponse,
    LicensesListResponse, Timestamp,
};
use license_generator::generator::{
    assemble_token, key_request, key_strategy, load_inventory, load_key, load_licenses,
    sent_bytes, InventoryListing, KeyStrategy, LicensesListing, Reply, Step, UnsignedToken,
};
use license_generator::runtime_error::RuntimeError;

const CUSTOMER_ID: u128 = 0x11111111_2222_3333_4444_555555555555;
const VESSEL_ID: u128 = 0x66666666_7777_8888_9999_aaaaaaaaaaaa;

fn item(id: &str, serial_number: Option<&str>) -> InventoryFetchResponse {
    InventoryFetchResponse {
        inventory_type: "jwt_key".to_string(),
        inventory_id: id.to_string(),
        serial_number: serial_number.map(String::from),
        aws_instance_id: None,
        created_at: Timestamp { seconds: 1_700_000_000, nanoseconds: 0, offset: 0 },
    }
}

fn inventory_reply(
    ids: &[&str],
    page_token: Option<&str>,
) -> Result<Reply<InventoryListResponse>, RuntimeError> {
    Ok(Reply::Payload(InventoryListResponse {
        inventory: ids.iter().map(|id| item(id, None)).collect(),
        page_token: page_token.map(String::from),
    }))
}

fn licenses_reply(
    keys: &[&str],
    page_token: Option<&str>,
) -> Result<Reply<LicensesListResponse>, RuntimeError> {
    Ok(Reply::Payload(LicensesListResponse {
        licenses: keys
            .iter()
            .map(|key| LicenseFetchResponse {
                license_key: key.to_string(),
                count: None,
                expires_at: None,
            })
            .collect(),
        page_token: page_token.map(String::from),
    }))
}

fn inventory_ids(inventory: &[InventoryFetchResponse]) -> Vec<&str> {
    inventory.iter().map(|item| item.inventory_id.as_str()).collect()
}

fn license_keys(licenses: &[LicenseFetchResponse]) -> Vec<&str> {
    licenses.iter().map(|license| license.license_key.as_str()).collect()
}

fn request() -> GeneratorRequest {
    GeneratorRequest {
        customer_id: CUSTOMER_ID,
        vessel_id: VESSEL_ID,
        issuer: "acme".to_string(),
        audience: "fleet".to_string(),
        inventory_key: None,
    }
}

#[test]
fn inventory_listing_starts_without_token() {
    let listing = InventoryListing::new(&CUSTOMER_ID, &VESSEL_ID);

    assert_eq!(CUSTOMER_ID, listing.request.customer_id);
    assert_eq!(VESSEL_ID, listing.request.vessel_id);
    assert!(listing.request.page_token.is_none());
    assert!(listing.inventory.is_empty());
}

#[test]
fn inventory_of_two_pages() {
    let listing = InventoryListing::new(&CUSTOMER_ID, &VESSEL_ID);

    let listing = match load_inventory(listing, inventory_reply(&["A", "B"], Some("t1"))) {
        Ok(Step::Continue(listing)) => listing,
        _ => panic!("the load must go on after a page with a token"),
    };
    assert_eq!(Some("t1".to_string()), listing.request.page_token);
    assert_eq!(CUSTOMER_ID, listing.request.customer_id);
    assert_eq!(VESSEL_ID, listing.request.vessel_id);
    assert_eq!(vec!["A", "B"], inventory_ids(&listing.inventory));

    match load_inventory(listing, inventory_reply(&["C"], None)) {
        Ok(Step::Finished(inventory)) => assert_eq!(vec!["A", "B", "C"], inventory_ids(&inventory)),
        _ => panic!("the load must end at a page without a token"),
    }
}

#[test]
fn inventory_of_one_page() {
    let listing = InventoryListing::new(&CUSTOMER_ID, &VESSEL_ID);

    match load_inventory(listing, inventory_reply(&["A"], None)) {
        Ok(Step::Finished(inventory)) => assert_eq!(vec!["A"], inventory_ids(&inventory)),
        _ => panic!("the load must end at a page without a token"),
    }
}

#[test]
fn inventory_page_without_records_does_not_end_the_load() {
    let listing = InventoryListing::new(&CUSTOMER_ID, &VESSEL_ID);

    let listing = match load_inventory(listing, inventory_reply(&["A"], Some("t1"))) {
        Ok(Step::Continue(listing)) => listing,
        _ => panic!("the load must go on after a page with a token"),
    };
    let listing = match load_inventory(listing, inventory_reply(&[], Some("t2"))) {
        Ok(Step::Continue(listing)) => listing,
        _ => panic!("the load must go on after an empty page with a token"),
    };
    assert_eq!(Some("t2".to_string()), listing.request.page_token);
    assert_eq!(vec!["A"], inventory_ids(&listing.inventory));

    match load_inventory(listing, inventory_reply(&[], None)) {
        Ok(Step::Finished(inventory)) => assert_eq!(vec!["A"], inventory_ids(&inventory)),
        _ => panic!("the load must end at a page without a token"),
    }
}

#[test]
fn inventory_reply_without_page_ends_a_load_that_has_no_token() {
    let listing = InventoryListing::new(&CUSTOMER_ID, &VESSEL_ID);

    match load_inventory(listing, Ok(Reply::Absent)) {
        Ok(Step::Finished(inventory)) => assert!(inventory.is_empty()),
        _ => panic!("the load must end where no token is held"),
    }
}

#[test]
fn inventory_reply_without_page_repeats_the_request() {
    let listing = InventoryListing::new(&CUSTOMER_ID, &VESSEL_ID);

    let listing = match load_inventory(listing, inventory_reply(&["A"], Some("t1"))) {
        Ok(Step::Continue(listing)) => listing,
        _ => panic!("the load must go on after a page with a token"),
    };
    let listing = match load_inventory(listing, Ok(Reply::Absent)) {
        Ok(Step::Continue(listing)) => listing,
        _ => panic!("the load must go on while a token is held"),
    };
    assert_eq!(Some("t1".to_string()), listing.request.page_token);
    assert_eq!(vec!["A"], inventory_ids(&listing.inventory));
}

#[test]
fn inventory_load_fails_with_the_failure_of_a_reply() {
    let listing = InventoryListing::new(&CUSTOMER_ID, &VESSEL_ID);
    let listing = match load_inventory(listing, inventory_reply(&["A"], Some("t1"))) {
        Ok(Step::Continue(listing)) => listing,
        _ => panic!("the load must go on after a page with a token"),
    };

    match load_inventory(listing, Err(RuntimeError::LambdaInvokeError("no route".to_string()))) {
        Err(RuntimeError::LambdaInvokeError(message)) => assert_eq!("no route", message),
        _ => panic!("the load must fail as the reply did"),
    }

    let listing = InventoryListing::new(&CUSTOMER_ID, &VESSEL_ID);
    match load_inventory(listing, Err(RuntimeError::SerializationError("not json".to_string()))) {
        Err(RuntimeError::SerializationError(message)) => assert_eq!("not json", message),
        _ => panic!("the load must fail as the reply did"),
    }
}

#[test]
fn licenses_listing_starts_without_token() {
    let listing = LicensesListing::new(&CUSTOMER_ID, &VESSEL_ID);

    assert_eq!(CUSTOMER_ID, listing.request.customer_id);
    assert_eq!(VESSEL_ID, listing.request.vessel_id);
    assert!(listing.request.page_token.is_none());
    assert!(listing.licenses.is_empty());
}

#[test]
fn licenses_of_three_pages() {
    let listing = LicensesListing::new(&CUSTOMER_ID, &VESSEL_ID);

    let listing = match load_licenses(listing, licenses_reply(&["A", "B"], Some("t1"))) {
        Ok(Step::Continue(listing)) => listing,
        _ => panic!("the load must go on after a page with a token"),
    };
    assert_eq!(Some("t1".to_string()), listing.request.page_token);
    let listing = match load_licenses(listing, licenses_reply(&["C"], Some("t2"))) {
        Ok(Step::Continue(listing)) => listing,
        _ => panic!("the load must go on after a page with a token"),
    };
    assert_eq!(Some("t2".to_string()), listing.request.page_token);
    assert_eq!(CUSTOMER_ID, listing.request.customer_id);
    assert_eq!(VESSEL_ID, listing.request.vessel_id);

    match load_licenses(listing, licenses_reply(&["D", "A"], None)) {
        Ok(Step::Finished(licenses)) => {
            assert_eq!(vec!["A", "B", "C", "D", "A"], license_keys(&licenses))
        }
        _ => panic!("the load must end at a page without a token"),
    }
}

#[test]
fn licenses_reply_without_page() {
    let listing = LicensesListing::new(&CUSTOMER_ID, &VESSEL_ID);
    match load_licenses(listing, Ok(Reply::Absent)) {
        Ok(Step::Finished(licenses)) => assert!(licenses.is_empty()),
        _ => panic!("the load must end where no token is held"),
    }

    let listing = LicensesListing::new(&CUSTOMER_ID, &VESSEL_ID);
    let listing = match load_licenses(listing, licenses_reply(&[], Some("t1"))) {
        Ok(Step::Continue(listing)) => listing,
        _ => panic!("the load must go on after a page with a token"),
    };
    match load_licenses(listing, Ok(Reply::Absent)) {
        Ok(Step::Continue(listing)) => {
            assert_eq!(Some("t1".to_string()), listing.request.page_token);
            assert!(listing.licenses.is_empty());
        }
        _ => panic!("the load must go on while a token is held"),
    }
}

#[test]
fn licenses_load_fails_with_the_failure_of_a_reply() {
    let listing = LicensesListing::new(&CUSTOMER_ID, &VESSEL_ID);

    match load_licenses(listing, Err(RuntimeError::LambdaInvokeError("no route".to_string()))) {
        Err(RuntimeError::LambdaInvokeError(message)) => assert_eq!("no route", message),
        _ => panic!("the load must fail as the reply did"),
    }
}

#[test]
fn key_is_the_serial_number_as_it_stands() {
    match load_key(Ok(Reply::Payload(item("key", Some("SN-123"))))) {
        Ok(key) => assert_eq!("SN-123", key),
        Err(error) => panic!("a record with a serial number gives a key: {error:?}"),
    }
    match load_key(Ok(Reply::Payload(item("key", Some(" S\u{e9}rie \n"))))) {
        Ok(key) => assert_eq!(" S\u{e9}rie \n", key),
        Err(error) => panic!("a record with a serial number gives a key: {error:?}"),
    }
    match load_key(Ok(Reply::Payload(item("key", Some(""))))) {
        Ok(key) => assert_eq!("", key),
        Err(error) => panic!("a record with a serial number gives a key: {error:?}"),
    }
}

#[test]
fn key_is_missing_without_serial_number() {
    assert!(matches!(load_key(Ok(Reply::Payload(item("key", None)))), Err(RuntimeError::MissingKey)));
}

#[test]
fn key_is_missing_without_record() {
    assert!(matches!(load_key(Ok(Reply::Absent)), Err(RuntimeError::MissingKey)));
}

#[test]
fn key_is_missing_where_the_payload_has_no_bytes() {
    assert!(matches!(load_key(Ok(Reply::Empty)), Err(RuntimeError::MissingKey)));
}

#[test]
fn payload_without_bytes_is_told_from_one_to_decode() {
    assert!(matches!(sent_bytes(None), Reply::Absent));
    assert!(matches!(sent_bytes(Some(b"")), Reply::Empty));
    match sent_bytes(Some(b"{}")) {
        Reply::Payload(bytes) => assert_eq!(b"{}", bytes),
        _ => panic!("a payload with bytes is to be decoded"),
    }
    match sent_bytes(Some(b" ")) {
        Reply::Payload(bytes) => assert_eq!(b" ", bytes),
        _ => panic!("a payload with bytes is to be decoded"),
    }
}

#[test]
fn inventory_payload_without_bytes_is_a_page_without_records_and_token() {
    let listing = InventoryListing::new(&CUSTOMER_ID, &VESSEL_ID);
    match load_inventory(listing, Ok(Reply::Empty)) {
        Ok(Step::Finished(inventory)) => assert!(inventory.is_empty()),
        _ => panic!("the load must end at a page without a token"),
    }

    let listing = InventoryListing::new(&CUSTOMER_ID, &VESSEL_ID);
    let listing = match load_inventory(listing, inventory_reply(&["A", "B"], Some("t1"))) {
        Ok(Step::Continue(listing)) => listing,
        _ => panic!("the load must go on after a page with a token"),
    };
    match load_inventory(listing, Ok(Reply::Empty)) {
        Ok(Step::Finished(inventory)) => assert_eq!(vec!["A", "B"], inventory_ids(&inventory)),
        _ => panic!("the load must end at a page without a token"),
    }
}

#[test]
fn licenses_payload_without_bytes_is_a_page_without_records_and_token() {
    let listing = LicensesListing::new(&CUSTOMER_ID, &VESSEL_ID);
    let listing = match load_licenses(listing, licenses_reply(&["A"], Some("t1"))) {
        Ok(Step::Continue(listing)) => listing,
        _ => panic!("the load must go on after a page with a token"),
    };
    match load_licenses(listing, Ok(Reply::Empty)) {
        Ok(Step::Finished(licenses)) => assert_eq!(vec!["A"], license_keys(&licenses)),
        _ => panic!("the load must end at a page without a token"),
    }
}

#[test]
fn key_request_names_the_record_of_the_request() {
    let mut request = request();
    request.inventory_key = Some("key-0".to_string());

    let fetch = match key_request(&request) {
        Ok(fetch) => fetch,
        Err(error) => panic!("a request with a key has a record to fetch: {error:?}"),
    };

    assert_eq!(CUSTOMER_ID, fetch.customer_id);
    assert_eq!(VESSEL_ID, fetch.vessel_id);
    assert_eq!("jwt_key", fetch.inventory_type);
    assert_eq!("key-0", fetch.inventory_id);
    assert_eq!(Some("key-0".to_string()), request.inventory_key);
}

#[test]
fn key_request_of_a_request_without_key() {
    assert!(matches!(key_request(&request()), Err(RuntimeError::MissingKey)));
}

#[test]
fn strategy_is_selected_by_the_configuration() {
    match key_strategy(Ok("fetcher".to_string()), Ok("lister".to_string())) {
        Ok(KeyStrategy::Direct(lambda)) => assert_eq!("fetcher", lambda),
        _ => panic!("a fetcher selects the direct strategy"),
    }
    match key_strategy(Ok("fetcher".to_string()), Err("NotPresent".to_string())) {
        Ok(KeyStrategy::Direct(lambda)) => assert_eq!("fetcher", lambda),
        _ => panic!("a fetcher selects the direct strategy"),
    }
    match key_strategy(Err("NotPresent".to_string()), Ok("lister".to_string())) {
        Ok(KeyStrategy::Aggregate(lambda)) => assert_eq!("lister", lambda),
        _ => panic!("a lister alone selects the aggregate strategy"),
    }
    match key_strategy(Err("no fetcher".to_string()), Err("no lister".to_string())) {
        Err(RuntimeError::ClientConfigLoadingError(message)) => assert_eq!("no fetcher", message),
        _ => panic!("without a function of the inventory the configuration is at fault"),
    }
}

#[test]
fn key_load_fails_with_the_failure_of_the_reply() {
    match load_key(Err(RuntimeError::LambdaInvokeError("no route".to_string()))) {
        Err(RuntimeError::LambdaInvokeError(message)) => assert_eq!("no route", message),
        _ => panic!("the load must fail as the reply did"),
    }
}

#[test]
fn token_of_an_inventory_holds_the_claims_of_the_request() {
    let licenses = vec![
        LicenseFetchResponse { license_key: "nav-pack".to_string(), count: Some(2), expires_at: None },
        LicenseFetchResponse { license_key: "nav-pack".to_string(), count: Some(5), expires_at: None },
    ];

    let token = assemble_token(request(), vec![item("a", Some("SN-1")), item("b", None)], licenses);

    assert_eq!("<TODO>", token.key);
    assert_eq!("acme", token.claims.issuer);
    assert_eq!("fleet", token.claims.audience);
    assert_eq!(
        "11111111-2222-3333-4444-555555555555:66666666-7777-8888-9999-aaaaaaaaaaaa",
        token.claims.user
    );
    assert_eq!(1, token.claims.licenses.len());
    assert_eq!(Some(5), token.claims.licenses.get("nav-pack").unwrap().count);
    assert!(token.claims.issued_at <= token.claims.expires_at);
}

#[test]
fn unsigned_token_keeps_its_key() {
    let token = UnsignedToken::new(request(), "SN-123".to_string(), vec![]);

    assert_eq!("SN-123", token.key);
    assert_eq!("acme", token.claims.issuer);
    assert_eq!(0, token.claims.licenses.len());
}
