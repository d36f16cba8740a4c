use trombone::error::ApiError;
use trombone::model::{
    CreateClientPayload, CreateCollectionPayload, CreateFilePayload, CreateFirmPayload,
    CreateRequestPayload, CreateUserPayload,
};
use trombone::store::Store;

const T0: i64 = 1_000;

fn id(text: &str) -> u128 {
    uuid::Uuid::parse_str(text).unwrap().as_u128()
}

fn firm_id() -> u128 {
    id("a6a7572a-5553-4653-a733-35a0b602790f")
}

fn request_id() -> u128 {
    id("d1e2f3a4-5b6c-7d8e-9f0a-b1c2d3e4f5f6")
}

fn file_id() -> u128 {
    id("f1a2b3c4-5d6e-7f8d-9f0f-f1b2d3a4b5e6")
}

const USER: u128 = 20;
const CLIENT: u128 = 30;
const COLLECTION: u128 = 40;

fn seeded() -> Store {
    let mut s = Store::new();
    s.create_firm(CreateFirmPayload { name: "Seed Firm".to_string() }, firm_id(), T0).unwrap();
    s.create_user(
        CreateUserPayload {
            firm_id: firm_id(),
            email: "test.user@example.com".to_string(),
            password: "password".to_string(),
            first_name: "Test".to_string(),
            last_name: "User".to_string(),
        },
        "secret-hash".to_string(),
        USER,
        T0,
    )
    .unwrap();
    s.create_client(
        CreateClientPayload {
            firm_id: firm_id(),
            company_name: "Test Client Company".to_string(),
            email: "client@example.com".to_string(),
        },
        CLIENT,
        T0,
    )
    .unwrap();
    s.create_collection(
        CreateCollectionPayload { client_id: CLIENT, user_id: USER, title: "Q3 2025 VAT".to_string() },
        COLLECTION,
        T0,
    )
    .unwrap();
    s.create_request(
        CreateRequestPayload { collection_id: COLLECTION, title: "Sales Invoices for July".to_string(), description: None },
        request_id(),
        T0,
    )
    .unwrap();
    s.create_file(
        CreateFilePayload {
            request_id: request_id(),
            file_name: "default_file.txt".to_string(),
            storage_key: "key".to_string(),
            file_size: 1,
            mime_type: "text/plain".to_string(),
        },
        file_id(),
        T0,
    )
    .unwrap();
    s
}

#[test]
fn test_get_one_file() {
    let s = seeded();
    let fr = s.get_file_response(file_id()).unwrap();
    assert_eq!(uuid::Uuid::from_u128(fr.id).to_string(), "f1a2b3c4-5d6e-7f8d-9f0f-f1b2d3a4b5e6");
    assert_eq!(fr.file_name, "default_file.txt");
    assert_eq!(uuid::Uuid::from_u128(fr.request.id).to_string(), "d1e2f3a4-5b6c-7d8e-9f0a-b1c2d3e4f5f6");
}

#[test]
fn test_get_all_files_for_request() {
    let s = seeded();
    let files = s.list_files_for_request(request_id()).unwrap();
    assert_eq!(files.len(), 1);
    assert_eq!(files[0].request.id, request_id());
    assert_eq!(files[0].file_name, "default_file.txt");
}

#[test]
fn test_get_one_file_not_found() {
    let s = seeded();
    let r = s.get_file_response(id("00000000-0000-0000-0000-000000000000"));
    assert_eq!(r.unwrap_err(), ApiError::NotFound);
}

#[test]
fn test_get_client() {
    let s = seeded();
    let c = s.get_client_response(CLIENT).unwrap();
    assert_eq!(c.company_name, "Test Client Company");
    assert_eq!(c.firm.id, firm_id());
    assert_eq!(c.firm.name, "Seed Firm");
}

#[test]
fn test_get_user() {
    let s = seeded();
    let u = s.get_user_response(USER).unwrap();
    assert_eq!((u.first_name.as_str(), u.last_name.as_str()), ("Test", "User"));
    assert_eq!(u.firm.id, firm_id());
}

#[test]
fn test_get_collection() {
    let s = seeded();
    let c = s.get_collection_response(COLLECTION).unwrap();
    assert_eq!(c.title, "Q3 2025 VAT");
    assert_eq!(c.client.id, CLIENT);
    assert_eq!(c.user.id, USER);
}

#[test]
fn test_get_all_collections() {
    let s = seeded();
    let all = s.list_collection_responses().unwrap();
    assert_eq!(all.len(), 1);
    assert_eq!(all[0].client.company_name, "Test Client Company");
    assert_eq!(all[0].user.email, "test.user@example.com");
}

#[test]
fn test_get_request() {
    let s = seeded();
    let r = s.get_request_response(request_id()).unwrap();
    assert_eq!(r.title, "Sales Invoices for July");
    assert_eq!(r.collection.id, COLLECTION);
}

#[test]
fn test_get_all_requests() {
    let s = seeded();
    let all = s.list_request_responses().unwrap();
    assert_eq!(all.len(), 1);
    assert_eq!(all[0].id, request_id());
}

#[test]
fn nested_file_response_is_complete_and_consistent() {
    let s = seeded();
    let fr = s.get_file_response(file_id()).unwrap();
    let col = &fr.request.collection;
    assert_eq!(col.id, COLLECTION);
    assert_eq!(col.client.firm.id, s.get_client(CLIENT).unwrap().firm_id);
    assert_eq!(col.user.firm.id, s.get_user(USER).unwrap().firm_id);
    assert_eq!(col.client.firm.name, "Seed Firm");
    assert_eq!(col.user.firm.name, "Seed Firm");
}

#[test]
fn missing_ancestor_fails_the_whole_assembly() {
    let mut s = seeded();
    s.delete_user(USER).unwrap();
    assert_eq!(s.get_file_response(file_id()).unwrap_err(), ApiError::NotFound);
    assert_eq!(s.list_files_for_request(request_id()).unwrap_err(), ApiError::NotFound);
    assert_eq!(s.list_collection_responses().unwrap_err(), ApiError::NotFound);
    assert!(s.get_client_response(CLIENT).is_ok());
}

#[test]
fn listing_agrees_with_get_by_id() {
    let s = seeded();
    let listed = s.list_request_responses().unwrap();
    for r in &listed {
        let one = s.get_request_response(r.id).unwrap();
        assert_eq!(format!("{:?}", one), format!("{:?}", r));
    }
    assert_eq!(listed.len(), s.list_requests().len());
}

#[test]
fn deleted_firm_breaks_client_assembly() {
    let mut s = seeded();
    s.delete_firm(firm_id()).unwrap();
    assert_eq!(s.get_client_response(CLIENT).unwrap_err(), ApiError::NotFound);
    assert_eq!(s.list_client_responses().unwrap_err(), ApiError::NotFound);
    assert_eq!(s.get_firm_response(firm_id()).unwrap_err(), ApiError::NotFound);
}

#[test]
fn firm_response_lists_its_users_and_clients_only() {
    let mut s = seeded();
    s.create_firm(CreateFirmPayload { name: "Other".to_string() }, 9, T0).unwrap();
    s.create_client(
        CreateClientPayload { firm_id: 9, company_name: "Elsewhere".to_string(), email: "e@x.com".to_string() },
        31,
        T0,
    )
    .unwrap();
    s.create_client(
        CreateClientPayload { firm_id: firm_id(), company_name: "Second".to_string(), email: "s@x.com".to_string() },
        32,
        T0,
    )
    .unwrap();
    let fr = s.get_firm_response(firm_id()).unwrap();
    assert_eq!(fr.name, "Seed Firm");
    assert_eq!(fr.users.len(), 1);
    assert_eq!(fr.users[0].id, USER);
    let names: Vec<&str> = fr.clients.iter().map(|c| c.company_name.as_str()).collect();
    assert_eq!(names, vec!["Test Client Company", "Second"]);
    let other = s.get_firm_response(9).unwrap();
    assert_eq!(other.users.len(), 0);
    assert_eq!(other.clients.len(), 1);
}

#[test]
fn list_user_responses_leave_out_the_hash() {
    let s = seeded();
    let all = s.list_user_responses().unwrap();
    assert_eq!(all.len(), 1);
    assert_eq!(all[0].email, "test.user@example.com");
    assert!(!format!("{:?}", all[0]).contains("secret-hash"));
}

#[test]
fn files_of_another_request_are_left_out() {
    let mut s = seeded();
    s.create_request(
        CreateRequestPayload { collection_id: COLLECTION, title: "Other".to_string(), description: None },
        77,
        T0,
    )
    .unwrap();
    s.create_file(
        CreateFilePayload {
            request_id: 77,
            file_name: "other.txt".to_string(),
            storage_key: "k".to_string(),
            file_size: 2,
            mime_type: "text/plain".to_string(),
        },
        78,
        T0,
    )
    .unwrap();
    assert_eq!(s.list_files_for_request(request_id()).unwrap().len(), 1);
    let other = s.list_files_for_request(77).unwrap();
    assert_eq!(other.len(), 1);
    assert_eq!(other[0].file_name, "other.txt");
    assert_eq!(s.list_files_for_request(12345).unwrap_err(), ApiError::NotFound);
}
