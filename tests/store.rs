use trombone::error::{delete_outcome, ApiError};
use trombone::model::{
    CreateClientPayload, CreateCollectionPayload, CreateFilePayload, CreateFirmPayload,
    CreateRequestPayload, CreateUserPayload, UpdateClientPayload, UpdateCollectionPayload,
    UpdateFilePayload, UpdateFirmPayload, UpdateRequestPayload, UpdateUserPayload,
};
use trombone::store::{Store, COLLECTION_LIFETIME_MICROS};

const FIRM: u128 = 100;
const USER: u128 = 200;
const CLIENT: u128 = 300;
const COLLECTION: u128 = 400;
const REQUEST: u128 = 500;
const FILE: u128 = 600;
const T0: i64 = 1_700_000_000_000_000;

fn seeded() -> Store {
    let mut s = Store::new();
    s.create_firm(CreateFirmPayload { name: "Test Firm".to_string() }, FIRM, T0).unwrap();
    s.create_user(
        CreateUserPayload {
            firm_id: FIRM,
            email: "Test.User@Example.com".to_string(),
            password: "password123".to_string(),
            first_name: "Test".to_string(),
            last_name: "User".to_string(),
        },
        "stored-hash".to_string(),
        USER,
        T0,
    )
    .unwrap();
    s.create_client(
        CreateClientPayload {
            firm_id: FIRM,
            company_name: "Test Client Company".to_string(),
            email: "client@example.com".to_string(),
        },
        CLIENT,
        T0,
    )
    .unwrap();
    s.create_collection(
        CreateCollectionPayload { client_id: CLIENT, user_id: USER, title: "Q3 2025 VAT".to_string() },
        COLLECTION,
        T0,
    )
    .unwrap();
    s.create_request(
        CreateRequestPayload {
            collection_id: COLLECTION,
            title: "Sales Invoices for July".to_string(),
            description: Some("Please upload all sales invoices for the month of July.".to_string()),
        },
        REQUEST,
        T0,
    )
    .unwrap();
    s.create_file(
        CreateFilePayload {
            request_id: REQUEST,
            file_name: "default_file.txt".to_string(),
            storage_key: "some_key".to_string(),
            file_size: 42,
            mime_type: "text/plain".to_string(),
        },
        FILE,
        T0,
    )
    .unwrap();
    s
}

#[test]
fn test_create_firm() {
    let mut s = Store::new();
    let f = s.create_firm(CreateFirmPayload { name: "Another Test Firm".to_string() }, 1, 5).unwrap();
    assert_eq!(f.name, "Another Test Firm");
    assert_eq!((f.id, f.created_at, f.updated_at), (1, 5, 5));
}

#[test]
fn test_get_firm() {
    let s = seeded();
    let f = s.get_firm(FIRM).unwrap();
    assert_eq!(f.name, "Test Firm");
    assert_eq!(s.get_firm(1).unwrap_err(), ApiError::NotFound);
}

#[test]
fn test_update_firm() {
    let mut s = seeded();
    let f = s.update_firm(FIRM, UpdateFirmPayload { name: Some("Updated Test Firm".to_string()) }, T0 + 9).unwrap();
    assert_eq!(f.name, "Updated Test Firm");
    assert_eq!((f.created_at, f.updated_at), (T0, T0 + 9));
    assert_eq!(s.get_firm(FIRM).unwrap().name, "Updated Test Firm");
}

#[test]
fn test_delete_firm() {
    let mut s = seeded();
    assert_eq!(s.delete_firm(FIRM), Ok(()));
    assert_eq!(s.get_firm(FIRM).unwrap_err(), ApiError::NotFound);
}

#[test]
fn test_create_client() {
    let s = seeded();
    let c = s.get_client(CLIENT).unwrap();
    assert_eq!(c.company_name, "Test Client Company");
    assert_eq!(c.email, "client@example.com");
    assert_eq!(c.firm_id, FIRM);
}

#[test]
fn test_update_client() {
    let mut s = seeded();
    let c = s
        .update_client(
            CLIENT,
            UpdateClientPayload {
                company_name: Some("Updated Client Company".to_string()),
                email: Some("updated.client@example.com".to_string()),
            },
            T0 + 1,
        )
        .unwrap();
    assert_eq!(c.company_name, "Updated Client Company");
    assert_eq!(c.email, "updated.client@example.com");
    assert_eq!(c.firm_id, FIRM);
}

#[test]
fn test_delete_client() {
    let mut s = seeded();
    assert_eq!(s.delete_client(CLIENT), Ok(()));
    assert_eq!(s.get_client(CLIENT).unwrap_err(), ApiError::NotFound);
}

#[test]
fn collections_test_create_collection() {
    let s = seeded();
    let c = s.get_collection(COLLECTION).unwrap();
    assert_eq!(c.title, "Q3 2025 VAT");
    assert_eq!((c.client_id, c.user_id), (CLIENT, USER));
    assert_eq!(c.status, "pending");
    assert_eq!(c.access_token, "token");
    assert_eq!(c.expires_at, T0 + COLLECTION_LIFETIME_MICROS);
    assert_eq!(COLLECTION_LIFETIME_MICROS, 86_400_000_000);
}

#[test]
fn test_update_collection() {
    let mut s = seeded();
    let before = s.get_collection(COLLECTION).unwrap();
    let c = s
        .update_collection(
            COLLECTION,
            UpdateCollectionPayload { title: Some("Q4 2025 VAT".to_string()), status: None, access_token: None, expires_at: None },
            T0 + 3,
        )
        .unwrap();
    assert_eq!(c.title, "Q4 2025 VAT");
    assert_eq!(c.status, before.status);
    assert_eq!(c.access_token, before.access_token);
    assert_eq!(c.expires_at, before.expires_at);
    assert_eq!(c.updated_at, T0 + 3);
}

#[test]
fn test_delete_collection() {
    let mut s = seeded();
    assert_eq!(s.delete_collection(COLLECTION), Ok(()));
    assert_eq!(s.get_collection(COLLECTION).unwrap_err(), ApiError::NotFound);
}

#[test]
fn requests_test_create_request() {
    let s = seeded();
    let r = s.get_request(REQUEST).unwrap();
    assert_eq!(r.title, "Sales Invoices for July");
    assert_eq!(r.description.as_deref(), Some("Please upload all sales invoices for the month of July."));
    assert_eq!(r.status, "pending");
    assert_eq!(r.collection_id, COLLECTION);
}

#[test]
fn test_update_request() {
    let mut s = seeded();
    let r = s
        .update_request(
            REQUEST,
            UpdateRequestPayload { title: Some("Updated Title".to_string()), description: None, status: None },
            T0 + 1,
        )
        .unwrap();
    assert_eq!(r.title, "Updated Title");
    assert_eq!(r.description.as_deref(), Some("Please upload all sales invoices for the month of July."));
    assert_eq!(r.status, "pending");
}

#[test]
fn test_delete_request() {
    let mut s = seeded();
    assert_eq!(s.delete_request(REQUEST), Ok(()));
    assert_eq!(s.get_request(REQUEST).unwrap_err(), ApiError::NotFound);
}

#[test]
fn test_create_file() {
    let s = seeded();
    let f = s.get_file(FILE).unwrap();
    assert_eq!(f.storage_key, "some_key");
    assert_eq!((f.request_id, f.file_size), (REQUEST, 42));
}

#[test]
fn test_get_file() {
    let s = seeded();
    assert_eq!(s.get_file(FILE).unwrap().file_name, "default_file.txt");
    assert_eq!(s.get_file(FILE + 1).unwrap_err(), ApiError::NotFound);
}

#[test]
fn test_get_all_files() {
    let mut s = seeded();
    s.create_file(
        CreateFilePayload {
            request_id: REQUEST,
            file_name: "second.pdf".to_string(),
            storage_key: "k2".to_string(),
            file_size: 7,
            mime_type: "application/pdf".to_string(),
        },
        FILE + 1,
        T0 + 1,
    )
    .unwrap();
    let all = s.list_files();
    assert_eq!(all.len(), 2);
    assert_eq!(all[0].id, FILE);
    assert_eq!(all[1].file_name, "second.pdf");
}

#[test]
fn test_update_file() {
    let mut s = seeded();
    let f = s
        .update_file(
            FILE,
            UpdateFilePayload { request_id: None, storage_key: Some("updated_key".to_string()), file_size: None, mime_type: None },
            T0 + 2,
        )
        .unwrap();
    assert_eq!(f.storage_key, "updated_key");
    assert_eq!(f.file_size, 42);
    assert_eq!(f.mime_type, "text/plain");
}

#[test]
fn test_delete_file() {
    let mut s = seeded();
    assert_eq!(s.delete_file(FILE), Ok(()));
    assert_eq!(s.get_file(FILE).unwrap_err(), ApiError::NotFound);
}

#[test]
fn test_update_user() {
    let mut s = seeded();
    let u = s
        .update_user(
            USER,
            UpdateUserPayload {
                first_name: Some("UpdatedFirst".to_string()),
                last_name: Some("UpdatedLast".to_string()),
                email: Some("updated.user+1@example.com".to_string()),
            },
            T0 + 4,
        )
        .unwrap();
    assert_eq!(u.first_name, "UpdatedFirst");
    assert_eq!(u.last_name, "UpdatedLast");
    assert_eq!(u.email, "updated.user+1@example.com");
    assert_eq!(u.password_hash, "stored-hash");
}

#[test]
fn test_delete_user() {
    let mut s = seeded();
    assert_eq!(s.delete_user(USER), Ok(()));
    assert_eq!(s.get_user(USER).unwrap_err(), ApiError::NotFound);
}

#[test]
fn create_then_get_returns_the_created_row() {
    let mut s = Store::new();
    let created = s
        .create_client(
            CreateClientPayload { firm_id: 9, company_name: "Bakery".to_string(), email: "b@k.com".to_string() },
            77,
            123,
        )
        .unwrap();
    let read = s.get_client(77).unwrap();
    assert_eq!(read.id, 77);
    assert_eq!(read.firm_id, 9);
    assert_eq!(read.company_name, "Bakery");
    assert_eq!(read.email, "b@k.com");
    assert_eq!((read.created_at, read.updated_at), (123, 123));
    assert_eq!(created.company_name, read.company_name);
}

#[test]
fn create_with_taken_id_is_a_conflict() {
    let mut s = seeded();
    let r = s.create_firm(CreateFirmPayload { name: "Other".to_string() }, FIRM, T0);
    assert_eq!(r.unwrap_err(), ApiError::Conflict);
    assert_eq!(s.get_firm(FIRM).unwrap().name, "Test Firm");
}

#[test]
fn collection_expiry_overflow_is_internal() {
    let mut s = Store::new();
    let r = s.create_collection(
        CreateCollectionPayload { client_id: 1, user_id: 2, title: "x".to_string() },
        3,
        i64::MAX - 5,
    );
    assert_eq!(r.unwrap_err(), ApiError::Internal);
    assert_eq!(s.get_collection(3).unwrap_err(), ApiError::NotFound);
}

#[test]
fn partial_update_of_title_keeps_other_collection_fields() {
    let mut s = seeded();
    s.update_collection(
        COLLECTION,
        UpdateCollectionPayload { title: None, status: Some("sent".to_string()), access_token: Some("abc".to_string()), expires_at: Some(99) },
        T0 + 1,
    )
    .unwrap();
    let c = s
        .update_collection(
            COLLECTION,
            UpdateCollectionPayload { title: Some("Renamed".to_string()), status: None, access_token: None, expires_at: None },
            T0 + 2,
        )
        .unwrap();
    assert_eq!(c.title, "Renamed");
    assert_eq!(c.status, "sent");
    assert_eq!(c.access_token, "abc");
    assert_eq!(c.expires_at, 99);
    assert_eq!(c.created_at, T0);
}

#[test]
fn update_of_missing_row_is_not_found() {
    let mut s = Store::new();
    let r = s.update_firm(5, UpdateFirmPayload { name: None }, 1);
    assert_eq!(r.unwrap_err(), ApiError::NotFound);
}

#[test]
fn delete_twice_reports_not_found() {
    let mut s = seeded();
    assert_eq!(s.delete_request(REQUEST), Ok(()));
    assert_eq!(s.get_request(REQUEST).unwrap_err(), ApiError::NotFound);
    assert_eq!(s.delete_request(REQUEST), Err(ApiError::NotFound));
}

#[test]
fn duplicate_email_differing_in_case_is_a_conflict() {
    let mut s = seeded();
    let r = s.create_user(
        CreateUserPayload {
            firm_id: FIRM,
            email: "TEST.USER@example.COM".to_string(),
            password: "password123".to_string(),
            first_name: "A".to_string(),
            last_name: "B".to_string(),
        },
        "h".to_string(),
        USER + 1,
        T0,
    );
    assert_eq!(r.unwrap_err(), ApiError::Conflict);
    assert_eq!(s.list_users().len(), 1);
}

#[test]
fn email_is_stored_as_given_and_found_up_to_case() {
    let s = seeded();
    assert_eq!(s.get_user(USER).unwrap().email, "Test.User@Example.com");
    assert_eq!(s.user_with_email("test.user@example.com").unwrap().id, USER);
    assert_eq!(s.user_with_email("TEST.USER@EXAMPLE.COM").unwrap().id, USER);
    assert!(s.user_with_email("other@example.com").is_none());
}

#[test]
fn restoring_a_user_whose_email_differs_only_in_case_is_a_conflict() {
    let mut s = seeded();
    let mut twin = s.get_user(USER).unwrap();
    twin.id = USER + 5;
    twin.email = "test.user@EXAMPLE.com".to_string();
    assert_eq!(s.restore_user(twin), Err(ApiError::Conflict));
    assert_eq!(s.list_users().len(), 1);
}

#[test]
fn failed_delete_leaves_the_store_alone() {
    let mut s = seeded();
    assert_eq!(s.delete_client(CLIENT + 1), Err(ApiError::NotFound));
    assert_eq!(s.list_clients().len(), 1);
    assert_eq!(delete_outcome(0), Err(ApiError::NotFound));
    assert_eq!(delete_outcome(1), Ok(()));
}

#[test]
fn update_to_an_email_in_use_is_a_conflict() {
    let mut s = seeded();
    s.create_user(
        CreateUserPayload {
            firm_id: FIRM,
            email: "other@example.com".to_string(),
            password: "password123".to_string(),
            first_name: "O".to_string(),
            last_name: "P".to_string(),
        },
        "h".to_string(),
        USER + 1,
        T0,
    )
    .unwrap();
    let r = s.update_user(
        USER + 1,
        UpdateUserPayload { first_name: None, last_name: None, email: Some("TEST.user@example.com".to_string()) },
        T0 + 1,
    );
    assert_eq!(r.unwrap_err(), ApiError::Conflict);
    assert_eq!(s.get_user(USER + 1).unwrap().email, "other@example.com");
    let same = s.update_user(
        USER,
        UpdateUserPayload { first_name: None, last_name: None, email: Some("test.user@example.com".to_string()) },
        T0 + 1,
    );
    assert_eq!(same.unwrap().email, "test.user@example.com");
}

#[test]
fn list_keeps_creation_order_after_update_and_delete() {
    let mut s = Store::new();
    for (id, name) in [(1u128, "a"), (2, "b"), (3, "c")] {
        s.create_firm(CreateFirmPayload { name: name.to_string() }, id, 0).unwrap();
    }
    s.update_firm(2, UpdateFirmPayload { name: Some("B".to_string()) }, 1).unwrap();
    s.delete_firm(1).unwrap();
    let names: Vec<String> = s.list_firms().into_iter().map(|f| f.name).collect();
    assert_eq!(names, vec!["B".to_string(), "c".to_string()]);
}
