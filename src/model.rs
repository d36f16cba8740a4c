use vstd::prelude::*;

verus! {

/// A copy of an optional string, equal to it.
pub fn copy_opt_string(o: &Option<String>) -> (r: Option<String>)
    ensures
        r == *o,
{
    match o {
        Some(s) => Some(s.clone()),
        None => None,
    }
}

/// The root tenant: an accounting firm. Times are microseconds since the Unix epoch.
#[derive(Debug)]
pub struct Firm {
    pub id: u128,
    pub name: String,
    pub created_at: i64,
    pub updated_at: i64,
}

impl Clone for Firm {
    fn clone(&self) -> (r: Self)
        ensures
            r == *self,
    {
        Firm {
            id: self.id,
            name: self.name.clone(),
            created_at: self.created_at,
            updated_at: self.updated_at,
        }
    }
}

/// A firm employee who authenticates and drives the workflow. No two users have
/// emails that are equal up to case.
#[derive(Debug)]
pub struct User {
    pub id: u128,
    pub firm_id: u128,
    pub email: String,
    pub password_hash: String,
    pub first_name: String,
    pub last_name: String,
    pub created_at: i64,
    pub updated_at: i64,
}

impl Clone for User {
    fn clone(&self) -> (r: Self)
        ensures
            r == *self,
    {
        User {
            id: self.id,
            firm_id: self.firm_id,
            email: self.email.clone(),
            password_hash: self.password_hash.clone(),
            first_name: self.first_name.clone(),
            last_name: self.last_name.clone(),
            created_at: self.created_at,
            updated_at: self.updated_at,
        }
    }
}

/// The external party from whom documents are requested.
#[derive(Debug)]
pub struct Client {
    pub id: u128,
    pub firm_id: u128,
    pub company_name: String,
    pub email: String,
    pub created_at: i64,
    pub updated_at: i64,
}

impl Clone for Client {
    fn clone(&self) -> (r: Self)
        ensures
            r == *self,
    {
        Client {
            id: self.id,
            firm_id: self.firm_id,
            company_name: self.company_name.clone(),
            email: self.email.clone(),
            created_at: self.created_at,
            updated_at: self.updated_at,
        }
    }
}

/// A named batch of document requests sent to one client on behalf of one user.
/// `access_token` grants the client access until `expires_at`.
#[derive(Debug)]
pub struct Collection {
    pub id: u128,
    pub client_id: u128,
    pub user_id: u128,
    pub title: String,
    pub status: String,
    pub access_token: String,
    pub expires_at: i64,
    pub created_at: i64,
    pub updated_at: i64,
}

impl Clone for Collection {
    fn clone(&self) -> (r: Self)
        ensures
            r == *self,
    {
        Collection {
            id: self.id,
            client_id: self.client_id,
            user_id: self.user_id,
            title: self.title.clone(),
            status: self.status.clone(),
            access_token: self.access_token.clone(),
            expires_at: self.expires_at,
            created_at: self.created_at,
            updated_at: self.updated_at,
        }
    }
}

/// One line item of a collection: a description of the documents needed.
#[derive(Debug)]
pub struct Request {
    pub id: u128,
    pub collection_id: u128,
    pub title: String,
    pub description: Option<String>,
    pub status: String,
    pub created_at: i64,
    pub updated_at: i64,
}

impl Clone for Request {
    fn clone(&self) -> (r: Self)
        ensures
            r == *self,
    {
        Request {
            id: self.id,
            collection_id: self.collection_id,
            title: self.title.clone(),
            description: copy_opt_string(&self.description),
            status: self.status.clone(),
            created_at: self.created_at,
            updated_at: self.updated_at,
        }
    }
}

/// An uploaded artifact answering a request; `storage_key` points into blob storage.
#[derive(Debug)]
pub struct File {
    pub id: u128,
    pub request_id: u128,
    pub file_name: String,
    pub storage_key: String,
    pub file_size: i64,
    pub mime_type: String,
    pub created_at: i64,
    pub updated_at: i64,
}

impl Clone for File {
    fn clone(&self) -> (r: Self)
        ensures
            r == *self,
    {
        File {
            id: self.id,
            request_id: self.request_id,
            file_name: self.file_name.clone(),
            storage_key: self.storage_key.clone(),
            file_size: self.file_size,
            mime_type: self.mime_type.clone(),
            created_at: self.created_at,
            updated_at: self.updated_at,
        }
    }
}

/// A client with its firm embedded.
#[derive(Debug)]
pub struct ClientResponse {
    pub id: u128,
    pub firm: Firm,
    pub company_name: String,
    pub email: String,
    pub created_at: i64,
    pub updated_at: i64,
}

impl Clone for ClientResponse {
    fn clone(&self) -> (r: Self)
        ensures
            r == *self,
    {
        ClientResponse {
            id: self.id,
            firm: self.firm.clone(),
            company_name: self.company_name.clone(),
            email: self.email.clone(),
            created_at: self.created_at,
            updated_at: self.updated_at,
        }
    }
}

/// A user with its firm embedded; the password hash is never part of it.
#[derive(Debug)]
pub struct UserResponse {
    pub id: u128,
    pub firm: Firm,
    pub email: String,
    pub first_name: String,
    pub last_name: String,
    pub created_at: i64,
    pub updated_at: i64,
}

impl Clone for UserResponse {
    fn clone(&self) -> (r: Self)
        ensures
            r == *self,
    {
        UserResponse {
            id: self.id,
            firm: self.firm.clone(),
            email: self.email.clone(),
            first_name: self.first_name.clone(),
            last_name: self.last_name.clone(),
            created_at: self.created_at,
            updated_at: self.updated_at,
        }
    }
}

/// A collection with its client and its user assembled.
#[derive(Debug)]
pub struct CollectionResponse {
    pub id: u128,
    pub client: ClientResponse,
    pub user: UserResponse,
    pub title: String,
    pub status: String,
    pub access_token: String,
    pub expires_at: i64,
    pub created_at: i64,
    pub updated_at: i64,
}

impl Clone for CollectionResponse {
    fn clone(&self) -> (r: Self)
        ensures
            r == *self,
    {
        CollectionResponse {
            id: self.id,
            client: self.client.clone(),
            user: self.user.clone(),
            title: self.title.clone(),
            status: self.status.clone(),
            access_token: self.access_token.clone(),
            expires_at: self.expires_at,
            created_at: self.created_at,
            updated_at: self.updated_at,
        }
    }
}

/// A request with its collection assembled.
#[derive(Debug)]
pub struct RequestResponse {
    pub id: u128,
    pub collection: CollectionResponse,
    pub title: String,
    pub description: Option<String>,
    pub status: String,
    pub created_at: i64,
    pub updated_at: i64,
}

impl Clone for RequestResponse {
    fn clone(&self) -> (r: Self)
        ensures
            r == *self,
    {
        RequestResponse {
            id: self.id,
            collection: self.collection.clone(),
            title: self.title.clone(),
            description: copy_opt_string(&self.description),
            status: self.status.clone(),
            created_at: self.created_at,
            updated_at: self.updated_at,
        }
    }
}

/// A file with its whole chain of ancestors assembled.
#[derive(Debug)]
pub struct FileResponse {
    pub id: u128,
    pub request: RequestResponse,
    pub file_name: String,
    pub storage_key: String,
    pub file_size: i64,
    pub mime_type: String,
    pub created_at: i64,
    pub updated_at: i64,
}

impl Clone for FileResponse {
    fn clone(&self) -> (r: Self)
        ensures
            r == *self,
    {
        FileResponse {
            id: self.id,
            request: self.request.clone(),
            file_name: self.file_name.clone(),
            storage_key: self.storage_key.clone(),
            file_size: self.file_size,
            mime_type: self.mime_type.clone(),
            created_at: self.created_at,
            updated_at: self.updated_at,
        }
    }
}

/// A firm with every user and every client that belongs to it.
#[derive(Debug)]
pub struct FirmResponse {
    pub id: u128,
    pub name: String,
    pub created_at: i64,
    pub updated_at: i64,
    pub users: Vec<UserResponse>,
    pub clients: Vec<ClientResponse>,
}

/// What a new firm is created from.
#[derive(Debug)]
pub struct CreateFirmPayload {
    pub name: String,
}

/// A partial update of a firm: present fields overwrite, absent ones are kept.
#[derive(Debug)]
pub struct UpdateFirmPayload {
    pub name: Option<String>,
}

/// What a user registers with; `password` is the plaintext, hashed before storage.
#[derive(Debug)]
pub struct CreateUserPayload {
    pub firm_id: u128,
    pub email: String,
    pub password: String,
    pub first_name: String,
    pub last_name: String,
}

/// A partial update of a user.
#[derive(Debug)]
pub struct UpdateUserPayload {
    pub first_name: Option<String>,
    pub last_name: Option<String>,
    pub email: Option<String>,
}

/// What a new client is created from.
#[derive(Debug)]
pub struct CreateClientPayload {
    pub firm_id: u128,
    pub company_name: String,
    pub email: String,
}

/// A partial update of a client.
#[derive(Debug)]
pub struct UpdateClientPayload {
    pub company_name: Option<String>,
    pub email: Option<String>,
}

/// What a new collection is created from.
#[derive(Debug)]
pub struct CreateCollectionPayload {
    pub client_id: u128,
    pub user_id: u128,
    pub title: String,
}

/// A partial update of a collection.
#[derive(Debug)]
pub struct UpdateCollectionPayload {
    pub title: Option<String>,
    pub status: Option<String>,
    pub access_token: Option<String>,
    pub expires_at: Option<i64>,
}

/// What a new request is created from.
#[derive(Debug)]
pub struct CreateRequestPayload {
    pub collection_id: u128,
    pub title: String,
    pub description: Option<String>,
}

/// A partial update of a request. A description, once set, can be replaced but not cleared.
#[derive(Debug)]
pub struct UpdateRequestPayload {
    pub title: Option<String>,
    pub description: Option<String>,
    pub status: Option<String>,
}

/// The metadata a file record is created from.
#[derive(Debug)]
pub struct CreateFilePayload {
    pub request_id: u128,
    pub file_name: String,
    pub storage_key: String,
    pub file_size: i64,
    pub mime_type: String,
}

/// A partial update of a file record.
#[derive(Debug)]
pub struct UpdateFilePayload {
    pub request_id: Option<u128>,
    pub storage_key: Option<String>,
    pub file_size: Option<i64>,
    pub mime_type: Option<String>,
}

} // verus!
