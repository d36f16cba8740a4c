use vstd::prelude::*;
use crate::error::ApiError;
use crate::model::{
    Client, ClientResponse, Collection, CollectionResponse, File, FileResponse, Firm,
    FirmResponse, Request, RequestResponse, User, UserResponse,
};
use crate::model::{CreateClientPayload, CreateCollectionPayload};
use crate::store::{found, is_new_client, is_new_collection, listed, Store, StoreView};
use crate::table::{has_key, Entity};

verus! {

pub open spec fn client_response_of(c: Client, f: Firm) -> ClientResponse {
    ClientResponse {
        id: c.id,
        firm: f,
        company_name: c.company_name,
        email: c.email,
        created_at: c.created_at,
        updated_at: c.updated_at,
    }
}

/// The password hash is left out.
pub open spec fn user_response_of(u: User, f: Firm) -> UserResponse {
    UserResponse {
        id: u.id,
        firm: f,
        email: u.email,
        first_name: u.first_name,
        last_name: u.last_name,
        created_at: u.created_at,
        updated_at: u.updated_at,
    }
}

pub open spec fn collection_response_of(
    c: Collection,
    client: ClientResponse,
    user: UserResponse,
) -> CollectionResponse {
    CollectionResponse {
        id: c.id,
        client,
        user,
        title: c.title,
        status: c.status,
        access_token: c.access_token,
        expires_at: c.expires_at,
        created_at: c.created_at,
        updated_at: c.updated_at,
    }
}

pub open spec fn request_response_of(r: Request, collection: CollectionResponse) -> RequestResponse {
    RequestResponse {
        id: r.id,
        collection,
        title: r.title,
        description: r.description,
        status: r.status,
        created_at: r.created_at,
        updated_at: r.updated_at,
    }
}

pub open spec fn file_response_of(f: File, request: RequestResponse) -> FileResponse {
    FileResponse {
        id: f.id,
        request,
        file_name: f.file_name,
        storage_key: f.storage_key,
        file_size: f.file_size,
        mime_type: f.mime_type,
        created_at: f.created_at,
        updated_at: f.updated_at,
    }
}

/// The users of `rows` that belong to `firm`, in order, as responses.
pub open spec fn users_of(rows: Seq<User>, firm: Firm) -> Seq<UserResponse>
    decreases rows.len(),
{
    if rows.len() == 0 {
        Seq::empty()
    } else {
        let init = users_of(rows.drop_last(), firm);
        if rows.last().firm_id == firm.id {
            init.push(user_response_of(rows.last(), firm))
        } else {
            init
        }
    }
}

/// The clients of `rows` that belong to `firm`, in order, as responses.
pub open spec fn clients_of(rows: Seq<Client>, firm: Firm) -> Seq<ClientResponse>
    decreases rows.len(),
{
    if rows.len() == 0 {
        Seq::empty()
    } else {
        let init = clients_of(rows.drop_last(), firm);
        if rows.last().firm_id == firm.id {
            init.push(client_response_of(rows.last(), firm))
        } else {
            init
        }
    }
}

/// The files of `rows` that answer the request of `request`, in order, as responses.
pub open spec fn files_of(rows: Seq<File>, request: RequestResponse) -> Seq<FileResponse>
    decreases rows.len(),
{
    if rows.len() == 0 {
        Seq::empty()
    } else {
        let init = files_of(rows.drop_last(), request);
        if rows.last().request_id == request.id {
            init.push(file_response_of(rows.last(), request))
        } else {
            init
        }
    }
}

/// `r` is the list of assemblies of `rows` by `f`: all of them when each succeeds, and
/// `NotFound` when one fails.
pub open spec fn assembles_all<E, R>(
    rows: Seq<E>,
    f: spec_fn(E) -> Option<R>,
    r: Result<Vec<R>, ApiError>,
) -> bool {
    match r {
        Ok(v) => v@.len() == rows.len() && forall|i: int|
            0 <= i < rows.len() ==> #[trigger] f(rows[i]) == Some(v@[i]),
        Err(e) => e == ApiError::NotFound && exists|i: int|
            0 <= i < rows.len() && #[trigger] f(rows[i]) is None,
    }
}

impl StoreView {
    pub open spec fn client_response(self, c: Client) -> Option<ClientResponse> {
        match self.firms.get(c.firm_id) {
            Some(f) => Some(client_response_of(c, f)),
            None => None,
        }
    }

    pub open spec fn user_response(self, u: User) -> Option<UserResponse> {
        match self.firms.get(u.firm_id) {
            Some(f) => Some(user_response_of(u, f)),
            None => None,
        }
    }

    pub open spec fn collection_response(self, c: Collection) -> Option<CollectionResponse> {
        match self.clients.get(c.client_id) {
            None => None,
            Some(client) => match self.client_response(client) {
                None => None,
                Some(cr) => match self.users.get(c.user_id) {
                    None => None,
                    Some(user) => match self.user_response(user) {
                        None => None,
                        Some(ur) => Some(collection_response_of(c, cr, ur)),
                    },
                },
            },
        }
    }

    pub open spec fn request_response(self, r: Request) -> Option<RequestResponse> {
        match self.collections.get(r.collection_id) {
            None => None,
            Some(c) => match self.collection_response(c) {
                None => None,
                Some(cr) => Some(request_response_of(r, cr)),
            },
        }
    }

    pub open spec fn file_response(self, f: File) -> Option<FileResponse> {
        match self.requests.get(f.request_id) {
            None => None,
            Some(r) => match self.request_response(r) {
                None => None,
                Some(rr) => Some(file_response_of(f, rr)),
            },
        }
    }

    pub open spec fn client_response_by_id(self, id: u128) -> Option<ClientResponse> {
        match self.clients.get(id) {
            Some(c) => self.client_response(c),
            None => None,
        }
    }

    pub open spec fn user_response_by_id(self, id: u128) -> Option<UserResponse> {
        match self.users.get(id) {
            Some(u) => self.user_response(u),
            None => None,
        }
    }

    pub open spec fn collection_response_by_id(self, id: u128) -> Option<CollectionResponse> {
        match self.collections.get(id) {
            Some(c) => self.collection_response(c),
            None => None,
        }
    }

    pub open spec fn request_response_by_id(self, id: u128) -> Option<RequestResponse> {
        match self.requests.get(id) {
            Some(r) => self.request_response(r),
            None => None,
        }
    }

    pub open spec fn file_response_by_id(self, id: u128) -> Option<FileResponse> {
        match self.files.get(id) {
            Some(f) => self.file_response(f),
            None => None,
        }
    }
}

impl Store {
    /// Assembles `c` with its firm; `NotFound` when the firm is absent.
    pub fn assemble_client(&self, c: Client) -> (r: Result<ClientResponse, ApiError>)
        requires
            self.wf(),
        ensures
            r == found(self@.client_response(c)),
    {
        match self.get_firm(c.firm_id) {
            Err(e) => Err(e),
            Ok(firm) => Ok(
                ClientResponse {
                    id: c.id,
                    firm,
                    company_name: c.company_name,
                    email: c.email,
                    created_at: c.created_at,
                    updated_at: c.updated_at,
                },
            ),
        }
    }

    /// Assembles `u` with its firm, without the password hash; `NotFound` when the firm
    /// is absent.
    pub fn assemble_user(&self, u: User) -> (r: Result<UserResponse, ApiError>)
        requires
            self.wf(),
        ensures
            r == found(self@.user_response(u)),
    {
        match self.get_firm(u.firm_id) {
            Err(e) => Err(e),
            Ok(firm) => Ok(
                UserResponse {
                    id: u.id,
                    firm,
                    email: u.email,
                    first_name: u.first_name,
                    last_name: u.last_name,
                    created_at: u.created_at,
                    updated_at: u.updated_at,
                },
            ),
        }
    }

    /// Assembles `c` with its client and its user, each with its firm; `NotFound` when any
    /// of them is absent.
    pub fn assemble_collection(&self, c: Collection) -> (r: Result<CollectionResponse, ApiError>)
        requires
            self.wf(),
        ensures
            r == found(self@.collection_response(c)),
    {
        let client = match self.get_client(c.client_id) {
            Err(e) => return Err(e),
            Ok(client) => client,
        };
        let client = match self.assemble_client(client) {
            Err(e) => return Err(e),
            Ok(cr) => cr,
        };
        let user = match self.get_user(c.user_id) {
            Err(e) => return Err(e),
            Ok(user) => user,
        };
        let user = match self.assemble_user(user) {
            Err(e) => return Err(e),
            Ok(ur) => ur,
        };
        Ok(
            CollectionResponse {
                id: c.id,
                client,
                user,
                title: c.title,
                status: c.status,
                access_token: c.access_token,
                expires_at: c.expires_at,
                created_at: c.created_at,
                updated_at: c.updated_at,
            },
        )
    }

    /// Assembles `r` with its collection; `NotFound` when any ancestor is absent.
    pub fn assemble_request(&self, r: Request) -> (out: Result<RequestResponse, ApiError>)
        requires
            self.wf(),
        ensures
            out == found(self@.request_response(r)),
    {
        let collection = match self.get_collection(r.collection_id) {
            Err(e) => return Err(e),
            Ok(c) => c,
        };
        let collection = match self.assemble_collection(collection) {
            Err(e) => return Err(e),
            Ok(cr) => cr,
        };
        Ok(
            RequestResponse {
                id: r.id,
                collection,
                title: r.title,
                description: r.description,
                status: r.status,
                created_at: r.created_at,
                updated_at: r.updated_at,
            },
        )
    }

    /// Assembles `f` with its whole chain of ancestors; `NotFound` when any is absent.
    pub fn assemble_file(&self, f: File) -> (r: Result<FileResponse, ApiError>)
        requires
            self.wf(),
        ensures
            r == found(self@.file_response(f)),
    {
        let request = match self.get_request(f.request_id) {
            Err(e) => return Err(e),
            Ok(r) => r,
        };
        let request = match self.assemble_request(request) {
            Err(e) => return Err(e),
            Ok(rr) => rr,
        };
        Ok(
            FileResponse {
                id: f.id,
                request,
                file_name: f.file_name,
                storage_key: f.storage_key,
                file_size: f.file_size,
                mime_type: f.mime_type,
                created_at: f.created_at,
                updated_at: f.updated_at,
            },
        )
    }
    /// The client with id `id`, assembled; `NotFound` when it or an ancestor is absent.
    pub fn get_client_response(&self, id: u128) -> (r: Result<ClientResponse, ApiError>)
        requires
            self.wf(),
        ensures
            r == found(self@.client_response_by_id(id)),
    {
        match self.get_client(id) {
            Err(e) => Err(e),
            Ok(row) => self.assemble_client(row),
        }
    }

    /// Every client, assembled, in creation order; `NotFound` when any of them cannot be
    /// assembled, so that no partial list is returned.
    pub fn list_client_responses(&self) -> (r: Result<Vec<ClientResponse>, ApiError>)
        requires
            self.wf(),
        ensures
            assembles_all(self@.clients.rows, |row: Client| self@.client_response(row), r),
    {
        let rows = self.list_clients();
        let mut out: Vec<ClientResponse> = Vec::new();
        let mut i: usize = 0;
        while i < rows.len()
            invariant
                self.wf(),
                rows@ == self@.clients.rows,
                i <= rows@.len(),
                out@.len() == i,
                forall|j: int| 0 <= j < i ==> #[trigger] self@.client_response(rows@[j]) == Some(out@[j]),
            decreases rows@.len() - i,
        {
            match self.assemble_client(rows[i].clone()) {
                Err(e) => {
                    let ghost f = |row: Client| self@.client_response(row);
                    assert(f(rows@[i as int]) is None);
                    assert(exists|j: int| 0 <= j < rows@.len() && #[trigger] f(rows@[j]) is None);
                    return Err(e);
                },
                Ok(v) => out.push(v),
            }
            i = i + 1;
        }
        Ok(out)
    }

    /// The user with id `id`, assembled; `NotFound` when it or an ancestor is absent.
    pub fn get_user_response(&self, id: u128) -> (r: Result<UserResponse, ApiError>)
        requires
            self.wf(),
        ensures
            r == found(self@.user_response_by_id(id)),
    {
        match self.get_user(id) {
            Err(e) => Err(e),
            Ok(row) => self.assemble_user(row),
        }
    }

    /// Every user, assembled, in creation order; `NotFound` when any of them cannot be
    /// assembled, so that no partial list is returned.
    pub fn list_user_responses(&self) -> (r: Result<Vec<UserResponse>, ApiError>)
        requires
            self.wf(),
        ensures
            assembles_all(self@.users.rows, |row: User| self@.user_response(row), r),
    {
        let rows = self.list_users();
        let mut out: Vec<UserResponse> = Vec::new();
        let mut i: usize = 0;
        while i < rows.len()
            invariant
                self.wf(),
                rows@ == self@.users.rows,
                i <= rows@.len(),
                out@.len() == i,
                forall|j: int| 0 <= j < i ==> #[trigger] self@.user_response(rows@[j]) == Some(out@[j]),
            decreases rows@.len() - i,
        {
            match self.assemble_user(rows[i].clone()) {
                Err(e) => {
                    let ghost f = |row: User| self@.user_response(row);
                    assert(f(rows@[i as int]) is None);
                    assert(exists|j: int| 0 <= j < rows@.len() && #[trigger] f(rows@[j]) is None);
                    return Err(e);
                },
                Ok(v) => out.push(v),
            }
            i = i + 1;
        }
        Ok(out)
    }

    /// The collection with id `id`, assembled; `NotFound` when it or an ancestor is absent.
    pub fn get_collection_response(&self, id: u128) -> (r: Result<CollectionResponse, ApiError>)
        requires
            self.wf(),
        ensures
            r == found(self@.collection_response_by_id(id)),
    {
        match self.get_collection(id) {
            Err(e) => Err(e),
            Ok(row) => self.assemble_collection(row),
        }
    }

    /// Every collection, assembled, in creation order; `NotFound` when any of them cannot be
    /// assembled, so that no partial list is returned.
    pub fn list_collection_responses(&self) -> (r: Result<Vec<CollectionResponse>, ApiError>)
        requires
            self.wf(),
        ensures
            assembles_all(self@.collections.rows, |row: Collection| self@.collection_response(row), r),
    {
        let rows = self.list_collections();
        let mut out: Vec<CollectionResponse> = Vec::new();
        let mut i: usize = 0;
        while i < rows.len()
            invariant
                self.wf(),
                rows@ == self@.collections.rows,
                i <= rows@.len(),
                out@.len() == i,
                forall|j: int| 0 <= j < i ==> #[trigger] self@.collection_response(rows@[j]) == Some(out@[j]),
            decreases rows@.len() - i,
        {
            match self.assemble_collection(rows[i].clone()) {
                Err(e) => {
                    let ghost f = |row: Collection| self@.collection_response(row);
                    assert(f(rows@[i as int]) is None);
                    assert(exists|j: int| 0 <= j < rows@.len() && #[trigger] f(rows@[j]) is None);
                    return Err(e);
                },
                Ok(v) => out.push(v),
            }
            i = i + 1;
        }
        Ok(out)
    }

    /// The request with id `id`, assembled; `NotFound` when it or an ancestor is absent.
    pub fn get_request_response(&self, id: u128) -> (r: Result<RequestResponse, ApiError>)
        requires
            self.wf(),
        ensures
            r == found(self@.request_response_by_id(id)),
    {
        match self.get_request(id) {
            Err(e) => Err(e),
            Ok(row) => self.assemble_request(row),
        }
    }

    /// Every request, assembled, in creation order; `NotFound` when any of them cannot be
    /// assembled, so that no partial list is returned.
    pub fn list_request_responses(&self) -> (r: Result<Vec<RequestResponse>, ApiError>)
        requires
            self.wf(),
        ensures
            assembles_all(self@.requests.rows, |row: Request| self@.request_response(row), r),
    {
        let rows = self.list_requests();
        let mut out: Vec<RequestResponse> = Vec::new();
        let mut i: usize = 0;
        while i < rows.len()
            invariant
                self.wf(),
                rows@ == self@.requests.rows,
                i <= rows@.len(),
                out@.len() == i,
                forall|j: int| 0 <= j < i ==> #[trigger] self@.request_response(rows@[j]) == Some(out@[j]),
            decreases rows@.len() - i,
        {
            match self.assemble_request(rows[i].clone()) {
                Err(e) => {
                    let ghost f = |row: Request| self@.request_response(row);
                    assert(f(rows@[i as int]) is None);
                    assert(exists|j: int| 0 <= j < rows@.len() && #[trigger] f(rows@[j]) is None);
                    return Err(e);
                },
                Ok(v) => out.push(v),
            }
            i = i + 1;
        }
        Ok(out)
    }

    /// The file with id `id`, assembled; `NotFound` when it or an ancestor is absent.
    pub fn get_file_response(&self, id: u128) -> (r: Result<FileResponse, ApiError>)
        requires
            self.wf(),
        ensures
            r == found(self@.file_response_by_id(id)),
    {
        match self.get_file(id) {
            Err(e) => Err(e),
            Ok(row) => self.assemble_file(row),
        }
    }

    /// Every file, assembled, in creation order; `NotFound` when any of them cannot be
    /// assembled, so that no partial list is returned.
    pub fn list_file_responses(&self) -> (r: Result<Vec<FileResponse>, ApiError>)
        requires
            self.wf(),
        ensures
            assembles_all(self@.files.rows, |row: File| self@.file_response(row), r),
    {
        let rows = self.list_files();
        let mut out: Vec<FileResponse> = Vec::new();
        let mut i: usize = 0;
        while i < rows.len()
            invariant
                self.wf(),
                rows@ == self@.files.rows,
                i <= rows@.len(),
                out@.len() == i,
                forall|j: int| 0 <= j < i ==> #[trigger] self@.file_response(rows@[j]) == Some(out@[j]),
            decreases rows@.len() - i,
        {
            match self.assemble_file(rows[i].clone()) {
                Err(e) => {
                    let ghost f = |row: File| self@.file_response(row);
                    assert(f(rows@[i as int]) is None);
                    assert(exists|j: int| 0 <= j < rows@.len() && #[trigger] f(rows@[j]) is None);
                    return Err(e);
                },
                Ok(v) => out.push(v),
            }
            i = i + 1;
        }
        Ok(out)
    }

    /// The firm with id `id`, with every user and every client that belongs to it, in
    /// creation order; `NotFound` when there is no such firm.
    pub fn get_firm_response(&self, id: u128) -> (r: Result<FirmResponse, ApiError>)
        requires
            self.wf(),
        ensures
            match self@.firms.get(id) {
                None => r == Err::<FirmResponse, ApiError>(ApiError::NotFound),
                Some(firm) => r matches Ok(fr) && fr.id == firm.id && fr.name == firm.name
                    && fr.created_at == firm.created_at && fr.updated_at == firm.updated_at
                    && fr.users@ == users_of(self@.users.rows, firm) && fr.clients@ == clients_of(
                    self@.clients.rows,
                    firm,
                ),
            },
    {
        let firm = match self.get_firm(id) {
            Err(e) => return Err(e),
            Ok(f) => f,
        };
        let user_rows = self.list_users();
        let mut users: Vec<UserResponse> = Vec::new();
        let mut i: usize = 0;
        while i < user_rows.len()
            invariant
                i <= user_rows@.len(),
                users@ == users_of(user_rows@.subrange(0, i as int), firm),
            decreases user_rows@.len() - i,
        {
            assert(user_rows@.subrange(0, i + 1).drop_last() =~= user_rows@.subrange(0, i as int));
            let u = &user_rows[i];
            if u.firm_id == firm.id {
                users.push(
                    UserResponse {
                        id: u.id,
                        firm: firm.clone(),
                        email: u.email.clone(),
                        first_name: u.first_name.clone(),
                        last_name: u.last_name.clone(),
                        created_at: u.created_at,
                        updated_at: u.updated_at,
                    },
                );
            }
            i = i + 1;
        }
        assert(user_rows@.subrange(0, user_rows@.len() as int) =~= user_rows@);
        let client_rows = self.list_clients();
        let mut clients: Vec<ClientResponse> = Vec::new();
        let mut i: usize = 0;
        while i < client_rows.len()
            invariant
                i <= client_rows@.len(),
                clients@ == clients_of(client_rows@.subrange(0, i as int), firm),
            decreases client_rows@.len() - i,
        {
            assert(client_rows@.subrange(0, i + 1).drop_last() =~= client_rows@.subrange(0, i as int));
            let c = &client_rows[i];
            if c.firm_id == firm.id {
                clients.push(
                    ClientResponse {
                        id: c.id,
                        firm: firm.clone(),
                        company_name: c.company_name.clone(),
                        email: c.email.clone(),
                        created_at: c.created_at,
                        updated_at: c.updated_at,
                    },
                );
            }
            i = i + 1;
        }
        assert(client_rows@.subrange(0, client_rows@.len() as int) =~= client_rows@);
        Ok(
            FirmResponse {
                id: firm.id,
                name: firm.name,
                created_at: firm.created_at,
                updated_at: firm.updated_at,
                users,
                clients,
            },
        )
    }

    /// The files of the request with id `request_id`, each with that request assembled,
    /// in creation order; `NotFound` when the request or one of its ancestors is absent.
    pub fn list_files_for_request(&self, request_id: u128) -> (r: Result<Vec<FileResponse>, ApiError>)
        requires
            self.wf(),
        ensures
            match self@.request_response_by_id(request_id) {
                None => r == Err::<Vec<FileResponse>, ApiError>(ApiError::NotFound),
                Some(rr) => r matches Ok(v) && v@ == files_of(self@.files.rows, rr),
            },
    {
        let request = match self.get_request_response(request_id) {
            Err(e) => return Err(e),
            Ok(rr) => rr,
        };
        let rows = self.list_files();
        let mut out: Vec<FileResponse> = Vec::new();
        let mut i: usize = 0;
        while i < rows.len()
            invariant
                i <= rows@.len(),
                out@ == files_of(rows@.subrange(0, i as int), request),
            decreases rows@.len() - i,
        {
            assert(rows@.subrange(0, i + 1).drop_last() =~= rows@.subrange(0, i as int));
            let f = &rows[i];
            if f.request_id == request.id {
                out.push(
                    FileResponse {
                        id: f.id,
                        request: request.clone(),
                        file_name: f.file_name.clone(),
                        storage_key: f.storage_key.clone(),
                        file_size: f.file_size,
                        mime_type: f.mime_type.clone(),
                        created_at: f.created_at,
                        updated_at: f.updated_at,
                    },
                );
            }
            i = i + 1;
        }
        assert(rows@.subrange(0, rows@.len() as int) =~= rows@);
        Ok(out)
    }
}

/// Nested assembly completeness: a file assembles exactly when its request, collection,
/// client, user and their firms are all present; then every level is filled in, and the
/// firms embedded in the client and the user are those that their `firm_id` names.
pub proof fn lemma_file_response_complete(v: StoreView, id: u128)
    requires
        v.ids_match(),
        v.files.by_id.contains_key(id),
    ensures
        ({
            let f = v.files.by_id[id];
            let r = v.requests.by_id[f.request_id];
            let c = v.collections.by_id[r.collection_id];
            let cl = v.clients.by_id[c.client_id];
            let u = v.users.by_id[c.user_id];
            &&& v.file_response_by_id(id) is Some <==> (v.requests.by_id.contains_key(f.request_id)
                && v.collections.by_id.contains_key(r.collection_id)
                && v.clients.by_id.contains_key(c.client_id) && v.users.by_id.contains_key(
                c.user_id,
            ) && v.firms.by_id.contains_key(cl.firm_id) && v.firms.by_id.contains_key(u.firm_id))
            &&& v.file_response_by_id(id) matches Some(fr) ==> {
                &&& fr.id == f.id && fr.request.id == r.id && fr.request.collection.id == c.id
                &&& fr.request.collection.client.id == cl.id && fr.request.collection.user.id == u.id
                &&& fr.request.collection.client.firm == v.firms.by_id[cl.firm_id]
                &&& fr.request.collection.user.firm == v.firms.by_id[u.firm_id]
                &&& fr.request.collection.client.firm.id == cl.firm_id
                &&& fr.request.collection.user.firm.id == u.firm_id
            }
        }),
{
}

/// Round trip through assembly: a client created from `p` under a firm that is stored
/// reads back, assembled, with the payload's fields and that firm embedded.
pub proof fn lemma_client_round_trip(
    before: StoreView,
    row: Client,
    p: CreateClientPayload,
    id: u128,
    now: i64,
)
    requires
        is_new_client(row, p, id, now),
        before.firms.by_id.contains_key(p.firm_id),
    ensures
        before.with_clients(before.clients.added(row)).client_response_by_id(id) == Some(
            client_response_of(row, before.firms.by_id[p.firm_id]),
        ),
        client_response_of(row, before.firms.by_id[p.firm_id]).company_name == p.company_name,
        client_response_of(row, before.firms.by_id[p.firm_id]).email == p.email,
{
}

/// Round trip through assembly: a collection created from `p` whose client and user both
/// assemble reads back, assembled, with them and with the fields that create returned.
pub proof fn lemma_collection_round_trip_assembled(
    before: StoreView,
    row: Collection,
    p: CreateCollectionPayload,
    id: u128,
    now: i64,
    client: ClientResponse,
    user: UserResponse,
)
    requires
        is_new_collection(row, p, id, now),
        before.client_response_by_id(p.client_id) == Some(client),
        before.user_response_by_id(p.user_id) == Some(user),
    ensures
        before.with_collections(before.collections.added(row)).collection_response_by_id(id)
            == Some(collection_response_of(row, client, user)),
{
}

/// Listing requests agrees with getting them one by one: each listed response is what
/// getting its request by id yields, and every stored request is listed.
pub proof fn lemma_request_list_matches_get(v: StoreView, r: Result<Vec<RequestResponse>, ApiError>)
    requires
        listed(v.requests),
        assembles_all(v.requests.rows, |q: Request| v.request_response(q), r),
    ensures
        r matches Ok(out) ==> {
            &&& forall|i: int|
                0 <= i < out@.len() ==> v.request_response_by_id(#[trigger] out@[i].id) == Some(
                    out@[i],
                )
            &&& forall|k: u128|
                #[trigger] v.requests.by_id.contains_key(k) ==> exists|i: int|
                    0 <= i < out@.len() && out@[i].id == k
        },
{
    if let Ok(out) = r {
        let f = |q: Request| v.request_response(q);
        assert forall|i: int| 0 <= i < out@.len() implies v.request_response_by_id(
            #[trigger] out@[i].id,
        ) == Some(out@[i]) by {
            assert(f(v.requests.rows[i]) == Some(out@[i]));
            assert(v.requests.get(v.requests.rows[i].key()) == Some(v.requests.rows[i]));
        }
        assert forall|k: u128| #[trigger] v.requests.by_id.contains_key(k) implies exists|i: int|
            0 <= i < out@.len() && out@[i].id == k by {
            assert(has_key(v.requests.rows, k));
            let i = choose|i: int| 0 <= i < v.requests.rows.len() && #[trigger] v.requests.rows[i].key() == k;
            assert(f(v.requests.rows[i]) == Some(out@[i]));
        }
    }
}

/// Listing collections agrees with getting them one by one: each listed response is
/// what getting its collection by id yields, and every stored collection is listed.
pub proof fn lemma_collection_list_matches_get(
    v: StoreView,
    r: Result<Vec<CollectionResponse>, ApiError>,
)
    requires
        listed(v.collections),
        assembles_all(v.collections.rows, |c: Collection| v.collection_response(c), r),
    ensures
        r matches Ok(out) ==> {
            &&& forall|i: int|
                0 <= i < out@.len() ==> v.collection_response_by_id(#[trigger] out@[i].id) == Some(
                    out@[i],
                )
            &&& forall|k: u128|
                #[trigger] v.collections.by_id.contains_key(k) ==> exists|i: int|
                    0 <= i < out@.len() && out@[i].id == k
        },
{
    if let Ok(out) = r {
        let f = |c: Collection| v.collection_response(c);
        assert forall|i: int| 0 <= i < out@.len() implies v.collection_response_by_id(
            #[trigger] out@[i].id,
        ) == Some(out@[i]) by {
            assert(f(v.collections.rows[i]) == Some(out@[i]));
            assert(v.collections.get(v.collections.rows[i].key()) == Some(v.collections.rows[i]));
        }
        assert forall|k: u128| #[trigger] v.collections.by_id.contains_key(k) implies exists|i: int|
            0 <= i < out@.len() && out@[i].id == k by {
            assert(has_key(v.collections.rows, k));
            let i = choose|i: int|
                0 <= i < v.collections.rows.len() && #[trigger] v.collections.rows[i].key() == k;
            assert(f(v.collections.rows[i]) == Some(out@[i]));
        }
    }
}

} // verus!
