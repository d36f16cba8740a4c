use vstd::prelude::*;
use crate::error::ApiError;
use crate::model::{
    Client, Collection, CreateClientPayload, CreateCollectionPayload, CreateFilePayload,
    CreateFirmPayload, CreateRequestPayload, CreateUserPayload, File, Firm, Request,
    UpdateClientPayload, UpdateCollectionPayload, UpdateFilePayload, UpdateFirmPayload,
    UpdateRequestPayload, UpdateUserPayload, User,
};
use crate::table::{has_key, keys_unique, replaced, without, Entity, Table};
use crate::text::{lower_of, lowercase};

verus! {

/// Status of a newly created collection or request.
pub const PENDING: &'static str = "pending";

/// Access token given to every new collection.
pub const PLACEHOLDER_ACCESS_TOKEN: &'static str = "token";

/// How long a new collection stays open: one day, in microseconds.
pub const COLLECTION_LIFETIME_MICROS: i64 = 86_400_000_000;

impl Entity for Firm {
    open spec fn key(&self) -> u128 {
        self.id
    }

    fn id(&self) -> (r: u128) {
        self.id
    }

    fn duplicate(&self) -> (r: Self) {
        self.clone()
    }
}

impl Entity for User {
    open spec fn key(&self) -> u128 {
        self.id
    }

    fn id(&self) -> (r: u128) {
        self.id
    }

    fn duplicate(&self) -> (r: Self) {
        self.clone()
    }
}

impl Entity for Client {
    open spec fn key(&self) -> u128 {
        self.id
    }

    fn id(&self) -> (r: u128) {
        self.id
    }

    fn duplicate(&self) -> (r: Self) {
        self.clone()
    }
}

impl Entity for Collection {
    open spec fn key(&self) -> u128 {
        self.id
    }

    fn id(&self) -> (r: u128) {
        self.id
    }

    fn duplicate(&self) -> (r: Self) {
        self.clone()
    }
}

impl Entity for Request {
    open spec fn key(&self) -> u128 {
        self.id
    }

    fn id(&self) -> (r: u128) {
        self.id
    }

    fn duplicate(&self) -> (r: Self) {
        self.clone()
    }
}

impl Entity for File {
    open spec fn key(&self) -> u128 {
        self.id
    }

    fn id(&self) -> (r: u128) {
        self.id
    }

    fn duplicate(&self) -> (r: Self) {
        self.clone()
    }
}

/// One table as the store's users see it: rows by id, and rows in insertion order.
pub struct TableView<E> {
    pub by_id: Map<u128, E>,
    pub rows: Seq<E>,
}

impl<E: Entity> TableView<E> {
    pub open spec fn get(self, id: u128) -> Option<E> {
        if self.by_id.contains_key(id) {
            Some(self.by_id[id])
        } else {
            None
        }
    }

    pub open spec fn added(self, row: E) -> TableView<E> {
        TableView { by_id: self.by_id.insert(row.key(), row), rows: self.rows.push(row) }
    }

    pub open spec fn updated(self, row: E) -> TableView<E> {
        TableView { by_id: self.by_id.insert(row.key(), row), rows: replaced(self.rows, row) }
    }

    pub open spec fn removed(self, id: u128) -> TableView<E> {
        TableView { by_id: self.by_id.remove(id), rows: without(self.rows, id) }
    }
}

/// The whole store as its users see it.
pub struct StoreView {
    pub firms: TableView<Firm>,
    pub users: TableView<User>,
    pub clients: TableView<Client>,
    pub collections: TableView<Collection>,
    pub requests: TableView<Request>,
    pub files: TableView<File>,
}

impl StoreView {
    pub open spec fn with_firms(self, t: TableView<Firm>) -> StoreView {
        StoreView { firms: t, ..self }
    }

    pub open spec fn with_users(self, t: TableView<User>) -> StoreView {
        StoreView { users: t, ..self }
    }

    pub open spec fn with_clients(self, t: TableView<Client>) -> StoreView {
        StoreView { clients: t, ..self }
    }

    pub open spec fn with_collections(self, t: TableView<Collection>) -> StoreView {
        StoreView { collections: t, ..self }
    }

    pub open spec fn with_requests(self, t: TableView<Request>) -> StoreView {
        StoreView { requests: t, ..self }
    }

    pub open spec fn with_files(self, t: TableView<File>) -> StoreView {
        StoreView { files: t, ..self }
    }
}

/// The listing and the by-id map hold the same rows: listed ids are distinct, each
/// listed row is the row of its id, and each id is listed.
pub open spec fn listed<E: Entity>(t: TableView<E>) -> bool {
    &&& keys_unique(t.rows)
    &&& forall|i: int| 0 <= i < t.rows.len() ==> #[trigger] t.get(t.rows[i].key()) == Some(t.rows[i])
    &&& forall|k: u128| #[trigger] t.by_id.contains_key(k) ==> has_key(t.rows, k)
}

proof fn lemma_table_listed<E: Entity>(t: &Table<E>)
    requires
        t.wf(),
    ensures
        listed(TableView { by_id: t@, rows: t.entries() }),
{
    t.lemma_entries();
    let v = TableView { by_id: t@, rows: t.entries() };
    assert forall|i: int| 0 <= i < v.rows.len() implies #[trigger] v.get(v.rows[i].key()) == Some(
        v.rows[i],
    ) by {
        assert(t.lookup(t.entries()[i].key()) == Some(t.entries()[i]));
    }
}

/// The row under each key carries that key.
pub open spec fn keyed<E: Entity>(m: Map<u128, E>) -> bool {
    forall|k: u128| #[trigger] m.contains_key(k) ==> m[k].key() == k
}

impl StoreView {
    /// In every table, the row under each id has that id.
    pub open spec fn ids_match(self) -> bool {
        &&& keyed(self.firms.by_id)
        &&& keyed(self.users.by_id)
        &&& keyed(self.clients.by_id)
        &&& keyed(self.collections.by_id)
        &&& keyed(self.requests.by_id)
        &&& keyed(self.files.by_id)
    }

    /// The user whose email equals `e` up to case, if any (there is at most one).
    pub open spec fn user_by_email(self, e: Seq<char>) -> Option<User> {
        if email_in_use(self.users.by_id, e, None) {
            Some(
                self.users.by_id[choose|k: u128|
                    #[trigger] self.users.by_id.contains_key(k) && Some(k) != None::<u128>
                        && lower_of(self.users.by_id[k].email@) == lower_of(e)],
            )
        } else {
            None
        }
    }
}

/// The result of fetching a row: the row, or `NotFound`.
pub open spec fn found<E>(o: Option<E>) -> Result<E, ApiError> {
    match o {
        Some(e) => Ok(e),
        None => Err(ApiError::NotFound),
    }
}

/// The result of deleting `id` from `t`: `NotFound` when there is no such row.
pub open spec fn deletion<E: Entity>(t: TableView<E>, id: u128) -> Result<(), ApiError> {
    if t.by_id.contains_key(id) {
        Ok(())
    } else {
        Err(ApiError::NotFound)
    }
}

/// Why creating a user from `p` under `id` fails, if it does: the id is taken, or
/// another user holds the same email up to case.
pub open spec fn user_creation_error(v: StoreView, p: CreateUserPayload, id: u128) -> Option<ApiError> {
    if v.users.by_id.contains_key(id) || email_in_use(v.users.by_id, p.email@, None) {
        Some(ApiError::Conflict)
    } else {
        None
    }
}

/// Whether a user other than `except` holds the email `e`, compared up to case.
pub open spec fn email_in_use(users: Map<u128, User>, e: Seq<char>, except: Option<u128>) -> bool {
    exists|k: u128|
        #[trigger] users.contains_key(k) && Some(k) != except && lower_of(users[k].email@)
            == lower_of(e)
}

/// No two users share an email, compared up to case.
pub open spec fn emails_unique(users: Map<u128, User>) -> bool {
    forall|a: u128, b: u128|
        #[trigger] users.contains_key(a) && #[trigger] users.contains_key(b) && a != b
            ==> lower_of(users[a].email@) != lower_of(users[b].email@)
}

/// `r` is the firm that `p` creates under id `id` at time `now`.
pub open spec fn is_new_firm(r: Firm, p: CreateFirmPayload, id: u128, now: i64) -> bool {
    r.id == id && r.name == p.name && r.created_at == now && r.updated_at == now
}

/// `r` is the client that `p` creates under id `id` at time `now`.
pub open spec fn is_new_client(r: Client, p: CreateClientPayload, id: u128, now: i64) -> bool {
    r.id == id && r.firm_id == p.firm_id && r.company_name == p.company_name && r.email == p.email
        && r.created_at == now && r.updated_at == now
}

/// `r` is the collection that `p` creates under id `id` at time `now`.
pub open spec fn is_new_collection(r: Collection, p: CreateCollectionPayload, id: u128, now: i64) -> bool {
    r.id == id && r.client_id == p.client_id && r.user_id == p.user_id && r.title == p.title
        && r.status@ == PENDING@ && r.access_token@ == PLACEHOLDER_ACCESS_TOKEN@
        && r.expires_at == now + COLLECTION_LIFETIME_MICROS && r.created_at == now && r.updated_at == now
}

/// `r` is the request that `p` creates under id `id` at time `now`.
pub open spec fn is_new_request(r: Request, p: CreateRequestPayload, id: u128, now: i64) -> bool {
    r.id == id && r.collection_id == p.collection_id && r.title == p.title
        && r.description == p.description && r.status@ == PENDING@ && r.created_at == now
        && r.updated_at == now
}

/// `r` is the file that `p` creates under id `id` at time `now`.
pub open spec fn is_new_file(r: File, p: CreateFilePayload, id: u128, now: i64) -> bool {
    r.id == id && r.request_id == p.request_id && r.file_name == p.file_name
        && r.storage_key == p.storage_key && r.file_size == p.file_size && r.mime_type == p.mime_type
        && r.created_at == now && r.updated_at == now
}

/// `r` is the user that `p` registers under id `id` at time `now`, with the password
/// hash `hash`.
pub open spec fn is_new_user(r: User, p: CreateUserPayload, hash: String, id: u128, now: i64) -> bool {
    r.id == id && r.firm_id == p.firm_id && r.email == p.email && r.password_hash == hash
        && r.first_name == p.first_name && r.last_name == p.last_name && r.created_at == now
        && r.updated_at == now
}

/// An in-memory entity store: one table per entity kind, keyed by id.
///
/// References between rows are not checked on create or delete; assembly reports a
/// missing ancestor as `NotFound`.
pub struct Store {
    firms: Table<Firm>,
    users: Table<User>,
    clients: Table<Client>,
    collections: Table<Collection>,
    requests: Table<Request>,
    files: Table<File>,
}

/// Round trip: a row read back after it was added under its own id is that row.
pub proof fn lemma_created_row_reads_back<E: Entity>(t: TableView<E>, row: E)
    ensures
        found(t.added(row).get(row.key())) == Ok::<E, ApiError>(row),
{
}

/// Round trip at the store: a collection created from `p` reads back with the payload's
/// references and title, the assigned id, the creation time as both timestamps, and the
/// server-assigned status, access token and expiry.
pub proof fn lemma_collection_round_trip(
    before: StoreView,
    row: Collection,
    p: CreateCollectionPayload,
    id: u128,
    now: i64,
)
    requires
        is_new_collection(row, p, id, now),
    ensures
        found(before.with_collections(before.collections.added(row)).collections.get(id))
            == Ok::<Collection, ApiError>(row),
        row.id == id && row.client_id == p.client_id && row.user_id == p.user_id && row.title
            == p.title,
        row.created_at == now && row.updated_at == now,
        row.status@ == PENDING@ && row.access_token@ == PLACEHOLDER_ACCESS_TOKEN@,
        row.expires_at == now + COLLECTION_LIFETIME_MICROS,
{
    lemma_created_row_reads_back(before.collections, row);
}

/// A row read back after an update is the updated row.
pub proof fn lemma_updated_row_reads_back<E: Entity>(t: TableView<E>, row: E)
    ensures
        found(t.updated(row).get(row.key())) == Ok::<E, ApiError>(row),
{
}

/// Idempotent delete: after `id` is deleted, reading it gives `NotFound`, and deleting it
/// again gives `NotFound` too rather than success.
pub proof fn lemma_delete_twice<E: Entity>(t: TableView<E>, id: u128)
    ensures
        found(t.removed(id).get(id)) == Err::<E, ApiError>(ApiError::NotFound),
        deletion(t.removed(id), id) == Err::<(), ApiError>(ApiError::NotFound),
        t.removed(id).removed(id).by_id == t.removed(id).by_id,
{
    assert(t.removed(id).removed(id).by_id =~= t.removed(id).by_id);
}

/// Duplicate email: once a user was created from `first`, creating another one whose
/// email is the same up to case fails with `Conflict`, not with `Internal`.
pub proof fn lemma_duplicate_email_conflicts(
    before: StoreView,
    created: User,
    first: CreateUserPayload,
    hash: String,
    first_id: u128,
    now: i64,
    second: CreateUserPayload,
    second_id: u128,
)
    requires
        is_new_user(created, first, hash, first_id, now),
        lower_of(second.email@) == lower_of(first.email@),
    ensures
        user_creation_error(before.with_users(before.users.added(created)), second, second_id)
            == Some(ApiError::Conflict),
{
    let after = before.with_users(before.users.added(created));
    assert(after.users.by_id.contains_key(first_id));
    assert(email_in_use(after.users.by_id, second.email@, None));
}

impl Store {
    pub closed spec fn view(&self) -> StoreView {
        StoreView {
            firms: TableView { by_id: self.firms@, rows: self.firms.entries() },
            users: TableView { by_id: self.users@, rows: self.users.entries() },
            clients: TableView { by_id: self.clients@, rows: self.clients.entries() },
            collections: TableView { by_id: self.collections@, rows: self.collections.entries() },
            requests: TableView { by_id: self.requests@, rows: self.requests.entries() },
            files: TableView { by_id: self.files@, rows: self.files.entries() },
        }
    }

    /// The row under each id has that id.
    pub proof fn lemma_ids_match(&self)
        ensures
            self@.ids_match(),
    {
        self.firms.lemma_keys();
        self.users.lemma_keys();
        self.clients.lemma_keys();
        self.collections.lemma_keys();
        self.requests.lemma_keys();
        self.files.lemma_keys();
    }

    /// Every table's listing holds the same rows as its by-id map.
    pub proof fn lemma_listings_match(&self)
        requires
            self.wf(),
        ensures
            listed(self@.firms),
            listed(self@.users),
            listed(self@.clients),
            listed(self@.collections),
            listed(self@.requests),
            listed(self@.files),
    {
        lemma_table_listed(&self.firms);
        lemma_table_listed(&self.users);
        lemma_table_listed(&self.clients);
        lemma_table_listed(&self.collections);
        lemma_table_listed(&self.requests);
        lemma_table_listed(&self.files);
    }

    /// No two users share an email, compared up to case.
    pub proof fn lemma_emails_unique(&self)
        requires
            self.wf(),
        ensures
            emails_unique(self@.users.by_id),
    {
    }

    /// Ids are unique in each table, and emails are unique up to case among users.
    pub closed spec fn wf(&self) -> bool {
        &&& self.firms.wf()
        &&& self.users.wf()
        &&& self.clients.wf()
        &&& self.collections.wf()
        &&& self.requests.wf()
        &&& self.files.wf()
        &&& emails_unique(self.users@)
    }

    pub fn new() -> (r: Store)
        ensures
            r.wf(),
            r@.firms.by_id.is_empty() && r@.firms.rows.len() == 0,
            r@.users.by_id.is_empty() && r@.users.rows.len() == 0,
            r@.clients.by_id.is_empty() && r@.clients.rows.len() == 0,
            r@.collections.by_id.is_empty() && r@.collections.rows.len() == 0,
            r@.requests.by_id.is_empty() && r@.requests.rows.len() == 0,
            r@.files.by_id.is_empty() && r@.files.rows.len() == 0,
    {
        Store {
            firms: Table::new(),
            users: Table::new(),
            clients: Table::new(),
            collections: Table::new(),
            requests: Table::new(),
            files: Table::new(),
        }
    }

    /// Creates a firm under the fresh id `id` at time `now`. Fails with `Conflict`
    /// when `id` is taken.
    pub fn create_firm(&mut self, p: CreateFirmPayload, id: u128, now: i64) -> (r: Result<
        Firm,
        ApiError,
    >)
        requires
            old(self).wf(),
        ensures
            final(self).wf(),
            r is Ok <==> !old(self)@.firms.by_id.contains_key(id),
            match r {
                Ok(row) => is_new_firm(row, p, id, now)
                    && final(self)@ == old(self)@.with_firms(old(self)@.firms.added(row)),
                Err(e) => {
                    &&& e == ApiError::Conflict
                    &&& old(self)@.firms.by_id.contains_key(id)
                    &&& final(self)@ == old(self)@
                },
            },
    {
        let row = Firm { id, name: p.name, created_at: now, updated_at: now };
        if self.firms.insert(row.clone()) {
            Ok(row)
        } else {
            Err(ApiError::Conflict)
        }
    }

    /// The firm with id `id`, or `NotFound`.
    pub fn get_firm(&self, id: u128) -> (r: Result<Firm, ApiError>)
        requires
            self.wf(),
        ensures
            r == found(self@.firms.get(id)),
    {
        match self.firms.get(id) {
            Some(row) => Ok(row),
            None => Err(ApiError::NotFound),
        }
    }

    /// Every firm, in creation order.
    pub fn list_firms(&self) -> (r: Vec<Firm>)
        ensures
            r@ == self@.firms.rows,
    {
        self.firms.list()
    }

    /// Merges `p` into the firm with id `id` at time `now`: present fields overwrite,
    /// absent fields are kept. Fails with `NotFound` when there is no such firm.
    pub fn update_firm(&mut self, id: u128, p: UpdateFirmPayload, now: i64) -> (r: Result<
        Firm,
        ApiError,
    >)
        requires
            old(self).wf(),
        ensures
            final(self).wf(),
            match old(self)@.firms.get(id) {
                None => r == Err::<Firm, ApiError>(ApiError::NotFound)
                    && final(self)@ == old(self)@,
                Some(before) => r == Ok::<Firm, ApiError>(p.merged(before, now))
                    && final(self)@ == old(self)@.with_firms(old(self)@.firms.updated(p.merged(before, now))),
            },
    {
        match self.firms.get(id) {
            None => Err(ApiError::NotFound),
            Some(before) => {
                let row = p.apply(before, now);
                let _found = self.firms.replace(row.clone());
                Ok(row)
            },
        }
    }

    /// Deletes the firm with id `id`. Fails with `NotFound` when there is none, so a
    /// second delete of the same id fails.
    pub fn delete_firm(&mut self, id: u128) -> (r: Result<(), ApiError>)
        requires
            old(self).wf(),
        ensures
            final(self).wf(),
            r == deletion(old(self)@.firms, id),
            final(self)@ == old(self)@.with_firms(old(self)@.firms.removed(id)),
            r is Err ==> final(self)@ == old(self)@,
    {
        if self.firms.remove(id) {
            Ok(())
        } else {
            Err(ApiError::NotFound)
        }
    }

    /// Creates a client under the fresh id `id` at time `now`. Fails with `Conflict`
    /// when `id` is taken.
    pub fn create_client(&mut self, p: CreateClientPayload, id: u128, now: i64) -> (r: Result<
        Client,
        ApiError,
    >)
        requires
            old(self).wf(),
        ensures
            final(self).wf(),
            r is Ok <==> !old(self)@.clients.by_id.contains_key(id),
            match r {
                Ok(row) => is_new_client(row, p, id, now)
                    && final(self)@ == old(self)@.with_clients(old(self)@.clients.added(row)),
                Err(e) => {
                    &&& e == ApiError::Conflict
                    &&& old(self)@.clients.by_id.contains_key(id)
                    &&& final(self)@ == old(self)@
                },
            },
    {
        let row = Client { id, firm_id: p.firm_id, company_name: p.company_name, email: p.email, created_at: now, updated_at: now };
        if self.clients.insert(row.clone()) {
            Ok(row)
        } else {
            Err(ApiError::Conflict)
        }
    }

    /// The client with id `id`, or `NotFound`.
    pub fn get_client(&self, id: u128) -> (r: Result<Client, ApiError>)
        requires
            self.wf(),
        ensures
            r == found(self@.clients.get(id)),
    {
        match self.clients.get(id) {
            Some(row) => Ok(row),
            None => Err(ApiError::NotFound),
        }
    }

    /// Every client, in creation order.
    pub fn list_clients(&self) -> (r: Vec<Client>)
        ensures
            r@ == self@.clients.rows,
    {
        self.clients.list()
    }

    /// Merges `p` into the client with id `id` at time `now`: present fields overwrite,
    /// absent fields are kept. Fails with `NotFound` when there is no such client.
    pub fn update_client(&mut self, id: u128, p: UpdateClientPayload, now: i64) -> (r: Result<
        Client,
        ApiError,
    >)
        requires
            old(self).wf(),
        ensures
            final(self).wf(),
            match old(self)@.clients.get(id) {
                None => r == Err::<Client, ApiError>(ApiError::NotFound)
                    && final(self)@ == old(self)@,
                Some(before) => r == Ok::<Client, ApiError>(p.merged(before, now))
                    && final(self)@ == old(self)@.with_clients(old(self)@.clients.updated(p.merged(before, now))),
            },
    {
        match self.clients.get(id) {
            None => Err(ApiError::NotFound),
            Some(before) => {
                let row = p.apply(before, now);
                let _found = self.clients.replace(row.clone());
                Ok(row)
            },
        }
    }

    /// Deletes the client with id `id`. Fails with `NotFound` when there is none, so a
    /// second delete of the same id fails.
    pub fn delete_client(&mut self, id: u128) -> (r: Result<(), ApiError>)
        requires
            old(self).wf(),
        ensures
            final(self).wf(),
            r == deletion(old(self)@.clients, id),
            final(self)@ == old(self)@.with_clients(old(self)@.clients.removed(id)),
            r is Err ==> final(self)@ == old(self)@,
    {
        if self.clients.remove(id) {
            Ok(())
        } else {
            Err(ApiError::NotFound)
        }
    }

    /// Creates a collection under the fresh id `id` at time `now`. Fails with `Conflict`
    /// when `id` is taken.
    pub fn create_collection(&mut self, p: CreateCollectionPayload, id: u128, now: i64) -> (r: Result<
        Collection,
        ApiError,
    >)
        requires
            old(self).wf(),
        ensures
            final(self).wf(),
            r is Ok <==> !old(self)@.collections.by_id.contains_key(id)
                && now + COLLECTION_LIFETIME_MICROS <= i64::MAX,
            match r {
                Ok(row) => is_new_collection(row, p, id, now)
                    && final(self)@ == old(self)@.with_collections(old(self)@.collections.added(row)),
                Err(e) => {
                    &&& e == ApiError::Internal <==> now + COLLECTION_LIFETIME_MICROS > i64::MAX
                    &&& e == ApiError::Conflict <==> (now + COLLECTION_LIFETIME_MICROS <= i64::MAX
                        && old(self)@.collections.by_id.contains_key(id))
                    &&& final(self)@ == old(self)@
                },
            },
    {
        let expires_at = match now.checked_add(COLLECTION_LIFETIME_MICROS) {
            Some(t) => t,
            None => return Err(ApiError::Internal),
        };
        let row = Collection {
            id,
            client_id: p.client_id,
            user_id: p.user_id,
            title: p.title,
            status: PENDING.to_string(),
            access_token: PLACEHOLDER_ACCESS_TOKEN.to_string(),
            expires_at,
            created_at: now,
            updated_at: now,
        };
        if self.collections.insert(row.clone()) {
            Ok(row)
        } else {
            Err(ApiError::Conflict)
        }
    }

    /// The collection with id `id`, or `NotFound`.
    pub fn get_collection(&self, id: u128) -> (r: Result<Collection, ApiError>)
        requires
            self.wf(),
        ensures
            r == found(self@.collections.get(id)),
    {
        match self.collections.get(id) {
            Some(row) => Ok(row),
            None => Err(ApiError::NotFound),
        }
    }

    /// Every collection, in creation order.
    pub fn list_collections(&self) -> (r: Vec<Collection>)
        ensures
            r@ == self@.collections.rows,
    {
        self.collections.list()
    }

    /// Merges `p` into the collection with id `id` at time `now`: present fields overwrite,
    /// absent fields are kept. Fails with `NotFound` when there is no such collection.
    pub fn update_collection(&mut self, id: u128, p: UpdateCollectionPayload, now: i64) -> (r: Result<
        Collection,
        ApiError,
    >)
        requires
            old(self).wf(),
        ensures
            final(self).wf(),
            match old(self)@.collections.get(id) {
                None => r == Err::<Collection, ApiError>(ApiError::NotFound)
                    && final(self)@ == old(self)@,
                Some(before) => r == Ok::<Collection, ApiError>(p.merged(before, now))
                    && final(self)@ == old(self)@.with_collections(old(self)@.collections.updated(p.merged(before, now))),
            },
    {
        match self.collections.get(id) {
            None => Err(ApiError::NotFound),
            Some(before) => {
                let row = p.apply(before, now);
                let _found = self.collections.replace(row.clone());
                Ok(row)
            },
        }
    }

    /// Deletes the collection with id `id`. Fails with `NotFound` when there is none, so a
    /// second delete of the same id fails.
    pub fn delete_collection(&mut self, id: u128) -> (r: Result<(), ApiError>)
        requires
            old(self).wf(),
        ensures
            final(self).wf(),
            r == deletion(old(self)@.collections, id),
            final(self)@ == old(self)@.with_collections(old(self)@.collections.removed(id)),
            r is Err ==> final(self)@ == old(self)@,
    {
        if self.collections.remove(id) {
            Ok(())
        } else {
            Err(ApiError::NotFound)
        }
    }

    /// Creates a request under the fresh id `id` at time `now`. Fails with `Conflict`
    /// when `id` is taken.
    pub fn create_request(&mut self, p: CreateRequestPayload, id: u128, now: i64) -> (r: Result<
        Request,
        ApiError,
    >)
        requires
            old(self).wf(),
        ensures
            final(self).wf(),
            r is Ok <==> !old(self)@.requests.by_id.contains_key(id),
            match r {
                Ok(row) => is_new_request(row, p, id, now)
                    && final(self)@ == old(self)@.with_requests(old(self)@.requests.added(row)),
                Err(e) => {
                    &&& e == ApiError::Conflict
                    &&& old(self)@.requests.by_id.contains_key(id)
                    &&& final(self)@ == old(self)@
                },
            },
    {
        let row = Request {
            id,
            collection_id: p.collection_id,
            title: p.title,
            description: p.description,
            status: PENDING.to_string(),
            created_at: now,
            updated_at: now,
        };
        if self.requests.insert(row.clone()) {
            Ok(row)
        } else {
            Err(ApiError::Conflict)
        }
    }

    /// The request with id `id`, or `NotFound`.
    pub fn get_request(&self, id: u128) -> (r: Result<Request, ApiError>)
        requires
            self.wf(),
        ensures
            r == found(self@.requests.get(id)),
    {
        match self.requests.get(id) {
            Some(row) => Ok(row),
            None => Err(ApiError::NotFound),
        }
    }

    /// Every request, in creation order.
    pub fn list_requests(&self) -> (r: Vec<Request>)
        ensures
            r@ == self@.requests.rows,
    {
        self.requests.list()
    }

    /// Merges `p` into the request with id `id` at time `now`: present fields overwrite,
    /// absent fields are kept. Fails with `NotFound` when there is no such request.
    pub fn update_request(&mut self, id: u128, p: UpdateRequestPayload, now: i64) -> (r: Result<
        Request,
        ApiError,
    >)
        requires
            old(self).wf(),
        ensures
            final(self).wf(),
            match old(self)@.requests.get(id) {
                None => r == Err::<Request, ApiError>(ApiError::NotFound)
                    && final(self)@ == old(self)@,
                Some(before) => r == Ok::<Request, ApiError>(p.merged(before, now))
                    && final(self)@ == old(self)@.with_requests(old(self)@.requests.updated(p.merged(before, now))),
            },
    {
        match self.requests.get(id) {
            None => Err(ApiError::NotFound),
            Some(before) => {
                let row = p.apply(before, now);
                let _found = self.requests.replace(row.clone());
                Ok(row)
            },
        }
    }

    /// Deletes the request with id `id`. Fails with `NotFound` when there is none, so a
    /// second delete of the same id fails.
    pub fn delete_request(&mut self, id: u128) -> (r: Result<(), ApiError>)
        requires
            old(self).wf(),
        ensures
            final(self).wf(),
            r == deletion(old(self)@.requests, id),
            final(self)@ == old(self)@.with_requests(old(self)@.requests.removed(id)),
            r is Err ==> final(self)@ == old(self)@,
    {
        if self.requests.remove(id) {
            Ok(())
        } else {
            Err(ApiError::NotFound)
        }
    }

    /// Creates a file under the fresh id `id` at time `now`. Fails with `Conflict`
    /// when `id` is taken.
    pub fn create_file(&mut self, p: CreateFilePayload, id: u128, now: i64) -> (r: Result<
        File,
        ApiError,
    >)
        requires
            old(self).wf(),
        ensures
            final(self).wf(),
            r is Ok <==> !old(self)@.files.by_id.contains_key(id),
            match r {
                Ok(row) => is_new_file(row, p, id, now)
                    && final(self)@ == old(self)@.with_files(old(self)@.files.added(row)),
                Err(e) => {
                    &&& e == ApiError::Conflict
                    &&& old(self)@.files.by_id.contains_key(id)
                    &&& final(self)@ == old(self)@
                },
            },
    {
        let row = File {
            id,
            request_id: p.request_id,
            file_name: p.file_name,
            storage_key: p.storage_key,
            file_size: p.file_size,
            mime_type: p.mime_type,
            created_at: now,
            updated_at: now,
        };
        if self.files.insert(row.clone()) {
            Ok(row)
        } else {
            Err(ApiError::Conflict)
        }
    }

    /// The file with id `id`, or `NotFound`.
    pub fn get_file(&self, id: u128) -> (r: Result<File, ApiError>)
        requires
            self.wf(),
        ensures
            r == found(self@.files.get(id)),
    {
        match self.files.get(id) {
            Some(row) => Ok(row),
            None => Err(ApiError::NotFound),
        }
    }

    /// Every file, in creation order.
    pub fn list_files(&self) -> (r: Vec<File>)
        ensures
            r@ == self@.files.rows,
    {
        self.files.list()
    }

    /// Merges `p` into the file with id `id` at time `now`: present fields overwrite,
    /// absent fields are kept. Fails with `NotFound` when there is no such file.
    pub fn update_file(&mut self, id: u128, p: UpdateFilePayload, now: i64) -> (r: Result<
        File,
        ApiError,
    >)
        requires
            old(self).wf(),
        ensures
            final(self).wf(),
            match old(self)@.files.get(id) {
                None => r == Err::<File, ApiError>(ApiError::NotFound)
                    && final(self)@ == old(self)@,
                Some(before) => r == Ok::<File, ApiError>(p.merged(before, now))
                    && final(self)@ == old(self)@.with_files(old(self)@.files.updated(p.merged(before, now))),
            },
    {
        match self.files.get(id) {
            None => Err(ApiError::NotFound),
            Some(before) => {
                let row = p.apply(before, now);
                let _found = self.files.replace(row.clone());
                Ok(row)
            },
        }
    }

    /// Deletes the file with id `id`. Fails with `NotFound` when there is none, so a
    /// second delete of the same id fails.
    pub fn delete_file(&mut self, id: u128) -> (r: Result<(), ApiError>)
        requires
            old(self).wf(),
        ensures
            final(self).wf(),
            r == deletion(old(self)@.files, id),
            final(self)@ == old(self)@.with_files(old(self)@.files.removed(id)),
            r is Err ==> final(self)@ == old(self)@,
    {
        if self.files.remove(id) {
            Ok(())
        } else {
            Err(ApiError::NotFound)
        }
    }

    /// The user whose email equals `email` up to case, if any.
    pub fn user_with_email(&self, email: &str) -> (r: Option<User>)
        requires
            self.wf(),
        ensures
            match r {
                Some(u) => self@.users.get(u.id) == Some(u) && lower_of(u.email@) == lower_of(email@),
                None => !email_in_use(self@.users.by_id, email@, None),
            },
            r == self@.user_by_email(email@),
    {
        let target = lowercase(email);
        let rows = self.users.list();
        proof {
            self.users.lemma_entries();
        }
        let mut i: usize = 0;
        while i < rows.len()
            invariant
                self.wf(),
                target@ == lower_of(email@),
                rows@ == self.users.entries(),
                i <= rows@.len(),
                forall|j: int| 0 <= j < i ==> lower_of((#[trigger] rows@[j]).email@) != lower_of(email@),
            decreases rows@.len() - i,
        {
            let candidate = lowercase(rows[i].email.as_str());
            if candidate == target {
                proof {
                    self.users.lemma_entries();
                }
                assert(self.users.lookup(rows@[i as int].key()) == Some(rows@[i as int]));
                proof {
                    let k0 = rows@[i as int].key();
                    assert(self@.users.by_id.contains_key(k0));
                    assert(email_in_use(self@.users.by_id, email@, None));
                    let k = choose|k: u128|
                        #[trigger] self@.users.by_id.contains_key(k) && Some(k) != None::<u128>
                            && lower_of(self@.users.by_id[k].email@) == lower_of(email@);
                    if k != k0 {
                        assert(lower_of(self@.users.by_id[k].email@) != lower_of(
                            self@.users.by_id[k0].email@,
                        ));
                    }
                }
                return Some(rows[i].clone());
            }
            i = i + 1;
        }
        proof {
            if email_in_use(self@.users.by_id, email@, None) {
                let k = choose|k: u128|
                    #[trigger] self@.users.by_id.contains_key(k) && Some(k) != None::<u128>
                        && lower_of(self@.users.by_id[k].email@) == lower_of(email@);
                assert(crate::table::has_key(self.users.entries(), k));
                let j = choose|j: int|
                    0 <= j < self.users.entries().len() && #[trigger] self.users.entries()[j].key() == k;
                assert(self.users.lookup(self.users.entries()[j].key()) == Some(self.users.entries()[j]));
                assert(lower_of(rows@[j].email@) != lower_of(email@));
            }
        }
        None
    }

    /// Whether a user other than `except` holds `email`, compared up to case.
    fn email_taken(&self, email: &str, except: Option<u128>) -> (r: bool)
        requires
            self.wf(),
        ensures
            r == email_in_use(self@.users.by_id, email@, except),
    {
        match self.user_with_email(email) {
            None => false,
            Some(u) => {
                let other = match except {
                    Some(x) => x != u.id,
                    None => true,
                };
                proof {
                    assert(self@.users.by_id.contains_key(u.id));
                    if !other {
                        if email_in_use(self@.users.by_id, email@, except) {
                            let k = choose|k: u128|
                                #[trigger] self@.users.by_id.contains_key(k) && Some(k) != except
                                    && lower_of(self@.users.by_id[k].email@) == lower_of(email@);
                            assert(k != u.id);
                        }
                    }
                }
                other
            },
        }
    }

    /// Registers a user under the fresh id `id` at time `now`, storing `password_hash`.
    /// Fails with `Conflict` when `id` is taken or another user already holds the same
    /// email up to case.
    pub fn create_user(&mut self, p: CreateUserPayload, password_hash: String, id: u128, now: i64) -> (r:
        Result<User, ApiError>)
        requires
            old(self).wf(),
        ensures
            final(self).wf(),
            match user_creation_error(old(self)@, p, id) {
                Some(e) => r == Err::<User, ApiError>(e) && final(self)@ == old(self)@,
                None => r matches Ok(row) && is_new_user(row, p, password_hash, id, now)
                    && final(self)@ == old(self)@.with_users(old(self)@.users.added(row)),
            },
    {
        if self.users.contains(id) {
            return Err(ApiError::Conflict);
        }
        if self.email_taken(p.email.as_str(), None) {
            return Err(ApiError::Conflict);
        }
        let row = User {
            id,
            firm_id: p.firm_id,
            email: p.email,
            password_hash,
            first_name: p.first_name,
            last_name: p.last_name,
            created_at: now,
            updated_at: now,
        };
        let ghost before = self.users@;
        let _added = self.users.insert(row.clone());
        proof {
            let after = self.users@;
            assert forall|a: u128, b: u128|
                #[trigger] after.contains_key(a) && #[trigger] after.contains_key(b) && a != b
                    implies lower_of(after[a].email@) != lower_of(after[b].email@) by {
                if a == id {
                    assert(before.contains_key(b));
                } else if b == id {
                    assert(before.contains_key(a));
                } else {
                    assert(before.contains_key(a) && before.contains_key(b));
                }
            }
        }
        Ok(row)
    }

    /// The user with id `id`, or `NotFound`.
    pub fn get_user(&self, id: u128) -> (r: Result<User, ApiError>)
        requires
            self.wf(),
        ensures
            r == found(self@.users.get(id)),
    {
        match self.users.get(id) {
            Some(row) => Ok(row),
            None => Err(ApiError::NotFound),
        }
    }

    /// Every user, in creation order.
    pub fn list_users(&self) -> (r: Vec<User>)
        ensures
            r@ == self@.users.rows,
    {
        self.users.list()
    }

    /// Merges `p` into the user with id `id` at time `now`: present fields overwrite,
    /// absent fields are kept. Fails with `NotFound` when there is no such user, and with
    /// `Conflict` when another user holds the new email up to case.
    pub fn update_user(&mut self, id: u128, p: UpdateUserPayload, now: i64) -> (r: Result<User, ApiError>)
        requires
            old(self).wf(),
        ensures
            final(self).wf(),
            match old(self)@.users.get(id) {
                None => r == Err::<User, ApiError>(ApiError::NotFound) && final(self)@ == old(self)@,
                Some(before) => if p.email matches Some(e) && email_in_use(
                    old(self)@.users.by_id,
                    e@,
                    Some(id),
                ) {
                    r == Err::<User, ApiError>(ApiError::Conflict) && final(self)@ == old(self)@
                } else {
                    r == Ok::<User, ApiError>(p.merged(before, now)) && final(self)@ == old(
                        self,
                    )@.with_users(old(self)@.users.updated(p.merged(before, now)))
                },
            },
    {
        match self.users.get(id) {
            None => Err(ApiError::NotFound),
            Some(before) => {
                if let Some(e) = &p.email {
                    if self.email_taken(e.as_str(), Some(id)) {
                        return Err(ApiError::Conflict);
                    }
                }
                let row = p.apply(before, now);
                let ghost old_users = self.users@;
                let _found = self.users.replace(row.clone());
                proof {
                    let after = self.users@;
                    assert forall|a: u128, b: u128|
                        #[trigger] after.contains_key(a) && #[trigger] after.contains_key(b) && a != b
                            implies lower_of(after[a].email@) != lower_of(after[b].email@) by {
                        assert(old_users.contains_key(a) && old_users.contains_key(b));
                        if a == id {
                            if p.email is None {
                                assert(lower_of(old_users[a].email@) != lower_of(old_users[b].email@));
                            }
                        } else if b == id {
                            if p.email is None {
                                assert(lower_of(old_users[a].email@) != lower_of(old_users[b].email@));
                            }
                        }
                    }
                }
                Ok(row)
            },
        }
    }

    /// Deletes the user with id `id`. Fails with `NotFound` when there is none.
    pub fn delete_user(&mut self, id: u128) -> (r: Result<(), ApiError>)
        requires
            old(self).wf(),
        ensures
            final(self).wf(),
            r == deletion(old(self)@.users, id),
            final(self)@ == old(self)@.with_users(old(self)@.users.removed(id)),
            r is Err ==> final(self)@ == old(self)@,
    {
        let ghost before = self.users@;
        let r = if self.users.remove(id) {
            Ok(())
        } else {
            Err(ApiError::NotFound)
        };
        proof {
            let after = self.users@;
            assert forall|a: u128, b: u128|
                #[trigger] after.contains_key(a) && #[trigger] after.contains_key(b) && a != b
                    implies lower_of(after[a].email@) != lower_of(after[b].email@) by {
                assert(before.contains_key(a) && before.contains_key(b));
            }
        }
        r
    }
    /// Puts back a firm row read from the backing store, timestamps and all. Fails with
    /// `Conflict` when its id is taken.
    pub fn restore_firm(&mut self, row: Firm) -> (r: Result<(), ApiError>)
        requires
            old(self).wf(),
        ensures
            final(self).wf(),
            if old(self)@.firms.by_id.contains_key(row.id) {
                r == Err::<(), ApiError>(ApiError::Conflict) && final(self)@ == old(self)@
            } else {
                r is Ok && final(self)@ == old(self)@.with_firms(old(self)@.firms.added(row))
            },
    {
        if self.firms.insert(row) {
            Ok(())
        } else {
            Err(ApiError::Conflict)
        }
    }

    /// Puts back a client row read from the backing store, timestamps and all. Fails with
    /// `Conflict` when its id is taken.
    pub fn restore_client(&mut self, row: Client) -> (r: Result<(), ApiError>)
        requires
            old(self).wf(),
        ensures
            final(self).wf(),
            if old(self)@.clients.by_id.contains_key(row.id) {
                r == Err::<(), ApiError>(ApiError::Conflict) && final(self)@ == old(self)@
            } else {
                r is Ok && final(self)@ == old(self)@.with_clients(old(self)@.clients.added(row))
            },
    {
        if self.clients.insert(row) {
            Ok(())
        } else {
            Err(ApiError::Conflict)
        }
    }

    /// Puts back a collection row read from the backing store, timestamps and all. Fails with
    /// `Conflict` when its id is taken.
    pub fn restore_collection(&mut self, row: Collection) -> (r: Result<(), ApiError>)
        requires
            old(self).wf(),
        ensures
            final(self).wf(),
            if old(self)@.collections.by_id.contains_key(row.id) {
                r == Err::<(), ApiError>(ApiError::Conflict) && final(self)@ == old(self)@
            } else {
                r is Ok && final(self)@ == old(self)@.with_collections(old(self)@.collections.added(row))
            },
    {
        if self.collections.insert(row) {
            Ok(())
        } else {
            Err(ApiError::Conflict)
        }
    }

    /// Puts back a request row read from the backing store, timestamps and all. Fails with
    /// `Conflict` when its id is taken.
    pub fn restore_request(&mut self, row: Request) -> (r: Result<(), ApiError>)
        requires
            old(self).wf(),
        ensures
            final(self).wf(),
            if old(self)@.requests.by_id.contains_key(row.id) {
                r == Err::<(), ApiError>(ApiError::Conflict) && final(self)@ == old(self)@
            } else {
                r is Ok && final(self)@ == old(self)@.with_requests(old(self)@.requests.added(row))
            },
    {
        if self.requests.insert(row) {
            Ok(())
        } else {
            Err(ApiError::Conflict)
        }
    }

    /// Puts back a file row read from the backing store, timestamps and all. Fails with
    /// `Conflict` when its id is taken.
    pub fn restore_file(&mut self, row: File) -> (r: Result<(), ApiError>)
        requires
            old(self).wf(),
        ensures
            final(self).wf(),
            if old(self)@.files.by_id.contains_key(row.id) {
                r == Err::<(), ApiError>(ApiError::Conflict) && final(self)@ == old(self)@
            } else {
                r is Ok && final(self)@ == old(self)@.with_files(old(self)@.files.added(row))
            },
    {
        if self.files.insert(row) {
            Ok(())
        } else {
            Err(ApiError::Conflict)
        }
    }

    /// Puts back a user row read from the backing store. Fails with `Conflict` when its id
    /// is taken or another user holds its email up to case.
    pub fn restore_user(&mut self, row: User) -> (r: Result<(), ApiError>)
        requires
            old(self).wf(),
        ensures
            final(self).wf(),
            if old(self)@.users.by_id.contains_key(row.id) || email_in_use(
                old(self)@.users.by_id,
                row.email@,
                None,
            ) {
                r == Err::<(), ApiError>(ApiError::Conflict) && final(self)@ == old(self)@
            } else {
                r is Ok && final(self)@ == old(self)@.with_users(old(self)@.users.added(row))
            },
    {
        if self.users.contains(row.id) || self.email_taken(row.email.as_str(), None) {
            return Err(ApiError::Conflict);
        }
        let ghost before = self.users@;
        let ghost email = row.email@;
        let ghost id = row.id;
        let _added = self.users.insert(row);
        proof {
            let after = self.users@;
            assert forall|a: u128, b: u128|
                #[trigger] after.contains_key(a) && #[trigger] after.contains_key(b) && a != b
                    implies lower_of(after[a].email@) != lower_of(after[b].email@) by {
                if a == id {
                    assert(before.contains_key(b));
                } else if b == id {
                    assert(before.contains_key(a));
                } else {
                    assert(before.contains_key(a) && before.contains_key(b));
                }
            }
        }
        Ok(())
    }
}

} // verus!
