use vstd::prelude::*;
use crate::model::{
    UpdateFirmPayload, Firm, UpdateUserPayload, User, UpdateClientPayload, Client, UpdateCollectionPayload, Collection, UpdateRequestPayload, Request, UpdateFilePayload, File,
};

verus! {

/// The value of a partial-update field: the new value if present, else the old one.
pub open spec fn pick<T>(new: Option<T>, old: T) -> T {
    match new {
        Some(v) => v,
        None => old,
    }
}

/// Like `pick`, for a field that is itself optional: a present value is stored as `Some`.
pub open spec fn pick_some<T>(new: Option<T>, old: Option<T>) -> Option<T> {
    match new {
        Some(v) => Some(v),
        None => old,
    }
}

impl UpdateFirmPayload {
    /// The row after this update is applied to `old` at time `now`.
    pub open spec fn merged(self, old: Firm, now: i64) -> Firm {
        Firm {
            name: pick(self.name, old.name),
            updated_at: now,
            ..old
        }
    }

    /// Applies the update to `old`: present fields overwrite, absent fields keep their
    /// value, and `updated_at` becomes `now`.
    pub fn apply(self, old: Firm, now: i64) -> (r: Firm)
        ensures
            r == self.merged(old, now),
    {
        let mut row = old;
        if let Some(v) = self.name {
            row.name = v;
        }
        row.updated_at = now;
        row
    }
}

impl UpdateUserPayload {
    /// The row after this update is applied to `old` at time `now`.
    pub open spec fn merged(self, old: User, now: i64) -> User {
        User {
            first_name: pick(self.first_name, old.first_name),
            last_name: pick(self.last_name, old.last_name),
            email: pick(self.email, old.email),
            updated_at: now,
            ..old
        }
    }

    /// Applies the update to `old`: present fields overwrite, absent fields keep their
    /// value, and `updated_at` becomes `now`.
    pub fn apply(self, old: User, now: i64) -> (r: User)
        ensures
            r == self.merged(old, now),
    {
        let mut row = old;
        if let Some(v) = self.first_name {
            row.first_name = v;
        }
        if let Some(v) = self.last_name {
            row.last_name = v;
        }
        if let Some(v) = self.email {
            row.email = v;
        }
        row.updated_at = now;
        row
    }
}

impl UpdateClientPayload {
    /// The row after this update is applied to `old` at time `now`.
    pub open spec fn merged(self, old: Client, now: i64) -> Client {
        Client {
            company_name: pick(self.company_name, old.company_name),
            email: pick(self.email, old.email),
            updated_at: now,
            ..old
        }
    }

    /// Applies the update to `old`: present fields overwrite, absent fields keep their
    /// value, and `updated_at` becomes `now`.
    pub fn apply(self, old: Client, now: i64) -> (r: Client)
        ensures
            r == self.merged(old, now),
    {
        let mut row = old;
        if let Some(v) = self.company_name {
            row.company_name = v;
        }
        if let Some(v) = self.email {
            row.email = v;
        }
        row.updated_at = now;
        row
    }
}

impl UpdateCollectionPayload {
    /// The row after this update is applied to `old` at time `now`.
    pub open spec fn merged(self, old: Collection, now: i64) -> Collection {
        Collection {
            title: pick(self.title, old.title),
            status: pick(self.status, old.status),
            access_token: pick(self.access_token, old.access_token),
            expires_at: pick(self.expires_at, old.expires_at),
            updated_at: now,
            ..old
        }
    }

    /// Applies the update to `old`: present fields overwrite, absent fields keep their
    /// value, and `updated_at` becomes `now`.
    pub fn apply(self, old: Collection, now: i64) -> (r: Collection)
        ensures
            r == self.merged(old, now),
    {
        let mut row = old;
        if let Some(v) = self.title {
            row.title = v;
        }
        if let Some(v) = self.status {
            row.status = v;
        }
        if let Some(v) = self.access_token {
            row.access_token = v;
        }
        if let Some(v) = self.expires_at {
            row.expires_at = v;
        }
        row.updated_at = now;
        row
    }
}

impl UpdateRequestPayload {
    /// The row after this update is applied to `old` at time `now`.
    pub open spec fn merged(self, old: Request, now: i64) -> Request {
        Request {
            title: pick(self.title, old.title),
            description: pick_some(self.description, old.description),
            status: pick(self.status, old.status),
            updated_at: now,
            ..old
        }
    }

    /// Applies the update to `old`: present fields overwrite, absent fields keep their
    /// value, and `updated_at` becomes `now`.
    pub fn apply(self, old: Request, now: i64) -> (r: Request)
        ensures
            r == self.merged(old, now),
    {
        let mut row = old;
        if let Some(v) = self.title {
            row.title = v;
        }
        if let Some(v) = self.description {
            row.description = Some(v);
        }
        if let Some(v) = self.status {
            row.status = v;
        }
        row.updated_at = now;
        row
    }
}

impl UpdateFilePayload {
    /// The row after this update is applied to `old` at time `now`.
    pub open spec fn merged(self, old: File, now: i64) -> File {
        File {
            request_id: pick(self.request_id, old.request_id),
            storage_key: pick(self.storage_key, old.storage_key),
            file_size: pick(self.file_size, old.file_size),
            mime_type: pick(self.mime_type, old.mime_type),
            updated_at: now,
            ..old
        }
    }

    /// Applies the update to `old`: present fields overwrite, absent fields keep their
    /// value, and `updated_at` becomes `now`.
    pub fn apply(self, old: File, now: i64) -> (r: File)
        ensures
            r == self.merged(old, now),
    {
        let mut row = old;
        if let Some(v) = self.request_id {
            row.request_id = v;
        }
        if let Some(v) = self.storage_key {
            row.storage_key = v;
        }
        if let Some(v) = self.file_size {
            row.file_size = v;
        }
        if let Some(v) = self.mime_type {
            row.mime_type = v;
        }
        row.updated_at = now;
        row
    }
}

/// A partial update keeps every field of a collection that the payload leaves out;
/// in particular, updating only the title keeps the status, access token and expiry.
pub proof fn lemma_collection_update_keeps_absent_fields(
    p: UpdateCollectionPayload,
    old: Collection,
    now: i64,
)
    ensures
        p.title is None ==> p.merged(old, now).title == old.title,
        p.status is None ==> p.merged(old, now).status == old.status,
        p.access_token is None ==> p.merged(old, now).access_token == old.access_token,
        p.expires_at is None ==> p.merged(old, now).expires_at == old.expires_at,
        p.title matches Some(t) ==> p.merged(old, now).title == t,
        p.merged(old, now).id == old.id && p.merged(old, now).client_id == old.client_id
            && p.merged(old, now).user_id == old.user_id && p.merged(old, now).created_at
            == old.created_at,
{
}

} // verus!
