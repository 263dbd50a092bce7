//! Creating and fetching secrets: on a store owned by the caller, and on the
//! store shared by every request handler behind one exclusive lock.
use vstd::prelude::*;
use vstd::rwlock::{RwLock, RwLockPredicate};
use crate::clock::now_secs;
use crate::ident::{is_identifier, new_identifier};
use crate::store::{delivery, expiry, Secret, SecretModel, SecretStore, ID_ATTEMPTS};
use crate::validate::{validation, CreateSecretPayload, SecretError};

verus! {

/// Validates the request and, if it passes, stores its message at `now`
/// under a freshly drawn identifier, which it returns. A rejected request
/// leaves the store untouched; on an empty store a valid request always succeeds.
pub fn create_secret_at(payload: &CreateSecretPayload, store: &mut SecretStore, now: u64) -> (r:
    Result<String, SecretError>)
    requires
        old(store).wf(),
    ensures
        final(store).wf(),
        match validation(payload.message@, payload.expires_in_secs) {
            Err(e) => r == Err::<String, SecretError>(e) && final(store)@ == old(store)@,
            Ok(ttl) => {
                &&& match r {
                    Ok(id) => {
                        &&& is_identifier(id@)
                        &&& !old(store)@.contains_key(id@)
                        &&& final(store)@ == old(store)@.insert(
                            id@,
                            SecretModel { message: payload.message@, expires_at: expiry(now, ttl) },
                        )
                    },
                    Err(e) => e == SecretError::IdCollision && final(store)@ == old(store)@,
                }
                &&& old(store)@.len() == 0 ==> r is Ok
            },
        },
{
    match payload.validate() {
        Err(e) => Err(e),
        Ok(ttl) => store.put_at(payload.message.clone(), ttl, now),
    }
}

/// `create_secret_at` with the current time.
pub fn create_secret(payload: &CreateSecretPayload, store: &mut SecretStore) -> (r: Result<
    String,
    SecretError,
>)
    requires
        old(store).wf(),
    ensures
        final(store).wf(),
        match validation(payload.message@, payload.expires_in_secs) {
            Err(e) => r == Err::<String, SecretError>(e) && final(store)@ == old(store)@,
            Ok(ttl) => {
                &&& match r {
                    Ok(id) => {
                        &&& is_identifier(id@)
                        &&& !old(store)@.contains_key(id@)
                        &&& final(store)@ == old(store)@.insert(id@, final(store)@[id@])
                        &&& final(store)@[id@].message == payload.message@
                        &&& exists|now: u64| final(store)@[id@].expires_at == #[trigger] expiry(now, ttl)
                    },
                    Err(e) => e == SecretError::IdCollision && final(store)@ == old(store)@,
                }
                &&& old(store)@.len() == 0 ==> r is Ok
            },
        },
{
    let now = now_secs();
    let r = create_secret_at(payload, store, now);
    proof {
        if r is Ok {
            let k = r->Ok_0@;
            assert(store@[k].expires_at == expiry(now, validation(payload.message@, payload.expires_in_secs)->Ok_0));
        }
    }
    r
}

/// Takes the secret under `id` at `now`: it is removed in any case, and its
/// message is returned only if it had not expired. Absent, already taken and
/// expired secrets all give `NotFound`.
pub fn get_secret_at(id: &String, store: &mut SecretStore, now: u64) -> (r: Result<String, SecretError>)
    requires
        old(store).wf(),
    ensures
        final(store).wf(),
        final(store)@ == old(store)@.remove(id@),
        match r {
            Ok(message) => delivery(old(store)@, id@, now) == Some(message@),
            Err(e) => e == SecretError::NotFound && delivery(old(store)@, id@, now) is None,
        },
{
    store.take_at(id, now)
}

/// `get_secret_at` with the current time.
pub fn get_secret(id: &String, store: &mut SecretStore) -> (r: Result<String, SecretError>)
    requires
        old(store).wf(),
    ensures
        final(store).wf(),
        final(store)@ == old(store)@.remove(id@),
        match r {
            Ok(message) => old(store)@.contains_key(id@) && old(store)@[id@].message == message@,
            Err(e) => e == SecretError::NotFound,
        },
        old(store)@.contains_key(id@) && old(store)@[id@].expires_at == u64::MAX ==> r is Ok,
{
    store.take(id)
}

/// What the lock keeps true of the store it guards.
pub struct StoreInvariant {}

impl RwLockPredicate<SecretStore> for StoreInvariant {
    open spec fn inv(self, store: SecretStore) -> bool {
        store.wf()
    }
}

/// The store, shared across concurrent handlers. Every operation holds the
/// lock exclusively for one step on the store (`SecretStore::put_with_id`,
/// `SecretStore::take_at`, ...), so two takes of one identifier can never both
/// succeed. Identifiers are drawn and the clock is read before the lock is
/// taken, so nothing outside the store runs while it is held.
pub struct AppState {
    secrets: RwLock<SecretStore, StoreInvariant>,
}

impl AppState {
    /// A state holding no secrets.
    pub fn new() -> (r: Self) {
        AppState { secrets: RwLock::new(SecretStore::new(), Ghost(StoreInvariant {})) }
    }

    /// Validates the request and, if it passes, stores its message under a
    /// freshly drawn identifier, which it returns. A drawn identifier found in
    /// use is drawn again, up to `ID_ATTEMPTS` times. Validation errors are
    /// returned before the store is touched.
    pub fn create_secret(&self, payload: &CreateSecretPayload) -> (r: Result<String, SecretError>)
        ensures
            match validation(payload.message@, payload.expires_in_secs) {
                Err(e) => r == Err::<String, SecretError>(e),
                Ok(_) => match r {
                    Ok(id) => is_identifier(id@),
                    Err(e) => e == SecretError::IdCollision,
                },
            },
    {
        let ttl = match payload.validate() {
            Ok(ttl) => ttl,
            Err(e) => return Err(e),
        };
        let now = now_secs();
        let mut attempt: usize = 0;
        while attempt < ID_ATTEMPTS
            invariant
                validation(payload.message@, payload.expires_in_secs) == Ok::<u64, SecretError>(ttl),
            decreases ID_ATTEMPTS - attempt,
        {
            let id = new_identifier();
            let (mut store, handle) = self.secrets.acquire_write();
            let r = store.put_with_id(id, payload.message.clone(), ttl, now);
            handle.release_write(store);
            if r.is_ok() {
                return r;
            }
            attempt = attempt + 1;
        }
        Err(SecretError::IdCollision)
    }

    /// Takes the secret under `id` as `get_secret_at` does, at the current
    /// time, under the lock.
    pub fn get_secret(&self, id: &String) -> (r: Result<String, SecretError>)
        ensures
            r is Err ==> r == Err::<String, SecretError>(SecretError::NotFound),
    {
        let now = now_secs();
        let (mut store, handle) = self.secrets.acquire_write();
        let r = get_secret_at(id, &mut store, now);
        handle.release_write(store);
        r
    }

    /// Stores `secret` under `id` unless `id` is in use; returns whether it did.
    pub fn insert_secret(&self, id: String, secret: Secret) -> (r: bool) {
        let (mut store, handle) = self.secrets.acquire_write();
        let r = store.insert_new(id, secret);
        handle.release_write(store);
        r
    }

    /// Whether a secret, expired or not, is held under `id`.
    pub fn contains_secret(&self, id: &String) -> (r: bool) {
        let (store, handle) = self.secrets.acquire_write();
        let r = store.contains(id);
        handle.release_write(store);
        r
    }
}

} // verus!
