//! The secret store: identifiers mapped to secrets, each delivered at most once.
use vstd::prelude::*;
use crate::clock::now_secs;
use crate::ident::{is_identifier, new_identifier};
use crate::validate::SecretError;

verus! {

/// How many identifiers `put` draws before it gives up on finding a free one.
pub const ID_ATTEMPTS: usize = 8;

/// One stored message awaiting a single delivery. `expires_at` is in whole
/// seconds since the Unix epoch; the secret is unreadable once the clock is past it.
pub struct Secret {
    pub message: String,
    pub expires_at: u64,
}

/// What a secret holds, as contracts see it.
pub ghost struct SecretModel {
    pub message: Seq<char>,
    pub expires_at: u64,
}

impl View for Secret {
    type V = SecretModel;

    open spec fn view(&self) -> SecretModel {
        SecretModel { message: self.message@, expires_at: self.expires_at }
    }
}

/// A secret has expired at `now` when `now` is past its expiry instant.
pub open spec fn expired(s: SecretModel, now: u64) -> bool {
    now > s.expires_at
}

/// The expiry instant of a secret stored at `now` with time to live `ttl`;
/// it saturates at the largest instant.
pub open spec fn expiry(now: u64, ttl: u64) -> u64 {
    if now + ttl > u64::MAX {
        u64::MAX
    } else {
        (now + ttl) as u64
    }
}

/// What a take of `id` at `now` hands out from a store holding `m`: the message
/// of a live secret, and nothing for an absent or expired one.
pub open spec fn delivery(m: Map<Seq<char>, SecretModel>, id: Seq<char>, now: u64) -> Option<Seq<char>> {
    if m.contains_key(id) && !expired(m[id], now) {
        Some(m[id].message)
    } else {
        None
    }
}

/// The secrets, keyed by identifier; keys are unique.
pub struct SecretStore {
    entries: Vec<(String, Secret)>,
}

/// The map that a list of entries stands for.
pub open spec fn map_of(s: Seq<(String, Secret)>) -> Map<Seq<char>, SecretModel>
    decreases s.len(),
{
    if s.len() == 0 {
        Map::empty()
    } else {
        map_of(s.drop_last()).insert(s.last().0@, s.last().1@)
    }
}

/// No two entries share an identifier.
pub open spec fn keys_unique(s: Seq<(String, Secret)>) -> bool {
    forall|i: int, j: int| 0 <= i < j < s.len() ==> s[i].0@ != s[j].0@
}

proof fn lemma_map_of_keys(s: Seq<(String, Secret)>, k: Seq<char>)
    ensures
        map_of(s).contains_key(k) <==> exists|i: int| 0 <= i < s.len() && s[i].0@ == k,
    decreases s.len(),
{
    if s.len() > 0 {
        let d = s.drop_last();
        lemma_map_of_keys(d, k);
        if map_of(d).contains_key(k) {
            let i = choose|i: int| 0 <= i < d.len() && d[i].0@ == k;
            assert(s[i] == d[i]);
        }
        if exists|i: int| 0 <= i < s.len() && s[i].0@ == k {
            let i = choose|i: int| 0 <= i < s.len() && s[i].0@ == k;
            if i < d.len() {
                assert(d[i] == s[i]);
            }
        }
    }
}

proof fn lemma_map_of_value(s: Seq<(String, Secret)>, i: int)
    requires
        keys_unique(s),
        0 <= i < s.len(),
    ensures
        map_of(s).contains_key(s[i].0@),
        map_of(s)[s[i].0@] == s[i].1@,
    decreases s.len(),
{
    let d = s.drop_last();
    if i < s.len() - 1 {
        assert(d[i] == s[i]);
        assert(keys_unique(d));
        lemma_map_of_value(d, i);
    }
}

proof fn lemma_map_of_remove(s: Seq<(String, Secret)>, i: int)
    requires
        keys_unique(s),
        0 <= i < s.len(),
    ensures
        keys_unique(s.remove(i)),
        map_of(s.remove(i)) == map_of(s).remove(s[i].0@),
    decreases s.len(),
{
    let k = s[i].0@;
    let d = s.drop_last();
    let r = s.remove(i);
    assert(keys_unique(r)) by {
        assert forall|a: int, b: int| 0 <= a < b < r.len() implies r[a].0@ != r[b].0@ by {
            let a2 = if a < i { a } else { a + 1 };
            let b2 = if b < i { b } else { b + 1 };
            assert(r[a] == s[a2] && r[b] == s[b2]);
        }
    }
    if i == s.len() - 1 {
        assert(r =~= d);
        if map_of(d).contains_key(k) {
            lemma_map_of_keys(d, k);
            let j = choose|j: int| 0 <= j < d.len() && d[j].0@ == k;
            assert(d[j] == s[j]);
        }
        assert(map_of(r) =~= map_of(s).remove(k));
    } else {
        assert(keys_unique(d));
        lemma_map_of_remove(d, i);
        assert(d.remove(i) =~= r.drop_last());
        assert(r.last() == s.last());
        assert(s.last().0@ != k);
        assert(map_of(r) =~= map_of(s).remove(k));
    }
}

proof fn lemma_map_of_len(s: Seq<(String, Secret)>)
    requires
        keys_unique(s),
    ensures
        map_of(s).dom().finite(),
        map_of(s).len() == s.len(),
    decreases s.len(),
{
    if s.len() > 0 {
        let d = s.drop_last();
        assert(keys_unique(d));
        lemma_map_of_len(d);
        lemma_map_of_keys(d, s.last().0@);
        if map_of(d).contains_key(s.last().0@) {
            let j = choose|j: int| 0 <= j < d.len() && d[j].0@ == s.last().0@;
            assert(d[j] == s[j]);
        }
    }
}

impl View for SecretStore {
    type V = Map<Seq<char>, SecretModel>;

    closed spec fn view(&self) -> Map<Seq<char>, SecretModel> {
        map_of(self.entries@)
    }
}

impl SecretStore {
    /// The store's invariant: identifiers are unique.
    pub closed spec fn wf(&self) -> bool {
        keys_unique(self.entries@)
    }

    /// An empty store.
    pub fn new() -> (r: Self)
        ensures
            r.wf(),
            r@ == Map::<Seq<char>, SecretModel>::empty(),
    {
        SecretStore { entries: Vec::new() }
    }

    /// Number of secrets held, expired ones included.
    pub fn len(&self) -> (r: usize)
        requires
            self.wf(),
        ensures
            r == self@.len(),
    {
        proof {
            lemma_map_of_len(self.entries@);
        }
        self.entries.len()
    }

    /// Position of the entry for `id`, if there is one.
    fn find(&self, id: &String) -> (r: Option<usize>)
        requires
            self.wf(),
        ensures
            match r {
                Some(i) => i < self.entries@.len() && self.entries@[i as int].0@ == id@,
                None => !self@.contains_key(id@),
            },
    {
        let mut i: usize = 0;
        while i < self.entries.len()
            invariant
                i <= self.entries@.len(),
                forall|j: int| 0 <= j < i ==> self.entries@[j].0@ != id@,
            decreases self.entries@.len() - i,
        {
            if self.entries[i].0 == *id {
                return Some(i);
            }
            i = i + 1;
        }
        proof {
            lemma_map_of_keys(self.entries@, id@);
        }
        None
    }

    /// Whether a secret, expired or not, is held under `id`.
    pub fn contains(&self, id: &String) -> (r: bool)
        requires
            self.wf(),
        ensures
            r == self@.contains_key(id@),
    {
        match self.find(id) {
            Some(_) => {
                proof {
                    lemma_map_of_keys(self.entries@, id@);
                }
                true
            },
            None => false,
        }
    }

    /// Stores `secret` under `id` unless `id` is taken, in which case nothing changes.
    pub fn insert_new(&mut self, id: String, secret: Secret) -> (r: bool)
        requires
            old(self).wf(),
        ensures
            final(self).wf(),
            r == !old(self)@.contains_key(id@),
            r ==> final(self)@ == old(self)@.insert(id@, secret@),
            !r ==> final(self)@ == old(self)@,
    {
        match self.find(&id) {
            Some(_) => {
                proof {
                    lemma_map_of_keys(self.entries@, id@);
                }
                false
            },
            None => {
                proof {
                    lemma_map_of_keys(self.entries@, id@);
                }
                self.entries.push((id, secret));
                proof {
                    assert(self.entries@.drop_last() =~= old(self).entries@);
                }
                true
            },
        }
    }

    /// Removes the secret under `id`, whatever its state, and hands out its
    /// message if it had not expired at `now`. An absent, already taken or
    /// expired secret all give `NotFound`.
    pub fn take_at(&mut self, id: &String, now: u64) -> (r: Result<String, SecretError>)
        requires
            old(self).wf(),
        ensures
            final(self).wf(),
            final(self)@ == old(self)@.remove(id@),
            match r {
                Ok(message) => delivery(old(self)@, id@, now) == Some(message@),
                Err(e) => e == SecretError::NotFound && delivery(old(self)@, id@, now) is None,
            },
    {
        match self.find(id) {
            None => {
                proof {
                    assert(self@ =~= old(self)@.remove(id@));
                }
                Err(SecretError::NotFound)
            },
            Some(i) => {
                proof {
                    lemma_map_of_value(self.entries@, i as int);
                    lemma_map_of_remove(self.entries@, i as int);
                }
                let (_, secret) = self.entries.remove(i);
                if now > secret.expires_at {
                    Err(SecretError::NotFound)
                } else {
                    Ok(secret.message)
                }
            },
        }
    }

    /// `take_at` with the current time. A secret that expires at the last
    /// instant is handed out whatever the clock reads.
    pub fn take(&mut self, id: &String) -> (r: Result<String, SecretError>)
        requires
            old(self).wf(),
        ensures
            final(self).wf(),
            final(self)@ == old(self)@.remove(id@),
            match r {
                Ok(message) => old(self)@.contains_key(id@) && old(self)@[id@].message == message@,
                Err(e) => e == SecretError::NotFound,
            },
            old(self)@.contains_key(id@) && old(self)@[id@].expires_at == u64::MAX ==> r is Ok,
    {
        let now = now_secs();
        self.take_at(id, now)
    }

    /// Stores `message` under `id` at `now` with time to live `ttl` seconds,
    /// unless `id` is in use, in which case it fails with `IdCollision` and
    /// changes nothing.
    pub fn put_with_id(&mut self, id: String, message: String, ttl: u64, now: u64) -> (r: Result<
        String,
        SecretError,
    >)
        requires
            old(self).wf(),
        ensures
            final(self).wf(),
            !old(self)@.contains_key(id@) ==> r == Ok::<String, SecretError>(id) && final(self)@
                == old(self)@.insert(
                id@,
                SecretModel { message: message@, expires_at: expiry(now, ttl) },
            ),
            old(self)@.contains_key(id@) ==> r == Err::<String, SecretError>(SecretError::IdCollision)
                && final(self)@ == old(self)@,
    {
        if self.contains(&id) {
            return Err(SecretError::IdCollision);
        }
        let stored = id.clone();
        self.insert_new(id, Secret { message, expires_at: now.saturating_add(ttl) });
        Ok(stored)
    }

    /// Stores `message` at `now` with time to live `ttl` seconds under a freshly
    /// drawn identifier, which it returns. Drawn identifiers that are already in
    /// use are drawn again; after `ID_ATTEMPTS` draws it gives up with
    /// `IdCollision` and changes nothing. On an empty store the first draw is
    /// always free.
    pub fn put_at(&mut self, message: String, ttl: u64, now: u64) -> (r: Result<String, SecretError>)
        requires
            old(self).wf(),
        ensures
            final(self).wf(),
            match r {
                Ok(id) => {
                    &&& is_identifier(id@)
                    &&& !old(self)@.contains_key(id@)
                    &&& final(self)@ == old(self)@.insert(
                        id@,
                        SecretModel { message: message@, expires_at: expiry(now, ttl) },
                    )
                },
                Err(e) => e == SecretError::IdCollision && final(self)@ == old(self)@,
            },
            old(self)@.len() == 0 ==> r is Ok,
    {
        proof {
            lemma_map_of_len(self.entries@);
            if self@.len() == 0 {
                self@.dom().lemma_len0_is_empty();
            }
        }
        let mut attempt: usize = 0;
        while attempt < ID_ATTEMPTS
            invariant
                self.wf(),
                self@ == old(self)@,
                old(self)@.len() == 0 ==> attempt == 0 && old(self)@.dom() == Set::<Seq<char>>::empty(),
            decreases ID_ATTEMPTS - attempt,
        {
            let id = new_identifier();
            if !self.contains(&id) {
                return self.put_with_id(id, message, ttl, now);
            }
            proof {
                if old(self)@.len() == 0 {
                    assert(old(self)@.dom().contains(id@));
                }
            }
            attempt = attempt + 1;
        }
        Err(SecretError::IdCollision)
    }

    /// `put_at` with the current time.
    pub fn put(&mut self, message: String, ttl: u64) -> (r: Result<String, SecretError>)
        requires
            old(self).wf(),
        ensures
            final(self).wf(),
            match r {
                Ok(id) => {
                    &&& is_identifier(id@)
                    &&& !old(self)@.contains_key(id@)
                    &&& final(self)@ == old(self)@.insert(id@, final(self)@[id@])
                    &&& final(self)@[id@].message == message@
                    &&& exists|now: u64| final(self)@[id@].expires_at == #[trigger] expiry(now, ttl)
                },
                Err(e) => e == SecretError::IdCollision && final(self)@ == old(self)@,
            },
            old(self)@.len() == 0 ==> r is Ok,
    {
        let now = now_secs();
        let r = self.put_at(message, ttl, now);
        proof {
            if r is Ok {
                let k = r->Ok_0@;
                assert(final(self)@[k].expires_at == expiry(now, ttl));
            }
        }
        r
    }
}

} // verus!
