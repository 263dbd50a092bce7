//! What holds of the store across several operations, stated over the model
//! that the store's contracts use: `take_at` and `get_secret_at` turn `m` into
//! `m.remove(id)` and hand out `delivery(m, id, now)`; `put_at` and
//! `create_secret_at` turn `m` into `m.insert(id, s)` for an `id` not in `m`,
//! with `s.expires_at == expiry(now, ttl)`.
use vstd::prelude::*;
use crate::store::{delivery, expired, expiry, SecretModel};

verus! {

/// What successive takes of `id`, at the instants `times`, hand out, starting
/// from a store holding `m`.
pub open spec fn take_run(m: Map<Seq<char>, SecretModel>, id: Seq<char>, times: Seq<u64>) -> Seq<
    Option<Seq<char>>,
>
    decreases times.len(),
{
    if times.len() == 0 {
        Seq::empty()
    } else {
        seq![delivery(m, id, times[0])] + take_run(m.remove(id), id, times.drop_first())
    }
}

/// Takes of an identifier that is not stored never hand anything out, and
/// leave the store as it was.
pub proof fn law_absent_stays_absent(m: Map<Seq<char>, SecretModel>, id: Seq<char>, times: Seq<u64>)
    requires
        !m.contains_key(id),
    ensures
        m.remove(id) == m,
        take_run(m, id, times).len() == times.len(),
        forall|i: int| 0 <= i < times.len() ==> #[trigger] take_run(m, id, times)[i] is None,
    decreases times.len(),
{
    assert(m.remove(id) =~= m);
    if times.len() > 0 {
        law_absent_stays_absent(m, id, times.drop_first());
        let rest = take_run(m, id, times.drop_first());
        assert forall|i: int| 0 <= i < times.len() implies #[trigger] take_run(m, id, times)[i] is None by {
            if i > 0 {
                assert(take_run(m, id, times)[i] == rest[i - 1]);
            }
        }
    }
}

/// However many takes of one identifier are made, and in whatever order the
/// callers reach the store, only the first can hand out the message: every
/// later one gets nothing. The first succeeds exactly when the secret is
/// stored and not expired.
pub proof fn law_single_delivery(m: Map<Seq<char>, SecretModel>, id: Seq<char>, times: Seq<u64>)
    ensures
        take_run(m, id, times).len() == times.len(),
        times.len() > 0 ==> take_run(m, id, times)[0] == delivery(m, id, times[0]),
        forall|i: int| 1 <= i < times.len() ==> #[trigger] take_run(m, id, times)[i] is None,
{
    if times.len() > 0 {
        let after = m.remove(id);
        let rest = times.drop_first();
        law_absent_stays_absent(after, id, rest);
        assert forall|i: int| 1 <= i < times.len() implies #[trigger] take_run(m, id, times)[i] is None by {
            assert(take_run(m, id, times)[i] == take_run(after, id, rest)[i - 1]);
        }
    }
}

/// A take of an expired secret hands out nothing, even as the first take, and
/// removes the secret.
pub proof fn law_expiry_precedence(m: Map<Seq<char>, SecretModel>, id: Seq<char>, now: u64)
    requires
        m.contains_key(id),
        expired(m[id], now),
    ensures
        delivery(m, id, now) is None,
        !m.remove(id).contains_key(id),
{
}

/// A message put at `now` and taken at once comes back unchanged; a second
/// take, at any instant, gets nothing.
pub proof fn law_round_trip(
    m: Map<Seq<char>, SecretModel>,
    id: Seq<char>,
    message: Seq<char>,
    ttl: u64,
    now: u64,
    later: u64,
)
    ensures
        ({
            let stored = m.insert(id, SecretModel { message, expires_at: expiry(now, ttl) });
            &&& delivery(stored, id, now) == Some(message)
            &&& delivery(stored.remove(id), id, later) is None
        }),
{
}

/// Two secrets put one after the other get distinct identifiers, even with the
/// same message, and taking either leaves what the other hands out unchanged.
pub proof fn law_isolation(
    m: Map<Seq<char>, SecretModel>,
    id1: Seq<char>,
    s1: SecretModel,
    id2: Seq<char>,
    s2: SecretModel,
    t: u64,
)
    requires
        !m.contains_key(id1),
        !m.insert(id1, s1).contains_key(id2),
    ensures
        id1 != id2,
        ({
            let both = m.insert(id1, s1).insert(id2, s2);
            &&& delivery(both.remove(id1), id2, t) == delivery(both, id2, t)
            &&& delivery(both.remove(id2), id1, t) == delivery(both, id1, t)
            &&& delivery(both, id1, t) == delivery(m.insert(id1, s1), id1, t)
        }),
{
}

} // verus!
