//! Replay protection: each nonce of a client is accepted once in a while.
use vstd::prelude::*;

use crate::signing::within_skew;
use crate::textmap::{
    entries_map, has_key, keys_sorted, lemma_entries_keys, lemma_text_lt_irreflexive, TextMap,
};

verus! {

/// The nonces that were accepted, each with the time of its acceptance.
#[derive(Debug)]
pub struct NonceDb {
    nonces: TextMap<i64>,
}

impl View for NonceDb {
    type V = Map<Seq<char>, i64>;

    closed spec fn view(&self) -> Map<Seq<char>, i64> {
        self.nonces@
    }
}

impl NonceDb {
    /// No nonces.
    pub fn new() -> (r: NonceDb)
        ensures
            r@ == Map::<Seq<char>, i64>::empty(),
    {
        NonceDb { nonces: TextMap::new() }
    }

    /// The same nonces, and one more.
    pub fn with(self, key: String, accepted_at: i64) -> (r: NonceDb)
        ensures
            r@ == self@.insert(key@, accepted_at),
    {
        let mut nonces = self.nonces;
        nonces.insert(key, accepted_at);
        NonceDb { nonces }
    }

    /// The nonces with their times, in key order.
    pub fn entries(&self) -> (r: Vec<(String, i64)>)
        ensures
            entries_map(r@) == self@,
            keys_sorted(r@),
    {
        let entries = self.nonces.entries();
        let mut out: Vec<(String, i64)> = Vec::new();
        for i in 0..entries.len()
            invariant
                out@ == entries@.take(i as int),
        {
            out.push((entries[i].0.clone(), entries[i].1));
        }
        assert(out@ =~= entries@);
        out
    }

    /// The nonces that were accepted at `cutoff` or later.
    fn kept(&self, cutoff: i128) -> (r: NonceDb)
        ensures
            r@ == kept_since(self@, cutoff as int),
    {
        let entries = self.nonces.entries();
        let ghost all = entries@;
        let mut out: TextMap<i64> = TextMap::new();
        assert(out@ =~= kept_since(entries_map(all.take(0)), cutoff as int));
        for i in 0..entries.len()
            invariant
                all == entries@,
                keys_sorted(all),
                out.sorted(),
                out@ == kept_since(entries_map(all.take(i as int)), cutoff as int),
        {
            let ghost before = all.take(i as int);
            let ghost key = all[i as int].0@;
            proof {
                lemma_entries_keys(before, key);
                if has_key(before, key) {
                    let j = choose|j: int| 0 <= j < before.len() && (#[trigger] before[j]).0@
                        == key;
                    assert(all[j].0@ == key);
                    lemma_text_lt_irreflexive(key);
                }
                assert(all.take(i + 1).drop_last() =~= before);
            }
            let accepted_at = entries[i].1;
            if accepted_at as i128 >= cutoff {
                out.insert(entries[i].0.clone(), accepted_at);
            }
            assert(out@ =~= kept_since(entries_map(all.take(i + 1)), cutoff as int));
        }
        assert(all.take(all.len() as int) =~= all);
        NonceDb { nonces: out }
    }
}

/// The nonces that were accepted at `cutoff` or later.
pub open spec fn kept_since(nonces: Map<Seq<char>, i64>, cutoff: int) -> Map<Seq<char>, i64> {
    nonces.restrict(
        Set::new(|k: Seq<char>| nonces.contains_key(k) && nonces[k] >= cutoff),
    )
}

/// Under which key a client's nonce is remembered.
pub open spec fn nonce_key(client_id: Seq<char>, nonce: Seq<char>) -> Seq<char> {
    client_id + ":"@ + nonce
}

/// Whether a nonce is still remembered.
pub open spec fn nonce_taken(
    nonces: Map<Seq<char>, i64>,
    key: Seq<char>,
    now: int,
    ttl_seconds: int,
) -> bool {
    kept_since(nonces, now - ttl_seconds).contains_key(key)
}

/// The nonces after one was presented: a taken one changes nothing; a fresh one
/// is added, and those whose time is over are dropped.
pub open spec fn nonces_after(
    nonces: Map<Seq<char>, i64>,
    key: Seq<char>,
    now: i64,
    ttl_seconds: int,
) -> Map<Seq<char>, i64> {
    if nonce_taken(nonces, key, now as int, ttl_seconds) {
        nonces
    } else {
        kept_since(nonces, now - ttl_seconds).insert(key, now)
    }
}

/// Why a nonce is turned down.
#[derive(Debug)]
pub enum NonceError {
    Replay,
}

impl NonceError {
    /// The message that is shown.
    pub fn message(&self) -> (r: String)
        ensures
            r@ == "replay detected for request nonce"@,
    {
        "replay detected for request nonce".to_string()
    }
}

/// Where nonces are kept, and for how long.
#[derive(Debug)]
pub struct NonceStore {
    pub path: String,
    pub ttl_seconds: i64,
}

impl NonceStore {
    pub fn new(path: String, ttl_seconds: i64) -> (r: NonceStore)
        ensures
            r.path == path,
            r.ttl_seconds == ttl_seconds,
    {
        NonceStore { path, ttl_seconds }
    }

    /// Accepts a client's nonce that is not remembered, and remembers it; turns
    /// one down that is.
    pub fn check_and_store(
        &self,
        db: &mut NonceDb,
        client_id: &str,
        nonce: &str,
        now: i64,
    ) -> (r: Result<(), NonceError>)
        ensures
            r is Err == nonce_taken(
                old(db)@,
                nonce_key(client_id@, nonce@),
                now as int,
                self.ttl_seconds as int,
            ),
            final(db)@ == nonces_after(
                old(db)@,
                nonce_key(client_id@, nonce@),
                now,
                self.ttl_seconds as int,
            ),
    {
        let cutoff: i128 = now as i128 - self.ttl_seconds as i128;
        let kept = db.kept(cutoff);
        let mut key = client_id.to_string();
        key.append(":");
        key.append(nonce);
        if kept.nonces.get(key.as_str()).is_some() {
            return Err(NonceError::Replay);
        }
        *db = kept.with(key, now);
        Ok(())
    }
}

/// The nonces after several were presented, one after another, each with the
/// time of its presentation.
pub open spec fn nonces_after_all(
    nonces: Map<Seq<char>, i64>,
    presented: Seq<(Seq<char>, i64)>,
    ttl_seconds: int,
) -> Map<Seq<char>, i64>
    decreases presented.len(),
{
    if presented.len() == 0 {
        nonces
    } else {
        let before = nonces_after_all(nonces, presented.drop_last(), ttl_seconds);
        nonces_after(before, presented.last().0, presented.last().1, ttl_seconds)
    }
}

/// A nonce that was accepted is turned down when it comes again within its
/// time to live, whatever was presented in between.
pub proof fn law_nonce_is_accepted_once(
    nonces: Map<Seq<char>, i64>,
    key: Seq<char>,
    accepted_at: i64,
    between: Seq<(Seq<char>, i64)>,
    again_at: i64,
    ttl_seconds: i64,
)
    requires
        !nonce_taken(nonces, key, accepted_at as int, ttl_seconds as int),
        again_at <= accepted_at + ttl_seconds,
        forall|i: int|
            0 <= i < between.len() ==> (#[trigger] between[i]).1 <= accepted_at + ttl_seconds,
    ensures
        nonce_taken(
            nonces_after_all(
                nonces_after(nonces, key, accepted_at, ttl_seconds as int),
                between,
                ttl_seconds as int,
            ),
            key,
            again_at as int,
            ttl_seconds as int,
        ),
{
    lemma_nonce_stays(
        nonces_after(nonces, key, accepted_at, ttl_seconds as int),
        key,
        accepted_at,
        between,
        ttl_seconds as int,
    );
}

proof fn lemma_nonce_stays(
    nonces: Map<Seq<char>, i64>,
    key: Seq<char>,
    accepted_at: i64,
    between: Seq<(Seq<char>, i64)>,
    ttl_seconds: int,
)
    requires
        nonces.contains_key(key) && nonces[key] == accepted_at,
        forall|i: int|
            0 <= i < between.len() ==> (#[trigger] between[i]).1 <= accepted_at + ttl_seconds,
    ensures
        nonces_after_all(nonces, between, ttl_seconds).contains_key(key),
        nonces_after_all(nonces, between, ttl_seconds)[key] == accepted_at,
    decreases between.len(),
{
    if between.len() > 0 {
        let front = between.drop_last();
        assert forall|i: int| 0 <= i < front.len() implies (#[trigger] front[i]).1 <= accepted_at
            + ttl_seconds by {
            assert(front[i] == between[i]);
        }
        lemma_nonce_stays(nonces, key, accepted_at, front, ttl_seconds);
        assert(between[between.len() - 1].1 <= accepted_at + ttl_seconds);
    }
}

/// A signed request is accepted once: where nonces live at least twice as long
/// as the allowed clock skew, a request that comes again while its timestamp
/// is still good carries a nonce that is taken. The timestamp and the nonce of a
/// request are held against one reading of the clock here.
pub proof fn law_signed_request_is_accepted_once(
    nonces: Map<Seq<char>, i64>,
    client_id: Seq<char>,
    nonce: Seq<char>,
    timestamp: int,
    accepted_at: i64,
    between: Seq<(Seq<char>, i64)>,
    again_at: i64,
    max_skew_seconds: i64,
    ttl_seconds: i64,
)
    requires
        2 * max_skew_seconds <= ttl_seconds,
        within_skew(accepted_at as int, timestamp, max_skew_seconds as int),
        within_skew(again_at as int, timestamp, max_skew_seconds as int),
        !nonce_taken(nonces, nonce_key(client_id, nonce), accepted_at as int, ttl_seconds as int),
        forall|i: int| 0 <= i < between.len() ==> (#[trigger] between[i]).1 <= again_at,
    ensures
        nonce_taken(
            nonces_after_all(
                nonces_after(
                    nonces,
                    nonce_key(client_id, nonce),
                    accepted_at,
                    ttl_seconds as int,
                ),
                between,
                ttl_seconds as int,
            ),
            nonce_key(client_id, nonce),
            again_at as int,
            ttl_seconds as int,
        ),
{
    law_nonce_is_accepted_once(
        nonces,
        nonce_key(client_id, nonce),
        accepted_at,
        between,
        again_at,
        ttl_seconds,
    );
}

/// A nonce is taken exactly where it was written down and is still kept: from
/// the time of its writing until the time to live has passed.
pub proof fn law_nonce_is_taken_while_kept(
    nonces: Map<Seq<char>, i64>,
    client_id: Seq<char>,
    nonce: Seq<char>,
    now: i64,
    ttl_seconds: int,
    other: Seq<char>,
)
    ensures
        ({
            let key = nonce_key(client_id, nonce);
            let after = nonces_after(nonces, key, now, ttl_seconds);
            let taken = nonce_taken(nonces, key, now as int, ttl_seconds);
            &&& key == client_id + ":"@ + nonce
            &&& taken <==> nonces.contains_key(key) && now - nonces[key] <= ttl_seconds
            &&& taken ==> after == nonces
            &&& !taken ==> after.contains_key(key) && after[key] == now
            &&& !taken && other != key ==> (after.contains_key(other) <==> nonces.contains_key(
                other,
            ) && now - nonces[other] <= ttl_seconds)
            &&& !taken && other != key && after.contains_key(other) ==> after[other]
                == nonces[other]
        }),
{
}

/// Two nonces of one client are written down apart, and so are the nonces of two
/// clients whose ids have no colon.
pub proof fn law_nonces_are_kept_apart(
    client_a: Seq<char>,
    nonce_a: Seq<char>,
    client_b: Seq<char>,
    nonce_b: Seq<char>,
)
    requires
        nonce_key(client_a, nonce_a) == nonce_key(client_b, nonce_b),
    ensures
        client_a == client_b ==> nonce_a == nonce_b,
        !client_a.contains(':') && !client_b.contains(':') ==> client_a == client_b && nonce_a
            == nonce_b,
{
    reveal_strlit(":");
    let a = nonce_key(client_a, nonce_a);
    let b = nonce_key(client_b, nonce_b);
    assert(":"@.len() == 1 && ":"@[0] == ':');
    assert(a[client_a.len() as int] == ':');
    assert(b[client_b.len() as int] == ':');
    if !client_a.contains(':') && !client_b.contains(':') {
        if client_a.len() < client_b.len() {
            assert(b[client_a.len() as int] == client_b[client_a.len() as int]);
            assert(client_b.contains(':'));
        }
        if client_b.len() < client_a.len() {
            assert(a[client_b.len() as int] == client_a[client_b.len() as int]);
            assert(client_a.contains(':'));
        }
        assert(client_a =~= a.take(client_a.len() as int));
        assert(client_b =~= b.take(client_b.len() as int));
    }
    if client_a == client_b {
        assert(nonce_a =~= a.skip(client_a.len() as int + 1));
        assert(nonce_b =~= b.skip(client_b.len() as int + 1));
    }
}

} // verus!
