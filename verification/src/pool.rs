//! The connection pool: idle sessions kept per broker address, the newest
//! fresh one handed out on checkout, stale ones dropped. Idle eviction is the
//! pool's only shrinkage.
use vstd::prelude::*;

use crate::connection::Connection;
use crate::metadata::bytes_eq;

verus! {

/// One pooled session and when it was last used.
pub struct IdleConnection {
    pub last_used: u64,
    pub connection: Connection,
}

/// Whether a session last used at `last_used` may still be handed out at
/// `now` under the given idle bound.
pub open spec fn is_fresh(last_used: u64, now: u64, max_idle: u64) -> bool {
    now - last_used <= max_idle
}

/// The slot, scanning from the newest end, of the first session that is
/// still fresh; every session above it is stale.
pub open spec fn newest_fresh_index(l: Seq<IdleConnection>, now: u64, max_idle: u64) -> Option<int>
    decreases l.len(),
{
    if l.len() == 0 {
        None
    } else if is_fresh(l.last().last_used, now, max_idle) {
        Some(l.len() - 1)
    } else {
        newest_fresh_index(l.drop_last(), now, max_idle)
    }
}

/// Checkout never hands out a stale session: when a session is picked it is
/// fresh, and when none is picked every pooled session for that address had
/// sat idle beyond the bound. A session last used at time `t` is therefore
/// absent from every lookup later than `t + max_idle`.
pub proof fn lemma_idle_eviction(l: Seq<IdleConnection>, now: u64, max_idle: u64)
    ensures
        match newest_fresh_index(l, now, max_idle) {
            Option::Some(k) => {
                &&& 0 <= k < l.len()
                &&& is_fresh(l[k].last_used, now, max_idle)
            },
            Option::None => forall|i: int| 0 <= i < l.len() ==> !is_fresh(
                (#[trigger] l[i]).last_used,
                now,
                max_idle,
            ),
        },
    decreases l.len(),
{
    if l.len() > 0 && !is_fresh(l.last().last_used, now, max_idle) {
        lemma_idle_eviction(l.drop_last(), now, max_idle);
        match newest_fresh_index(l.drop_last(), now, max_idle) {
            Option::Some(k) => {
                assert(l.drop_last()[k] == l[k]);
            },
            Option::None => {
                assert forall|i: int| 0 <= i < l.len() implies !is_fresh(
                    (#[trigger] l[i]).last_used,
                    now,
                    max_idle,
                ) by {
                    if i < l.len() - 1 {
                        assert(l.drop_last()[i] == l[i]);
                    }
                }
            },
        }
    }
}

/// Pops stale sessions off the newest end until a fresh one appears, and
/// hands that one out; a list of stale sessions only is emptied.
fn drain_newest(list: &mut Vec<IdleConnection>, now: u64, max_idle: u64) -> (r: Option<Connection>)
    ensures
        match newest_fresh_index(old(list)@, now, max_idle) {
            Option::Some(k) => {
                &&& r == Some(old(list)@[k].connection)
                &&& is_fresh(old(list)@[k].last_used, now, max_idle)
                &&& final(list)@ == old(list)@.take(k)
            },
            Option::None => {
                &&& r is None
                &&& final(list)@.len() == 0
            },
        },
{
    while list.len() > 0
        invariant
            newest_fresh_index(old(list)@, now, max_idle) == newest_fresh_index(
                list@,
                now,
                max_idle,
            ),
            list@.len() <= old(list)@.len(),
            forall|k: int| 0 <= k < list@.len() ==> list@[k] == old(list)@[k],
        decreases list@.len(),
    {
        let ghost lcur = list@;
        let candidate = list.pop().unwrap();
        proof {
            assert(lcur.last() == candidate);
            assert(list@ =~= lcur.drop_last());
        }
        let fresh_now = if now <= candidate.last_used {
            true
        } else {
            now - candidate.last_used <= max_idle
        };
        if fresh_now {
            proof {
                assert(is_fresh(candidate.last_used, now, max_idle));
                assert(newest_fresh_index(lcur, now, max_idle) == Some(lcur.len() - 1));
                assert(list@ =~= old(list)@.take(lcur.len() - 1));
            }
            return Some(candidate.connection);
        }
        proof {
            assert(!is_fresh(candidate.last_used, now, max_idle));
        }
    }
    None
}

/// Idle sessions keyed by broker address, with the eviction bound they are
/// held under.
pub struct ConnectionPool {
    pub max_idle: u64,
    pub entries: Vec<((Vec<u8>, u16), Vec<IdleConnection>)>,
}

/// The idle list pooled under an address.
pub open spec fn spec_pool_list(
    entries: Seq<((Vec<u8>, u16), Vec<IdleConnection>)>,
    host: Seq<u8>,
    port: u16,
) -> Option<Vec<IdleConnection>>
    decreases entries.len(),
{
    if entries.len() == 0 {
        None
    } else if entries[0].0.0@ == host && entries[0].0.1 == port {
        Some(entries[0].1)
    } else {
        spec_pool_list(entries.skip(1), host, port)
    }
}

impl ConnectionPool {
    pub fn new(max_idle: u64) -> (r: Self)
        ensures
            r.max_idle == max_idle,
            r.entries@.len() == 0,
    {
        ConnectionPool { max_idle, entries: Vec::new() }
    }

    /// Finds the slot of an address.
    fn addr_slot(&self, host: &Vec<u8>, port: u16) -> (res: Option<usize>)
        ensures
            match res {
                Some(k) => {
                    &&& k < self.entries@.len()
                    &&& self.entries@[k as int].0.0@ == host@
                    &&& self.entries@[k as int].0.1 == port
                    &&& spec_pool_list(self.entries@, host@, port) == Some(
                        self.entries@[k as int].1,
                    )
                    &&& forall|j: int| 0 <= j < k as int ==> !((#[trigger] self.entries@[
                        j
                    ]).0.0@ == host@ && self.entries@[j].0.1 == port)
                },
                None => spec_pool_list(self.entries@, host@, port) is None,
            },
    {
        let n = self.entries.len();
        let mut i: usize = 0;
        proof {
            assert(self.entries@.skip(0int) =~= self.entries@);
        }
        while i < n
            invariant
                i <= n,
                n == self.entries@.len(),
                spec_pool_list(self.entries@, host@, port) == spec_pool_list(
                    self.entries@.skip(i as int),
                    host@,
                    port,
                ),
                forall|j: int| 0 <= j < i as int ==> !((#[trigger] self.entries@[j]).0.0@ == host@
                    && self.entries@[j].0.1 == port),
            decreases n - i,
        {
            proof {
                assert(self.entries@.skip(i as int)[0] == self.entries@[i as int]);
                assert(self.entries@.skip(i as int).skip(1) =~= self.entries@.skip(i + 1));
            }
            if bytes_eq(&self.entries[i].0.0, host) && self.entries[i].0.1 == port {
                return Some(i);
            }
            i = i + 1;
        }
        proof {
            assert(self.entries@.skip(n as int).len() == 0);
        }
        None
    }

    /// Hands out the newest idle session for an address whose age is within
    /// the bound, dropping every stale session above it. An address with no
    /// fresh session yields nothing, and no session of another address is
    /// touched.
    pub fn checkout(&mut self, host: &Vec<u8>, port: u16, now: u64) -> (r: Option<Connection>)
        ensures
            final(self).max_idle == old(self).max_idle,
            final(self).entries@.len() == old(self).entries@.len(),
            forall|k: int| 0 <= k < final(self).entries@.len()
                ==> (#[trigger] final(self).entries@[k]).0 == old(self).entries@[k].0,
            forall|k: int|
                0 <= k < final(self).entries@.len()
                    && !(old(self).entries@[k].0.0@ == host@
                    && old(self).entries@[k].0.1 == port)
                    ==> (#[trigger] final(self).entries@[k]).1 == old(self).entries@[k].1,
            match spec_pool_list(old(self).entries@, host@, port) {
                Option::None => r is None && final(self).entries@ == old(self).entries@,
                Option::Some(l) => match newest_fresh_index(l@, now, old(self).max_idle) {
                    Option::Some(k) => {
                        &&& r == Some(l@[k].connection)
                        &&& is_fresh(l@[k].last_used, now, old(self).max_idle)
                        &&& match spec_pool_list(final(self).entries@, host@, port) {
                            Option::Some(l2) => l2@ == l@.take(k),
                            Option::None => false,
                        }
                    },
                    Option::None => {
                        &&& r is None
                        &&& match spec_pool_list(final(self).entries@, host@, port) {
                            Option::Some(l2) => l2@.len() == 0,
                            Option::None => false,
                        }
                    },
                },
            },
    {
        let slot = self.addr_slot(host, port);
        match slot {
            None => None,
            Some(t) => {
                let max_idle = self.max_idle;
                let ghost before = self.entries@;
                let (addr, mut list) = self.entries.remove(t);
                let ghost l0 = list@;
                let r = drain_newest(&mut list, now, max_idle);
                self.entries.insert(t, (addr, list));
                proof {
                    assert(self.entries@ =~= before.update(t as int, self.entries@[t as int]));
                    assert(self.entries@[t as int].0 == before[t as int].0);
                    lemma_pool_list_update(before, self.entries@, t as int, host@, port);
                }
                r
            },
        }
    }

    /// Returns a session to the pool under its address, stamped with the
    /// time it was last used. An address not yet pooled gets a slot.
    pub fn checkin(&mut self, host: &Vec<u8>, port: u16, connection: Connection, now: u64)
        ensures
            final(self).max_idle == old(self).max_idle,
            match spec_pool_list(old(self).entries@, host@, port) {
                Option::Some(l) => match spec_pool_list(final(self).entries@, host@, port) {
                    Option::Some(l2) => {
                        &&& l2@.len() == l@.len() + 1
                        &&& l2@[l@.len() as int].last_used == now
                        &&& l2@[l@.len() as int].connection == connection
                        &&& l2@.take(l@.len() as int) == l@
                    },
                    Option::None => false,
                },
                Option::None => match spec_pool_list(final(self).entries@, host@, port) {
                    Option::Some(l2) => {
                        &&& l2@.len() == 1
                        &&& l2@[0].last_used == now
                        &&& l2@[0].connection == connection
                    },
                    Option::None => false,
                },
            },
    {
        let slot = self.addr_slot(host, port);
        match slot {
            None => {
                let mut list: Vec<IdleConnection> = Vec::new();
                list.push(IdleConnection { last_used: now, connection });
                let ghost n0 = self.entries@.len();
                let ghost entry_list = list@;
                self.entries.push((( crate::cluster::clone_bytes(host), port), list));
                proof {
                    assert(self.entries@ =~= old(self).entries@.push(self.entries@[n0 as int]));
                    lemma_pool_list_append(
                        old(self).entries@,
                        self.entries@[n0 as int],
                        host@,
                        port,
                    );
                }
            },
            Some(t) => {
                let ghost before = self.entries@;
                let (addr, mut list) = self.entries.remove(t);
                let ghost l = list@;
                list.push(IdleConnection { last_used: now, connection });
                proof {
                    assert(list@ =~= l.push(list@[l.len() as int]));
                    assert(list@.take(l.len() as int) =~= l);
                }
                self.entries.insert(t, (addr, list));
                proof {
                    assert(self.entries@ =~= before.update(t as int, self.entries@[t as int]));
                    assert(self.entries@[t as int].0 == before[t as int].0);
                    lemma_pool_list_update(before, self.entries@, t as int, host@, port);
                }
            },
        }
    }
}

/// Appending a new slot for an address not yet pooled makes its list the
/// lookup result.
proof fn lemma_pool_list_append(
    entries: Seq<((Vec<u8>, u16), Vec<IdleConnection>)>,
    entry: ((Vec<u8>, u16), Vec<IdleConnection>),
    host: Seq<u8>,
    port: u16,
)
    requires
        spec_pool_list(entries, host, port) is None,
        entry.0.0@ == host,
        entry.0.1 == port,
    ensures
        spec_pool_list(entries.push(entry), host, port) == Some(entry.1),
    decreases entries.len(),
{
    if entries.len() == 0 {
        assert(entries.push(entry)[0] == entry);
    } else {
        assert(entries.push(entry)[0] == entries[0]);
        assert(entries.push(entry).skip(1) =~= entries.skip(1).push(entry));
        lemma_pool_list_append(entries.skip(1), entry, host, port);
    }
}

/// Replacing the list in the slot an address resolves to changes only that
/// lookup result.
proof fn lemma_pool_list_update(
    before: Seq<((Vec<u8>, u16), Vec<IdleConnection>)>,
    after: Seq<((Vec<u8>, u16), Vec<IdleConnection>)>,
    t: int,
    host: Seq<u8>,
    port: u16,
)
    requires
        0 <= t < before.len(),
        after.len() == before.len(),
        forall|k: int| 0 <= k < before.len() && k != t ==> after[k] == before[k],
        after[t].0 == before[t].0,
        before[t].0.0@ == host,
        before[t].0.1 == port,
        forall|j: int| 0 <= j < t ==> !((#[trigger] before[j]).0.0@ == host && before[j].0.1
            == port),
    ensures
        spec_pool_list(after, host, port) == Some(after[t].1),
    decreases t,
{
    if t == 0 {
        assert(after[0].0.0@ == host && after[0].0.1 == port);
    } else {
        assert(!(before[0].0.0@ == host && before[0].0.1 == port));
        assert(after[0] == before[0]);
        assert(before.skip(1)[t - 1] == before[t]);
        assert(after.skip(1)[t - 1] == after[t]);
        assert forall|k: int|
            0 <= k < before.skip(1).len() && k != t - 1 implies after.skip(1)[k] == before.skip(
            1,
        )[k] by {
            assert(after[k + 1] == before[k + 1]);
        }
        assert forall|j: int| 0 <= j < t - 1 implies !((#[trigger] before.skip(1)[j]).0.0@ == host
            && before.skip(1)[j].0.1 == port) by {
            assert(before.skip(1)[j] == before[j + 1]);
        }
        lemma_pool_list_update(before.skip(1), after.skip(1), t - 1, host, port);
    }
}

} // verus!
