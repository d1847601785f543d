//! One session to one broker: the correlation-id counter, the table of
//! in-flight requests, and the state machine from connecting to closed.
use vstd::prelude::*;

use crate::errors::ErrorKind;

verus! {

/// Where a session stands.
#[derive(Clone, Copy, Debug, PartialEq, Eq, Structural)]
pub enum ConnectionState {
    /// The transport is being established.
    Connecting,
    /// The transport is up and the codec installed.
    Ready,
    /// A fatal failure or the idle timeout ended the session.
    Closed,
}

/// The next value of a wrapping 32-bit counter.
pub open spec fn spec_wrap_inc(x: i32) -> i32 {
    if x == 0x7fff_ffff {
        i32::MIN
    } else {
        (x + 1) as i32
    }
}

pub fn wrap_inc(x: i32) -> (r: i32)
    ensures
        r == spec_wrap_inc(x),
{
    if x == 0x7fff_ffff {
        i32::MIN
    } else {
        x + 1
    }
}

/// No id occurs twice in the run.
pub open spec fn ids_distinct(p: Seq<i32>) -> bool {
    forall|i: int, j: int| 0 <= i < j < p.len() ==> p[i] != p[j]
}

/// One connection: its state, the counter the next request is stamped from,
/// and the correlation ids of the requests still waiting for a response.
pub struct Connection {
    pub state: ConnectionState,
    pub next_correlation_id: i32,
    pub pending: Vec<i32>,
}

impl Connection {
    /// The invariant every operation preserves: no two in-flight requests
    /// share a correlation id.
    pub open spec fn wf(self) -> bool {
        ids_distinct(self.pending@)
    }

    pub fn new() -> (r: Self)
        ensures
            r.state == ConnectionState::Connecting,
            r.next_correlation_id == 0,
            r.pending@.len() == 0,
            r.wf(),
    {
        Connection { state: ConnectionState::Connecting, next_correlation_id: 0, pending: Vec::new() }
    }

    /// The transport came up: the session accepts requests.
    pub fn ready(&mut self)
        ensures
            final(self).state == ConnectionState::Ready,
            final(self).next_correlation_id == old(self).next_correlation_id,
            final(self).pending == old(self).pending,
    {
        self.state = ConnectionState::Ready;
    }

    /// Whether a correlation id is still in flight.
    pub fn is_pending(&self, id: i32) -> (r: bool)
        ensures
            r <==> self.pending@.contains(id),
    {
        let n = self.pending.len();
        let mut i: usize = 0;
        while i < n
            invariant
                i <= n,
                n == self.pending@.len(),
                forall|j: int| 0 <= j < i as int ==> self.pending@[j] != id,
            decreases n - i,
        {
            if self.pending[i] == id {
                return true;
            }
            i = i + 1;
        }
        false
    }

    /// Registers one outgoing request: stamps it with a fresh correlation id
    /// and records it as in flight. A session that is not ready refuses; a
    /// counter that has wrapped onto an id still in flight refuses rather
    /// than corrupt the table.
    pub fn register_request(&mut self) -> (r: Result<i32, ErrorKind>)
        requires
            old(self).wf(),
        ensures
            final(self).wf(),
            match r {
                Ok(id) => {
                    &&& old(self).state == ConnectionState::Ready
                    &&& id == old(self).next_correlation_id
                    &&& !old(self).pending@.contains(id)
                    &&& final(self).pending@ == old(self).pending@.push(id)
                    &&& final(self).next_correlation_id == spec_wrap_inc(id)
                    &&& final(self).state == ConnectionState::Ready
                },
                Err(e) => {
                    &&& *final(self) == *old(self)
                    &&& (e == ErrorKind::ConnectionLost <==> old(self).state
                        != ConnectionState::Ready)
                    &&& (e == ErrorKind::Protocol ==> old(self).pending@.contains(
                        old(self).next_correlation_id,
                    ))
                },
            },
    {
        if !matches!(self.state, ConnectionState::Ready) {
            return Err(ErrorKind::ConnectionLost);
        }
        let id = self.next_correlation_id;
        if self.is_pending(id) {
            return Err(ErrorKind::Protocol);
        }
        self.pending.push(id);
        self.next_correlation_id = wrap_inc(id);
        proof {
            assert forall|i: int, j: int|
                0 <= i < j < self.pending@.len() implies self.pending@[i] != self.pending@[j] by {
                if j < self.pending@.len() - 1 {
                    assert(old(self).pending@[i] != old(self).pending@[j]);
                } else {
                    assert(old(self).pending@.contains(old(self).pending@[i]));
                }
            }
        }
        Ok(id)
    }

    /// Resolves the in-flight request with the given id, if one exists. A
    /// response whose id matches nothing is reported so the caller can
    /// discard it as late.
    pub fn complete_request(&mut self, id: i32) -> (r: bool)
        requires
            old(self).wf(),
        ensures
            final(self).wf(),
            final(self).state == old(self).state,
            final(self).next_correlation_id == old(self).next_correlation_id,
            r <==> old(self).pending@.contains(id),
            !final(self).pending@.contains(id),
            forall|x: i32| x != id ==> (final(self).pending@.contains(x) <==> old(
                self,
            ).pending@.contains(x)),
            r ==> final(self).pending@.len() == old(self).pending@.len() - 1,
            !r ==> final(self).pending == old(self).pending,
    {
        let n = self.pending.len();
        let mut i: usize = 0;
        while i < n
            invariant
                i <= n,
                n == self.pending@.len(),
                self == old(self),
                old(self).wf(),
                forall|j: int| 0 <= j < i as int ==> self.pending@[j] != id,
            decreases n - i,
        {
            if self.pending[i] == id {
                proof {
                    assert(old(self).pending@.contains(id));
                }
                let ghost before = self.pending@;
                self.pending.remove(i);
                proof {
                    assert(self.pending@ =~= before.remove(i as int));
                    assert forall|ii: int, jj: int|
                        0 <= ii < jj < self.pending@.len() implies self.pending@[ii] != self
                        .pending@[jj] by {
                        let mi = if ii < i as int { ii } else { ii + 1 };
                        let mj = if jj < i as int { jj } else { jj + 1 };
                        assert(before[mi] != before[mj]);
                    }
                    assert forall|k: int|
                        0 <= k < self.pending@.len() implies self.pending@[k] != id by {
                        let mk = if k < i as int { k } else { k + 1 };
                        assert(before[mk] == self.pending@[k]);
                    }
                    assert(!self.pending@.contains(id)) by {
                        if self.pending@.contains(id) {
                            let w = choose|w: int| 0 <= w < self.pending@.len()
                                && self.pending@[w] == id;
                            let mw = if w < i as int { w } else { w + 1 };
                            assert(before[mw] == id);
                            assert(before[i as int] == id);
                            assert(mw != i as int ==> !old(self).wf() || before[mw] != before[
                                i as int
                            ]);
                        }
                    }
                    assert forall|x: i32| x != id implies (self.pending@.contains(x) <==> old(
                        self,
                    ).pending@.contains(x)) by {
                        if old(self).pending@.contains(x) {
                            let w = choose|w: int| 0 <= w < before.len() && before[w] == x;
                            if w < i as int {
                                assert(self.pending@[w] == x);
                            } else {
                                assert(w != i as int);
                                assert(self.pending@[w - 1] == x);
                            }
                        }
                        if self.pending@.contains(x) {
                            let w = choose|w: int| 0 <= w < self.pending@.len()
                                && self.pending@[w] == x;
                            let mw = if w < i as int { w } else { w + 1 };
                            assert(before[mw] == x);
                        }
                    }
                }
                return true;
            }
            i = i + 1;
        }
        proof {
            assert(!old(self).pending@.contains(id)) by {
                if old(self).pending@.contains(id) {
                    let w = choose|w: int| 0 <= w < old(self).pending@.len() && old(
                        self,
                    ).pending@[w] == id;
                }
            }
        }
        false
    }

    /// Ends the session. Every request still in flight is handed back so the
    /// caller can fail each one with a connection-lost error.
    pub fn close(&mut self) -> (r: Vec<i32>)
        ensures
            final(self).state == ConnectionState::Closed,
            final(self).pending@.len() == 0,
            final(self).next_correlation_id == old(self).next_correlation_id,
            r@ == old(self).pending@,
            final(self).wf(),
    {
        self.state = ConnectionState::Closed;
        let mut out: Vec<i32> = Vec::new();
        core::mem::swap(&mut out, &mut self.pending);
        out
    }
}

/// On one connection the set of in-flight correlation ids holds no
/// duplicates: any two distinct table slots carry different ids.
pub proof fn lemma_inflight_ids_distinct(c: Connection, i: int, j: int)
    requires
        c.wf(),
        0 <= i < c.pending@.len(),
        0 <= j < c.pending@.len(),
        i != j,
    ensures
        c.pending@[i] != c.pending@[j],
{
    if i < j {
        assert(c.pending@[i] != c.pending@[j]);
    } else {
        assert(c.pending@[j] != c.pending@[i]);
    }
}

} // verus!
