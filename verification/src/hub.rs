use vstd::prelude::*;

verus! {

/// True if the session token is marked failed by the broadcast pass over the
/// given snapshot: some snapshot position holds it and reported a failure.
pub open spec fn marked_failed(snapshot: Seq<u64>, failed: Seq<bool>, s: u64) -> bool {
    exists|i: int| 0 <= i < snapshot.len() && #[trigger] snapshot[i] == s && failed[i]
}

/// The session list with every token that the pass marked failed removed;
/// the surviving sessions keep their order.
pub open spec fn prune_spec(sessions: Seq<u64>, snapshot: Seq<u64>, failed: Seq<bool>) -> Seq<u64>
    decreases sessions.len(),
{
    if sessions.len() == 0 {
        Seq::<u64>::empty()
    } else {
        let rest = prune_spec(sessions.drop_last(), snapshot, failed);
        if marked_failed(snapshot, failed, sessions.last()) {
            rest
        } else {
            rest.push(sessions.last())
        }
    }
}

/// Pruning keeps exactly the sessions that were present and not marked
/// failed: a session whose transport failed during the broadcast is absent
/// afterwards, and every other session is still there.
pub proof fn lemma_prune_membership(
    sessions: Seq<u64>,
    snapshot: Seq<u64>,
    failed: Seq<bool>,
    s: u64,
)
    ensures
        prune_spec(sessions, snapshot, failed).contains(s) <==> (sessions.contains(s)
            && !marked_failed(snapshot, failed, s)),
    decreases sessions.len(),
{
    if sessions.len() == 0 {
        assert(!sessions.contains(s));
        assert(!prune_spec(sessions, snapshot, failed).contains(s));
    } else {
        lemma_prune_membership(sessions.drop_last(), snapshot, failed, s);
        let rest = prune_spec(sessions.drop_last(), snapshot, failed);
        let last = sessions.last();
        assert(sessions.contains(s) <==> (sessions.drop_last().contains(s) || last == s)) by {
            if sessions.contains(s) {
                let i = choose|i: int| 0 <= i < sessions.len() && sessions[i] == s;
                if i < sessions.len() - 1 {
                    assert(sessions.drop_last()[i] == s);
                }
            }
            if sessions.drop_last().contains(s) {
                let i = choose|i: int|
                    0 <= i < sessions.drop_last().len() && sessions.drop_last()[i] == s;
                assert(sessions[i] == s);
            }
            if last == s {
                assert(sessions[sessions.len() - 1] == s);
            }
        }
        if marked_failed(snapshot, failed, last) {
            if rest.contains(s) {
                assert(prune_spec(sessions, snapshot, failed).contains(s));
            }
        } else {
            assert(rest.push(last).contains(s) <==> (rest.contains(s) || last == s)) by {
                if rest.push(last).contains(s) {
                    let i = choose|i: int|
                        0 <= i < rest.push(last).len() && rest.push(last)[i] == s;
                    if i < rest.len() {
                        assert(rest[i] == s);
                    }
                }
                if rest.contains(s) {
                    let i = choose|i: int| 0 <= i < rest.len() && rest[i] == s;
                    assert(rest.push(last)[i] == s);
                }
                if last == s {
                    assert(rest.push(last)[rest.len() as int] == s);
                }
            }
        }
    }
}

/// The set of connected viewer sessions, named by identity tokens in
/// insertion order. The transports themselves live with the embedding, keyed
/// by these tokens; the hub owns membership. A session is added on accept and
/// removed after the first broadcast pass in which its send failed; removal
/// is applied only after a full pass, never while it is iterated.
pub struct Hub {
    sessions: Vec<u64>,
    next: u64,
}

impl Hub {
    /// The current sessions, in insertion order.
    pub closed spec fn sessions_seq(self) -> Seq<u64> {
        self.sessions@
    }

    /// The token the next accepted session will receive.
    pub closed spec fn next_id(self) -> u64 {
        self.next
    }

    /// Tokens are handed out in increasing order: every held token is below
    /// the next one, and no token occurs twice.
    pub closed spec fn wf(self) -> bool {
        &&& forall|i: int| 0 <= i < self.sessions@.len() ==> #[trigger] self.sessions@[i] < self.next
        &&& forall|i: int, j: int|
            0 <= i < j < self.sessions@.len() ==> self.sessions@[i] != self.sessions@[j]
    }

    /// The token the next accepted session will receive; tokens below it are
    /// exhausted.
    pub fn next_session_id(&self) -> (r: u64)
        ensures
            r == self.next_id(),
    {
        self.next
    }

    /// An empty hub.
    pub fn new() -> (h: Hub)
        ensures
            h.wf(),
            h.sessions_seq().len() == 0,
            h.next_id() == 0,
    {
        Hub { sessions: Vec::new(), next: 0 }
    }

    /// Accept one viewer: append a fresh session token.
    pub fn add_session(&mut self) -> (id: u64)
        requires
            old(self).wf(),
            old(self).next_id() < u64::MAX,
        ensures
            final (self).wf(),
            id == old(self).next_id(),
            final (self).sessions_seq() == old(self).sessions_seq().push(id),
            final (self).next_id() == id + 1,
    {
        let id = self.next;
        self.sessions.push(id);
        self.next = self.next + 1;
        id
    }

    /// The sessions a broadcast pass must send to. Sessions accepted while
    /// the pass is under way are not part of its snapshot: they receive only
    /// subsequent broadcasts.
    pub fn snapshot(&self) -> (s: Vec<u64>)
        ensures
            s@ == self.sessions_seq(),
    {
        let n = self.sessions.len();
        let mut s: Vec<u64> = Vec::new();
        let mut i: usize = 0;
        while i < n
            invariant
                i <= n,
                n == self.sessions@.len(),
                s@ == self.sessions@.subrange(0, i as int),
            decreases n - i,
        {
            s.push(self.sessions[i]);
            proof {
                assert(s@ =~= self.sessions@.subrange(0, i + 1 as int));
            }
            i += 1;
        }
        proof {
            assert(self.sessions@.subrange(0, n as int) =~= self.sessions@);
        }
        s
    }

    /// Apply the outcome of a broadcast pass: every session whose send failed
    /// (`failed[i]` for `snapshot[i]`) is removed; all others — including
    /// sessions accepted after the snapshot was taken — stay, in order.
    pub fn apply_results(&mut self, snapshot: &Vec<u64>, failed: &Vec<bool>)
        requires
            old(self).wf(),
            snapshot@.len() == failed@.len(),
        ensures
            final (self).wf(),
            final (self).sessions_seq() == prune_spec(
                old(self).sessions_seq(),
                snapshot@,
                failed@,
            ),
            final (self).next_id() == old(self).next_id(),
    {
        let n = self.sessions.len();
        let mut kept: Vec<u64> = Vec::new();
        let mut i: usize = 0;
        proof {
            assert(self.sessions@.take(0).len() == 0);
        }
        while i < n
            invariant
                i <= n,
                n == self.sessions@.len(),
                snapshot@.len() == failed@.len(),
                forall|k: int| 0 <= k < kept@.len() ==> #[trigger] kept@[k] < self.next,
                forall|k: int|
                    0 <= k < self.sessions@.len() ==> #[trigger] self.sessions@[k] < self.next,
                forall|a: int, b: int|
                    0 <= a < b < self.sessions@.len() ==> self.sessions@[a] != self.sessions@[b],
                forall|a: int|
                    0 <= a < kept@.len() ==> exists|t: int|
                        0 <= t < i && #[trigger] kept@[a] == self.sessions@[t],
                forall|a: int, b: int| 0 <= a < b < kept@.len() ==> kept@[a] != kept@[b],
                kept@ == prune_spec(self.sessions@.take(i as int), snapshot@, failed@),
            decreases n - i,
        {
            let s = self.sessions[i];
            proof {
                assert(self.sessions@.take(i + 1 as int).drop_last() =~= self.sessions@.take(
                    i as int,
                ));
                assert(self.sessions@.take(i + 1 as int).last() == self.sessions@[i as int]);
            }
            let mut is_failed = false;
            let m = snapshot.len();
            let mut j: usize = 0;
            while j < m
                invariant
                    j <= m,
                    m == snapshot@.len(),
                    snapshot@.len() == failed@.len(),
                    is_failed == exists|t: int|
                        0 <= t < j && #[trigger] snapshot@[t] == s && failed@[t],
                decreases m - j,
            {
                if snapshot[j] == s && failed[j] {
                    is_failed = true;
                }
                j += 1;
            }
            if !is_failed {
                proof {
                    assert forall|a: int| 0 <= a < kept@.len() implies kept@[a] != s by {
                        let t = choose|t: int|
                            0 <= t < i && #[trigger] kept@[a] == self.sessions@[t];
                        assert(self.sessions@[t] != self.sessions@[i as int]);
                    }
                }
                kept.push(s);
                proof {
                    assert(kept@.last() == self.sessions@[i as int]);
                }
            }
            i += 1;
        }
        proof {
            assert(self.sessions@.take(n as int) =~= self.sessions@);
        }
        self.sessions = kept;
    }
}

} // verus!
