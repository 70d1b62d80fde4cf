//! Leader election for a named topology group, built on the discovery
//! backend's compare-and-swap primitive.
//!
//! Leadership is defined solely by holding the lease on the group's election
//! key: a claim succeeds only when the key is absent, expired, or already
//! held by the claimant, and every fresh grant carries a strictly larger
//! term. A coordinator never assumes leadership without a confirmed win, and
//! downgrades as soon as a refresh finds the lease gone or held elsewhere.

use vstd::prelude::*;

verus! {

/// The role a peer currently reports. Every peer starts as Candidate.
#[derive(Clone, Copy, PartialEq, Eq, Structural, Debug)]
pub enum Role {
    Candidate,
    Leader,
    Follower,
}

/// The election key's record: the peer holding the lease, the term it won,
/// and the instant the lease lapses unless refreshed.
#[derive(Clone, Copy, PartialEq, Eq, Structural, Debug)]
pub struct LeaseRecord {
    pub holder: u64,
    pub term: u64,
    pub expires_at: u64,
}

/// An in-memory model of the backend's election key with compare-and-swap
/// semantics: a write succeeds only if the key is absent, lapsed, or held by
/// the writer, so at most one writer wins each term.
#[derive(Clone, Copy, PartialEq, Eq, Structural, Debug)]
pub struct ElectionKey {
    pub lease: Option<LeaseRecord>,
    /// Highest term ever granted; a fresh grant takes `last_term + 1`.
    pub last_term: u64,
    /// Lease duration handed to every grant and refresh.
    pub ttl: u64,
}

impl ElectionKey {
    /// Whether the lease is absent or lapsed at instant `now`.
    pub open spec fn expired(self, now: u64) -> bool {
        match self.lease {
            Option::None => true,
            Option::Some(l) => l.expires_at <= now,
        }
    }

    /// The current lease, if any, always carries the newest granted term.
    pub open spec fn wf(self) -> bool {
        match self.lease {
            Option::None => true,
            Option::Some(l) => l.term == self.last_term,
        }
    }
}

/// One supervisor instance within the topology group.
#[derive(Clone, Copy, PartialEq, Eq, Structural, Debug)]
pub struct Peer {
    pub id: u64,
    pub role: Role,
    /// The term this peer last won; meaningful while it reports Leader.
    pub term: u64,
    pub alive: bool,
}

/// A topology group: the shared election key, the peers watching it, and the
/// group's clock.
pub struct Group {
    pub key: ElectionKey,
    pub peers: Vec<Peer>,
    pub now: u64,
}

/// The peers of `b` equal those of `a` except possibly at index `i`.
pub open spec fn peers_same_except(a: Seq<Peer>, b: Seq<Peer>, i: int) -> bool {
    &&& a.len() == b.len()
    &&& forall|j: int| 0 <= j < a.len() && j != i ==> a[j] == b[j]
}

/// The exact effect of one compare-and-swap attempt by alive peer `i`: an
/// absent or lapsed lease is granted at the next term, the claimant's own
/// live lease is refreshed at its term, and any other live lease makes the
/// attempt lose, leaving the key untouched. Either way the granted or
/// refreshed lease runs to exactly `now + ttl`.
pub open spec fn claim_transition(pre: Group, post: Group, i: int) -> bool {
    let id = pre.peers@[i].id;
    let won = pre.key.expired(pre.now) || (pre.key.lease matches Option::Some(l) && l.holder
        == id);
    let term = if pre.key.expired(pre.now) {
        (pre.key.last_term + 1) as u64
    } else {
        pre.key.last_term
    };
    &&& post.now == pre.now
    &&& post.key.ttl == pre.key.ttl
    &&& peers_same_except(pre.peers@, post.peers@, i)
    &&& post.peers@[i].id == id
    &&& post.peers@[i].alive == pre.peers@[i].alive
    &&& won ==> {
        &&& post.key.last_term == term
        &&& post.key.lease == Option::Some(
            LeaseRecord { holder: id, term, expires_at: (pre.now + pre.key.ttl) as u64 },
        )
        &&& post.peers@[i].role is Leader
        &&& post.peers@[i].term == term
    }
    &&& !won ==> {
        &&& post.key == pre.key
        &&& post.peers@[i].role is Follower
        &&& post.peers@[i].term == pre.peers@[i].term
    }
}

impl Group {
    /// Peer `i` is alive and reports Leader.
    pub open spec fn is_alive_leader(self, i: int) -> bool {
        &&& 0 <= i < self.peers@.len()
        &&& self.peers@[i].alive
        &&& self.peers@[i].role is Leader
    }

    /// Group invariant.
    ///
    /// - peer identifiers are unique;
    /// - an alive leader's term never exceeds the newest granted term;
    /// - two distinct alive leaders never share a term (the single-leader
    ///   guarantee);
    /// - an alive leader of the newest term still holds the lease: stale
    ///   leaders, which lost the key, always sit at older terms.
    pub open spec fn wf(self) -> bool {
        &&& self.key.wf()
        &&& forall|i: int, j: int|
            0 <= i < j < self.peers@.len() ==> self.peers@[i].id != self.peers@[j].id
        &&& forall|i: int| self.is_alive_leader(i) ==> #[trigger] self.peers@[i].term
            <= self.key.last_term
        &&& forall|i: int, j: int|
            self.is_alive_leader(i) && self.is_alive_leader(j) && i != j
                ==> #[trigger] self.peers@[i].term != #[trigger] self.peers@[j].term
        &&& forall|i: int|
            self.is_alive_leader(i) && self.key.lease is Some && self.key.lease->Some_0.holder
                == self.peers@[i].id ==> #[trigger] self.peers@[i].term
                == self.key.lease->Some_0.term
        &&& forall|i: int|
            self.is_alive_leader(i) && #[trigger] self.peers@[i].term == self.key.last_term
                ==> self.key.lease == Option::Some(
                LeaseRecord {
                    holder: self.peers@[i].id,
                    term: self.key.last_term,
                    expires_at: self.key.lease->Some_0.expires_at,
                },
            )
    }

    /// Arithmetic room for one more grant: a fresh term and a lease expiry
    /// must fit in their machine words.
    pub open spec fn claim_fits(self) -> bool {
        &&& self.key.last_term < u64::MAX
        &&& self.now + self.key.ttl <= u64::MAX
    }

    /// A fresh group: no lease granted yet, clock at zero.
    pub fn new(ttl: u64) -> (g: Group)
        ensures
            g.wf(),
            g.key.lease is None,
            g.key.last_term == 0,
            g.key.ttl == ttl,
            g.peers@ == Seq::<Peer>::empty(),
            g.now == 0,
    {
        let g = Group {
            key: ElectionKey { lease: None, last_term: 0, ttl },
            peers: Vec::new(),
            now: 0,
        };
        proof {
            assert(g.peers@ =~= Seq::<Peer>::empty());
        }
        g
    }

    /// A peer joins the group as a Candidate. Membership is dynamic; an
    /// identifier already present is refused.
    pub fn join(&mut self, id: u64) -> (fresh: bool)
        requires
            old(self).wf(),
        ensures
            final(self).wf(),
            fresh == (forall|j: int|
                0 <= j < old(self).peers@.len() ==> old(self).peers@[j].id != id),
            fresh ==> final(self).peers@ == old(self).peers@.push(
                Peer { id, role: Role::Candidate, term: 0, alive: true },
            ),
            !fresh ==> final(self).peers@ == old(self).peers@,
            final(self).key == old(self).key,
            final(self).now == old(self).now,
    {
        let n = self.peers.len();
        let mut i: usize = 0;
        while i < n
            invariant
                i <= n,
                n == self.peers@.len(),
                self.wf(),
                self.key == old(self).key,
                self.now == old(self).now,
                self.peers@ == old(self).peers@,
                forall|j: int| 0 <= j < i ==> self.peers@[j].id != id,
            decreases n - i,
        {
            if self.peers[i].id == id {
                return false;
            }
            i += 1;
        }
        let p = Peer { id, role: Role::Candidate, term: 0, alive: true };
        self.peers.push(p);
        proof {
            assert forall|a: int| final(self).is_alive_leader(a) implies final(self).peers@[a]
                == old(self).peers@[a] by {
                assert(!(p.role is Leader));
            }
        }
        true
    }

    /// The clock moves forward; a lease whose expiry is reached lapses.
    pub fn advance(&mut self, dt: u64) -> (moved: bool)
        requires
            old(self).wf(),
        ensures
            final(self).wf(),
            moved == (old(self).now + dt <= u64::MAX),
            moved ==> final(self).now == old(self).now + dt,
            !moved ==> final(self).now == old(self).now,
            final(self).key == old(self).key,
            final(self).peers@ == old(self).peers@,
    {
        if dt <= u64::MAX - self.now {
            self.now = self.now + dt;
            true
        } else {
            false
        }
    }

    /// One compare-and-swap attempt by peer `i` against the election key.
    ///
    /// An absent or lapsed lease is granted with a fresh term; a live lease
    /// held by the claimant is refreshed at its term; any other live lease
    /// makes the attempt lose, and the claimant settles as Follower. An
    /// attempt whose backend answer was lost is fed to `claim_error`
    /// instead: leadership is never assumed on an ambiguous outcome.
    pub fn attempt_claim(&mut self, i: usize) -> (won: bool)
        requires
            old(self).wf(),
            old(self).now + old(self).key.ttl <= u64::MAX,
            old(self).key.expired(old(self).now) ==> old(self).key.last_term < u64::MAX,
            i < old(self).peers@.len(),
            old(self).peers@[i as int].alive,
        ensures
            final(self).wf(),
            claim_transition(*old(self), *final(self), i as int),
            final(self).peers@[i as int].alive,
            won == (old(self).key.expired(old(self).now) || old(self).key.lease->Some_0.holder == old(self).peers@[i as int].id),
    {
        let id = self.peers[i].id;
        let expired = match self.key.lease {
            None => true,
            Some(l) => l.expires_at <= self.now,
        };
        if expired {
            let term = self.key.last_term + 1;
            self.key.last_term = term;
            self.key.lease = Some(
                LeaseRecord { holder: id, term, expires_at: self.now + self.key.ttl },
            );
            self.peers[i] = Peer { id, role: Role::Leader, term, alive: true };
            proof {
                self.lemma_wf_after_grant(*old(self), i as int);
            }
            true
        } else {
            let l = self.key.lease.unwrap();
            if l.holder == id {
                self.key.lease = Some(
                    LeaseRecord { holder: id, term: l.term, expires_at: self.now + self.key.ttl },
                );
                self.peers[i] = Peer { id, role: Role::Leader, term: l.term, alive: true };
                proof {
                    self.lemma_wf_after_refresh(*old(self), i as int);
                }
                true
            } else {
                let t = self.peers[i].term;
                self.peers[i] = Peer { id, role: Role::Follower, term: t, alive: true };
                proof {
                    self.lemma_wf_after_demote(*old(self), i as int);
                }
                false
            }
        }
    }

    /// A fresh grant preserves the invariant: the winner's term is strictly
    /// newer than any term an alive leader already carries.
    proof fn lemma_wf_after_grant(self, prev: Group, i: int)
        requires
            prev.wf(),
            prev.key.last_term < u64::MAX,
            0 <= i < prev.peers@.len(),
            self.key.last_term == prev.key.last_term + 1,
            self.key.lease == Option::Some(
                LeaseRecord {
                    holder: prev.peers@[i].id,
                    term: self.key.last_term,
                    expires_at: self.key.lease->Some_0.expires_at,
                },
            ),
            peers_same_except(prev.peers@, self.peers@, i),
            self.peers@[i] == (Peer {
                id: prev.peers@[i].id,
                role: Role::Leader,
                term: self.key.last_term,
                alive: true,
            }),
        ensures
            self.wf(),
    {
        assert forall|a: int| self.is_alive_leader(a) implies #[trigger] self.peers@[a].term
            <= self.key.last_term by {
            if a != i {
                assert(prev.is_alive_leader(a));
            }
        }
        assert forall|a: int, b: int|
            self.is_alive_leader(a) && self.is_alive_leader(b) && a != b implies #[trigger] self
            .peers@[a].term != #[trigger] self.peers@[b].term by {
            if a != i && b != i {
                assert(prev.is_alive_leader(a) && prev.is_alive_leader(b));
            } else if a == i {
                assert(prev.is_alive_leader(b));
                assert(prev.peers@[b].term <= prev.key.last_term);
            } else {
                assert(prev.is_alive_leader(a));
                assert(prev.peers@[a].term <= prev.key.last_term);
            }
        }
    }

    /// A refresh by the live holder preserves the invariant: by the holder
    /// clause, no other alive leader sits at the refreshed term.
    proof fn lemma_wf_after_refresh(self, prev: Group, i: int)
        requires
            prev.wf(),
            0 <= i < prev.peers@.len(),
            prev.key.lease is Some,
            prev.key.lease->Some_0.holder == prev.peers@[i].id,
            self.key.last_term == prev.key.last_term,
            self.key.lease == Option::Some(
                LeaseRecord {
                    holder: prev.peers@[i].id,
                    term: prev.key.last_term,
                    expires_at: self.key.lease->Some_0.expires_at,
                },
            ),
            peers_same_except(prev.peers@, self.peers@, i),
            self.peers@[i] == (Peer {
                id: prev.peers@[i].id,
                role: Role::Leader,
                term: prev.key.last_term,
                alive: true,
            }),
        ensures
            self.wf(),
    {
        assert forall|a: int| self.is_alive_leader(a) implies #[trigger] self.peers@[a].term
            <= self.key.last_term by {
            if a != i {
                assert(prev.is_alive_leader(a));
            }
        }
        assert forall|a: int, b: int|
            self.is_alive_leader(a) && self.is_alive_leader(b) && a != b implies #[trigger] self
            .peers@[a].term != #[trigger] self.peers@[b].term by {
            if a != i && b != i {
                assert(prev.is_alive_leader(a) && prev.is_alive_leader(b));
            } else {
                let o = if a == i {
                    b
                } else {
                    a
                };
                assert(prev.is_alive_leader(o));
                if prev.peers@[o].term == prev.key.last_term {
                    assert(prev.key.lease->Some_0.holder == prev.peers@[o].id);
                    assert(prev.peers@[o].id == prev.peers@[i].id);
                    assert(o == i);
                }
            }
        }
    }

    /// Losing a claim, or standing down, only removes a leader, so the
    /// invariant is preserved.
    proof fn lemma_wf_after_demote(self, prev: Group, i: int)
        requires
            prev.wf(),
            0 <= i < prev.peers@.len(),
            self.key == prev.key,
            peers_same_except(prev.peers@, self.peers@, i),
            self.peers@[i].id == prev.peers@[i].id,
            !(self.peers@[i].role is Leader),
        ensures
            self.wf(),
    {
        assert forall|a: int| self.is_alive_leader(a) implies self.peers@[a] == prev.peers@[a] by {
        }
    }

    /// Peer `i` reacts to what it currently observes, as the coordinator
    /// state machine prescribes:
    ///
    /// - a Candidate attempts a claim and becomes Leader on a win, else
    ///   Follower;
    /// - a Follower re-attempts as soon as it sees the lease lapsed,
    ///   otherwise it keeps watching;
    /// - a Leader refreshes its live lease; finding the lease lapsed, gone,
    ///   or held elsewhere, it confirms the loss and re-enters Candidate,
    ///   never continuing to act as Leader.
    ///
    /// Returns the role-change event: `Some` exactly when the role changed,
    /// so a transition is emitted exactly once and never duplicated.
    pub fn tick(&mut self, i: usize) -> (change: Option<Role>)
        requires
            old(self).wf(),
            old(self).claim_fits(),
            i < old(self).peers@.len(),
        ensures
            final(self).wf(),
            final(self).now == old(self).now,
            final(self).key.ttl == old(self).key.ttl,
            final(self).key.last_term >= old(self).key.last_term,
            peers_same_except(old(self).peers@, final(self).peers@, i as int),
            final(self).peers@[i as int].id == old(self).peers@[i as int].id,
            final(self).peers@[i as int].alive == old(self).peers@[i as int].alive,
            change == (if final(self).peers@[i as int].role == old(self).peers@[i as int].role {
                Option::<Role>::None
            } else {
                Option::Some(final(self).peers@[i as int].role)
            }),
            !old(self).peers@[i as int].alive ==> final(self).key == old(self).key && final(self).peers@ == old(self).peers@,
            old(self).peers@[i as int].alive && (old(self).peers@[i as int].role is Candidate || (
            old(self).peers@[i as int].role is Follower && old(self).key.expired(old(self).now)))
                ==> claim_transition(*old(self), *final(self), i as int),
            old(self).peers@[i as int].alive && old(self).peers@[i as int].role is Follower && !old(self).key.expired(old(self).now) ==> final(self).key == old(self).key && final(self).peers@ == old(self).peers@,
            old(self).peers@[i as int].alive && old(self).peers@[i as int].role is Leader ==> {
                &&& (old(self).key.lease matches Option::Some(l) && l.holder == old(self).peers@[i as int].id && !old(self).key.expired(old(self).now)) ==> claim_transition(*old(self), *final(self), i as int)
                &&& !(old(self).key.lease matches Option::Some(l) && l.holder == old(self).peers@[i as int].id && !old(self).key.expired(old(self).now)) ==> {
                    &&& final(self).peers@[i as int].role is Candidate
                    &&& final(self).peers@[i as int].term == old(self).peers@[i as int].term
                    &&& final(self).key == old(self).key
                }
            },
    {
        if !self.peers[i].alive {
            return None;
        }
        let before = self.peers[i].role;
        match before {
            Role::Candidate => {
                self.attempt_claim(i);
            },
            Role::Follower => {
                let expired = match self.key.lease {
                    None => true,
                    Some(l) => l.expires_at <= self.now,
                };
                if expired {
                    self.attempt_claim(i);
                }
            },
            Role::Leader => {
                let holds = match self.key.lease {
                    None => false,
                    Some(l) => l.holder == self.peers[i].id && l.expires_at > self.now,
                };
                if holds {
                    self.attempt_claim(i);
                } else {
                    let p = self.peers[i];
                    self.peers[i] = Peer {
                        id: p.id,
                        role: Role::Candidate,
                        term: p.term,
                        alive: true,
                    };
                    proof {
                        self.lemma_wf_after_demote(*old(self), i as int);
                    }
                }
            },
        }
        let after = self.peers[i].role;
        if roles_equal(after, before) {
            None
        } else {
            Some(after)
        }
    }

    /// The backend failed or the answer was lost while peer `i` attempted
    /// its claim. An ambiguous outcome never grants leadership: the peer
    /// settles as Follower and will re-attempt once it observes the key
    /// again; the key itself is untouched by a failed write.
    pub fn claim_error(&mut self, i: usize)
        requires
            old(self).wf(),
            i < old(self).peers@.len(),
        ensures
            final(self).wf(),
            final(self).now == old(self).now,
            final(self).key == old(self).key,
            peers_same_except(old(self).peers@, final(self).peers@, i as int),
            final(self).peers@[i as int] == (Peer {
                id: old(self).peers@[i as int].id,
                role: Role::Follower,
                term: old(self).peers@[i as int].term,
                alive: old(self).peers@[i as int].alive,
            }),
    {
        let p = self.peers[i];
        self.peers[i] = Peer { id: p.id, role: Role::Follower, term: p.term, alive: p.alive };
        proof {
            self.lemma_wf_after_demote(*old(self), i as int);
        }
    }

    /// Graceful resignation: if peer `i` holds the lease it releases the
    /// key, and it re-enters Candidate.
    pub fn release(&mut self, i: usize) -> (released: bool)
        requires
            old(self).wf(),
            i < old(self).peers@.len(),
        ensures
            final(self).wf(),
            final(self).now == old(self).now,
            final(self).key.ttl == old(self).key.ttl,
            final(self).key.last_term == old(self).key.last_term,
            peers_same_except(old(self).peers@, final(self).peers@, i as int),
            released == (old(self).key.lease matches Option::Some(l) && l.holder == old(self).peers@[i as int].id),
            released ==> final(self).key.lease is None,
            !released ==> final(self).key == old(self).key,
            final(self).peers@[i as int] == (Peer {
                id: old(self).peers@[i as int].id,
                role: Role::Candidate,
                term: old(self).peers@[i as int].term,
                alive: old(self).peers@[i as int].alive,
            }),
    {
        let p = self.peers[i];
        let held = match self.key.lease {
            None => false,
            Some(l) => l.holder == p.id,
        };
        if held {
            self.key.lease = None;
        }
        self.peers[i] = Peer { id: p.id, role: Role::Candidate, term: p.term, alive: p.alive };
        proof {
            assert forall|a: int| final(self).is_alive_leader(a) implies final(self).peers@[a]
                == old(self).peers@[a] by {}
            if held {
                assert forall|a: int|
                    final(self).is_alive_leader(a) && final(self).peers@[a].term == final(self).key.last_term implies false by {
                    assert(old(self).is_alive_leader(a));
                    assert(old(self).key.lease->Some_0.holder == old(self).peers@[a].id);
                    assert(old(self).peers@[a].id == old(self).peers@[i as int].id);
                    assert(a == i as int);
                }
            }
        }
        held
    }

    /// Peer `i` departs: a crashed or disconnected peer reports nothing and
    /// stops refreshing whatever lease it held, which will now lapse.
    pub fn crash(&mut self, i: usize)
        requires
            old(self).wf(),
            i < old(self).peers@.len(),
        ensures
            final(self).wf(),
            final(self).now == old(self).now,
            final(self).key == old(self).key,
            peers_same_except(old(self).peers@, final(self).peers@, i as int),
            final(self).peers@[i as int] == (Peer {
                id: old(self).peers@[i as int].id,
                role: old(self).peers@[i as int].role,
                term: old(self).peers@[i as int].term,
                alive: false,
            }),
    {
        let p = self.peers[i];
        self.peers[i] = Peer { id: p.id, role: p.role, term: p.term, alive: false };
        proof {
            assert forall|a: int| final(self).is_alive_leader(a) implies final(self).peers@[a]
                == old(self).peers@[a] by {}
        }
    }

    /// Bounded failover, the claim half. Once the previous lease has lapsed
    /// and its holder is gone (released or crashed), one round in which
    /// every surviving peer re-attempts its claim ends with exactly one new
    /// Leader at the next term, every other survivor a Follower, and the
    /// group's clock untouched. Detection takes at most the lease TTL, and
    /// every peer retries within one retry interval, so this round completes
    /// within (lease TTL + one retry interval) of the leader's departure.
    #[verifier::loop_isolation(false)]
    pub fn elect(&mut self) -> (leader: Option<usize>)
        requires
            old(self).wf(),
            old(self).claim_fits(),
            old(self).key.ttl >= 1,
            old(self).key.expired(old(self).now),
            forall|j: int| !old(self).is_alive_leader(j),
        ensures
            final(self).wf(),
            final(self).now == old(self).now,
            final(self).key.ttl == old(self).key.ttl,
            final(self).peers@.len() == old(self).peers@.len(),
            forall|j: int|
                0 <= j < final(self).peers@.len() ==> #[trigger] final(self).peers@[j].id == old(self).peers@[j].id && final(self).peers@[j].alive == old(self).peers@[j].alive,
            match leader {
                Option::Some(f) => {
                    &&& f < final(self).peers@.len()
                    &&& final(self).is_alive_leader(f as int)
                    &&& final(self).peers@[f as int].term == old(self).key.last_term + 1
                    &&& final(self).key.last_term == old(self).key.last_term + 1
                    &&& final(self).key.lease == Option::Some(
                        LeaseRecord {
                            holder: final(self).peers@[f as int].id,
                            term: (old(self).key.last_term + 1) as u64,
                            expires_at: (old(self).now + old(self).key.ttl) as u64,
                        },
                    )
                    &&& forall|j: int|
                        0 <= j < final(self).peers@.len() && j != f && final(self).peers@[j].alive
                            ==> #[trigger] final(self).peers@[j].role is Follower
                    &&& exists|j: int| 0 <= j < old(self).peers@.len() && old(self).peers@[j].alive
                },
                Option::None => {
                    &&& forall|j: int|
                        0 <= j < old(self).peers@.len() ==> !(#[trigger] old(self).peers@[j].alive)
                    &&& final(self).key == old(self).key
                    &&& final(self).peers@ == old(self).peers@
                },
            },
    {
        let n = self.peers.len();
        let mut leader: Option<usize> = None;
        let mut i: usize = 0;
        while i < n
            invariant
                i <= n,
                n == self.peers@.len(),
                self.wf(),
                self.now == old(self).now,
                self.key.ttl == old(self).key.ttl,
                self.now + self.key.ttl <= u64::MAX,
                self.key.expired(self.now) ==> self.key.last_term < u64::MAX,
                self.peers@.len() == old(self).peers@.len(),
                forall|j: int|
                    0 <= j < self.peers@.len() ==> #[trigger] self.peers@[j].id == old(self).peers@[j].id && self.peers@[j].alive == old(self).peers@[j].alive,
                forall|j: int| i <= j < self.peers@.len() ==> self.peers@[j] == old(self).peers@[j],
                forall|j: int| !old(self).is_alive_leader(j),
                match leader {
                    Option::Some(f) => {
                        &&& f < i
                        &&& self.is_alive_leader(f as int)
                        &&& self.peers@[f as int].term == old(self).key.last_term + 1
                        &&& self.key.last_term == old(self).key.last_term + 1
                        &&& self.key.lease == Option::Some(
                            LeaseRecord {
                                holder: self.peers@[f as int].id,
                                term: (old(self).key.last_term + 1) as u64,
                                expires_at: (old(self).now + old(self).key.ttl) as u64,
                            },
                        )
                        &&& !self.key.expired(self.now)
                        &&& forall|j: int|
                            0 <= j < i && j != f && self.peers@[j].alive ==> #[trigger] self
                                .peers@[j].role is Follower
                    },
                    Option::None => {
                        &&& forall|j: int| 0 <= j < i ==> !(#[trigger] self.peers@[j].alive)
                        &&& self.key == old(self).key
                        &&& self.peers@ == old(self).peers@
                    },
                },
            decreases n - i,
        {
            if self.peers[i].alive {
                let ghost pre = *self;
                let won = self.attempt_claim(i);
                proof {
                    if leader is Some {
                        let f = leader->Some_0 as int;
                        assert(pre.key.lease->Some_0.holder == pre.peers@[f].id);
                        assert(pre.peers@[f].id != pre.peers@[i as int].id);
                        assert(!won);
                    }
                }
                if won {
                    proof {
                        assert(pre.key == old(self).key);
                        assert(pre.key.expired(pre.now));
                        assert(self.key.lease == Option::Some(
                            LeaseRecord {
                                holder: pre.peers@[i as int].id,
                                term: (old(self).key.last_term + 1) as u64,
                                expires_at: (old(self).now + old(self).key.ttl) as u64,
                            },
                        ));
                        assert(self.key.lease->Some_0.expires_at == old(self).now + old(self).key.ttl);
                        assert(old(self).key.ttl >= 1);
                        assert(!self.key.expired(self.now));
                    }
                    leader = Some(i);
                }
            }
            i += 1;
        }
        proof {
            if leader is None {
                assert(final(self).peers@ =~= old(self).peers@);
            } else {
                let f = leader->Some_0 as int;
                assert(0 <= f < old(self).peers@.len() && old(self).peers@[f].alive);
            }
        }
        leader
    }
}

/// Role equality as executable comparison.
pub fn roles_equal(a: Role, b: Role) -> (r: bool)
    ensures
        r == (a == b),
{
    match (a, b) {
        (Role::Candidate, Role::Candidate) => true,
        (Role::Leader, Role::Leader) => true,
        (Role::Follower, Role::Follower) => true,
        _ => false,
    }
}

/// The failover window: a lease granted or refreshed by a successful claim
/// lapses by `ttl` after the claim instant unless refreshed again. So once a
/// leader departs, the key is expired at every instant from (departure +
/// TTL) on, and `elect` — the retry round every surviving peer completes
/// within one retry interval — then ends with exactly one new leader: within
/// (lease TTL + one retry interval), as the design bounds it.
pub proof fn lemma_failover_window(pre: Group, post: Group, i: int, now: u64)
    requires
        claim_transition(pre, post, i),
        pre.key.expired(pre.now) || (pre.key.lease matches Option::Some(l) && l.holder
            == pre.peers@[i].id),
        now >= pre.now + pre.key.ttl,
    ensures
        post.key.expired(now),
{
}

/// The single-leader law: in a well-formed group, two alive peers that both
/// report Leader for the same term are the same peer.
pub proof fn lemma_single_leader_per_term(g: Group, i: int, j: int)
    requires
        g.wf(),
        g.is_alive_leader(i),
        g.is_alive_leader(j),
        g.peers@[i].term == g.peers@[j].term,
    ensures
        i == j,
{
}

} // verus!
