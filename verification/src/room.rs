//! Durable room state: a shareable code, the host's user id, and an ordered
//! participant list. The list never contains the host and never contains a
//! duplicate; adding a participant is idempotent.

use vstd::prelude::*;

verus! {

/// A room record as the durable store keeps it.
pub struct Room {
    pub code: String,
    pub host_id: String,
    pub participants: Vec<String>,
}

impl Room {
    /// The participant list as a sequence of user ids.
    pub open spec fn ids(self) -> Seq<Seq<char>> {
        self.participants@.map_values(|p: String| p@)
    }

    /// Well-formedness: no duplicate participants, and the host is not listed
    /// as a participant.
    pub open spec fn wf(self) -> bool {
        &&& forall|i: int, j: int| 0 <= i < j < self.ids().len() ==> self.ids()[i] != self.ids()[j]
        &&& forall|i: int| 0 <= i < self.ids().len() ==> self.ids()[i] != self.host_id@
    }

    /// Whether a user is currently on the participant list.
    pub open spec fn has_participant(self, u: Seq<char>) -> bool {
        exists|i: int| 0 <= i < self.ids().len() && self.ids()[i] == u
    }

    /// The position of a participant (meaningful only when present and the
    /// room is well formed).
    pub closed spec fn index_of(self, u: Seq<char>) -> int {
        choose|i: int| 0 <= i < self.ids().len() && self.ids()[i] == u
    }

    proof fn lemma_participant_at(self, i: int)
        requires
            self.wf(),
            0 <= i < self.ids().len(),
        ensures
            self.has_participant(self.ids()[i]),
            self.index_of(self.ids()[i]) == i,
    {
        let u = self.ids()[i];
        assert(self.has_participant(u));
        let k = choose|k: int| 0 <= k < self.ids().len() && self.ids()[k] == u;
        assert(k == i);
    }

    /// The position of a present participant is in range and holds it.
    pub proof fn lemma_index_of(self, u: Seq<char>)
        requires
            self.wf(),
            self.has_participant(u),
        ensures
            0 <= self.index_of(u) < self.ids().len(),
            self.ids()[self.index_of(u)] == u,
    {
    }

    /// Two rooms with the same participant sequence agree on membership and
    /// on the position of each member.
    pub proof fn lemma_same_ids(a: Room, b: Room, u: Seq<char>)
        requires
            a.wf(),
            a.ids() == b.ids(),
        ensures
            a.has_participant(u) == b.has_participant(u),
            a.has_participant(u) ==> a.index_of(u) == b.index_of(u),
    {
        if a.has_participant(u) {
            let k = choose|k: int| 0 <= k < a.ids().len() && a.ids()[k] == u;
            assert(b.ids()[k] == u);
            assert(b.has_participant(u));
            a.lemma_index_of(u);
            let ib = choose|i: int| 0 <= i < b.ids().len() && b.ids()[i] == u;
            assert(a.ids()[ib] == u);
            assert(b.index_of(u) == ib);
        }
        if b.has_participant(u) {
            let k = choose|k: int| 0 <= k < b.ids().len() && b.ids()[k] == u;
            assert(a.ids()[k] == u);
            assert(a.has_participant(u));
        }
    }

    /// Creates a room with the given code and host and no participants.
    pub fn new(code: String, host_id: String) -> (r: Room)
        ensures
            r.wf(),
            r.code == code,
            r.host_id == host_id,
            r.ids() =~= Seq::<Seq<char>>::empty(),
    {
        Room { code, host_id, participants: Vec::new() }
    }

    /// Whether a user id is on the participant list.
    #[verifier::loop_isolation(false)]
    pub fn contains_participant(&self, user: &String) -> (r: bool)
        ensures
            r == self.has_participant(user@),
    {
        let mut i: usize = 0;
        while i < self.participants.len()
            invariant
                0 <= i <= self.ids().len(),
                forall|j: int| 0 <= j < i ==> self.ids()[j] != user@,
            decreases self.ids().len() - i,
        {
            if self.participants[i] == *user {
                assert(self.ids()[i as int] == user@);
                return true;
            }
            i += 1;
        }
        false
    }

    /// A copy with the same code, host and participant sequence.
    #[verifier::loop_isolation(false)]
    pub fn duplicate(&self) -> (r: Room)
        ensures
            r.code == self.code,
            r.host_id == self.host_id,
            r.ids() == self.ids(),
            self.wf() ==> r.wf(),
    {
        let mut ps: Vec<String> = Vec::new();
        let mut i: usize = 0;
        while i < self.participants.len()
            invariant
                0 <= i <= self.ids().len(),
                ps@.len() == i,
                forall|j: int| 0 <= j < i ==> ps@[j] == self.participants@[j],
            decreases self.ids().len() - i,
        {
            ps.push(self.participants[i].clone());
            i += 1;
        }
        let r = Room { code: self.code.clone(), host_id: self.host_id.clone(), participants: ps };
        proof {
            assert(r.ids() =~= self.ids());
        }
        r
    }

    /// Whether a record satisfies the room invariant; the embedder checks
    /// each record it loads from the store before handing it to a handler,
    /// and drops the message when a stored record violates the invariant —
    /// a state the store's own operations never produce.
    #[verifier::loop_isolation(false)]
    pub fn check_wf(&self) -> (r: bool)
        ensures
            r == self.wf(),
    {
        let mut i: usize = 0;
        while i < self.participants.len()
            invariant
                0 <= i <= self.ids().len(),
                forall|a: int, b: int| 0 <= a < b < i ==> self.ids()[a] != self.ids()[b],
                forall|a: int| 0 <= a < i ==> self.ids()[a] != self.host_id@,
            decreases self.ids().len() - i,
        {
            if self.participants[i] == self.host_id {
                assert(self.ids()[i as int] == self.host_id@);
                return false;
            }
            let mut j: usize = 0;
            while j < i
                invariant
                    0 <= j <= i < self.ids().len(),
                    forall|a: int| 0 <= a < j ==> self.ids()[a] != self.ids()[i as int],
                decreases i - j,
            {
                if self.participants[j] == self.participants[i] {
                    assert(self.ids()[j as int] == self.ids()[i as int]);
                    return false;
                }
                j += 1;
            }
            i += 1;
        }
        true
    }

    /// What `add_participant` guarantees: the store's set-insert semantics.
    pub open spec fn add_post(pre: Room, post: Room, u: Seq<char>) -> bool {
        &&& post.wf()
        &&& post.code == pre.code
        &&& post.host_id == pre.host_id
        &&& post.ids() == (if pre.has_participant(u) || u == pre.host_id@ {
            pre.ids()
        } else {
            pre.ids().push(u)
        })
    }

    /// Law: adding a participant is idempotent. Adding the same user twice
    /// leaves the list exactly as one addition leaves it, and a user other
    /// than the host is then on the list at exactly one position. (The host
    /// itself is never added: the invariant keeps it off the list.)
    pub proof fn lemma_add_participant_idempotent(r0: Room, r1: Room, r2: Room, u: Seq<char>)
        requires
            r0.wf(),
            Room::add_post(r0, r1, u),
            Room::add_post(r1, r2, u),
            u != r0.host_id@,
        ensures
            r2.ids() == r1.ids(),
            r1.has_participant(u),
            forall|i: int, j: int|
                (0 <= i < r2.ids().len() && 0 <= j < r2.ids().len() && r2.ids()[i] == u
                    && r2.ids()[j] == u) ==> i == j,
    {
        if r0.has_participant(u) {
            let k = choose|k: int| 0 <= k < r0.ids().len() && r0.ids()[k] == u;
            assert(r1.ids()[k] == u);
            assert(r1.has_participant(u));
        } else {
            assert(r1.ids() == r0.ids().push(u));
            assert(r1.ids()[r1.ids().len() - 1] == u);
            assert(r1.has_participant(u));
        }
    }

    /// Adds a user to the participant list, as the store's set-insert does:
    /// a user already present is not added again, so the operation is
    /// idempotent; the host is never added, which keeps the room well formed.
    pub fn add_participant(&mut self, user: String)
        requires
            old(self).wf(),
        ensures
            Room::add_post(*old(self), *final(self), user@),
            final(self).has_participant(user@) <==> (old(self).has_participant(user@) || user@
                != old(self).host_id@),
    {
        if self.host_id == user {
            return ;
        }
        if self.contains_participant(&user) {
            return ;
        }
        self.participants.push(user);
        proof {
            assert(self.ids() =~= old(self).ids().push(user@));
            assert(self.ids()[self.ids().len() - 1] == user@);
            assert(self.has_participant(user@));
            assert forall|i: int, j: int| 0 <= i < j < self.ids().len()
                implies self.ids()[i] != self.ids()[j] by {
                if j < self.ids().len() - 1 {
                    assert(self.ids()[i] == old(self).ids()[i]);
                    assert(self.ids()[j] == old(self).ids()[j]);
                } else {
                    assert(self.ids()[i] == old(self).ids()[i]);
                    assert(!old(self).has_participant(user@));
                }
            }
        }
    }

    /// Removes a user from the participant list, as the store's pull does.
    /// Every other entry keeps its position and relative order.
    #[verifier::loop_isolation(false)]
    pub fn remove_participant(&mut self, user: &String)
        requires
            old(self).wf(),
        ensures
            final(self).wf(),
            final(self).code == old(self).code,
            final(self).host_id == old(self).host_id,
            !final(self).has_participant(user@),
            final(self).ids() == (if old(self).has_participant(user@) {
                old(self).ids().remove(old(self).index_of(user@))
            } else {
                old(self).ids()
            }),
    {
        let mut i: usize = 0;
        while i < self.participants.len()
            invariant
                0 <= i <= self.ids().len(),
                forall|j: int| 0 <= j < i ==> self.ids()[j] != user@,
                *self == *old(self),
            decreases self.ids().len() - i,
        {
            if self.participants[i] == *user {
                proof {
                    old(self).lemma_participant_at(i as int);
                }
                self.participants.remove(i);
                proof {
                    assert(self.ids() =~= old(self).ids().remove(i as int));
                    assert forall|k: int| 0 <= k < self.ids().len()
                        implies self.ids()[k] != user@ by {
                        if k < i as int {
                            assert(self.ids()[k] == old(self).ids()[k]);
                        } else {
                            assert(self.ids()[k] == old(self).ids()[k + 1]);
                        }
                    }
                    assert forall|a: int, b: int| 0 <= a < b < self.ids().len()
                        implies self.ids()[a] != self.ids()[b] by {
                        let a0 = if a < i as int { a } else { a + 1 };
                        let b0 = if b < i as int { b } else { b + 1 };
                        assert(self.ids()[a] == old(self).ids()[a0]);
                        assert(self.ids()[b] == old(self).ids()[b0]);
                    }
                    assert forall|k: int| 0 <= k < self.ids().len()
                        implies self.ids()[k] != self.host_id@ by {
                        let k0 = if k < i as int { k } else { k + 1 };
                        assert(self.ids()[k] == old(self).ids()[k0]);
                    }
                }
                return ;
            }
            i += 1;
        }
    }
}

} // verus!
