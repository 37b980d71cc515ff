//! The in-memory connection registry: it owns the mapping from connection
//! identifiers to live outbound channels (represented here by the set of
//! registered connection identifiers; the channels themselves are held by the
//! embedding transport layer, keyed by these identifiers), and the presence
//! bindings from durable user identifiers to connection identifiers.

use vstd::prelude::*;

verus! {

/// The registry of live connections and presence bindings.
///
/// A user holds at most one presence binding at a time; a later binding for
/// the same user overwrites the earlier one unconditionally, and the displaced
/// connection is not notified (no operation here produces any message).
pub struct ConnectionRegistry {
    conns: Vec<u128>,
    bindings: Vec<(String, u128)>,
}

spec fn conn_kept(conn: u128) -> spec_fn(u128) -> bool {
    |c: u128| c != conn
}

spec fn binding_kept(conn: u128) -> spec_fn((String, u128)) -> bool {
    |e: (String, u128)| e.1 != conn
}

impl ConnectionRegistry {
    /// Well-formedness: connection ids are distinct, and each user id has at
    /// most one binding.
    pub closed spec fn wf(self) -> bool {
        &&& forall|i: int, j: int|
            0 <= i < j < self.conns@.len() ==> self.conns@[i] != self.conns@[j]
        &&& forall|i: int, j: int|
            0 <= i < j < self.bindings@.len() ==> self.bindings@[i].0@ != self.bindings@[j].0@
    }

    /// Whether a connection id is registered (its outbound channel is live).
    pub closed spec fn is_registered(self, c: u128) -> bool {
        self.conns@.contains(c)
    }

    /// Whether a user currently has a presence binding.
    pub closed spec fn has_binding(self, u: Seq<char>) -> bool {
        exists|i: int| 0 <= i < self.bindings@.len() && self.bindings@[i].0@ == u
    }

    /// The connection a user is bound to (meaningful only when a binding exists).
    pub closed spec fn bound_conn(self, u: Seq<char>) -> u128 {
        let i = choose|i: int| 0 <= i < self.bindings@.len() && self.bindings@[i].0@ == u;
        self.bindings@[i].1
    }

    /// The current presence binding of a user, as an optional connection id.
    pub open spec fn spec_lookup(self, u: Seq<char>) -> Option<u128> {
        if self.has_binding(u) {
            Some(self.bound_conn(u))
        } else {
            None
        }
    }

    proof fn lemma_binding_at(self, i: int)
        requires
            self.wf(),
            0 <= i < self.bindings@.len(),
        ensures
            self.has_binding(self.bindings@[i].0@),
            self.bound_conn(self.bindings@[i].0@) == self.bindings@[i].1,
    {
        let u = self.bindings@[i].0@;
        assert(self.has_binding(u));
        let k = choose|k: int| 0 <= k < self.bindings@.len() && self.bindings@[k].0@ == u;
        assert(k == i);
    }

    proof fn lemma_same_bindings(a: Self, b: Self)
        requires
            a.wf(),
            a.bindings@ == b.bindings@,
        ensures
            forall|u: Seq<char>| a.spec_lookup(u) == b.spec_lookup(u),
    {
        assert forall|u: Seq<char>| a.spec_lookup(u) == b.spec_lookup(u) by {
            if a.has_binding(u) {
                let k = choose|k: int| 0 <= k < a.bindings@.len() && a.bindings@[k].0@ == u;
                assert(b.bindings@[k].0@ == u);
                assert(b.has_binding(u));
                let m = choose|m: int| 0 <= m < b.bindings@.len() && b.bindings@[m].0@ == u;
                assert(a.bindings@[m].0@ == u);
                assert(m == k);
            }
            if b.has_binding(u) {
                let m = choose|m: int| 0 <= m < b.bindings@.len() && b.bindings@[m].0@ == u;
                assert(a.bindings@[m].0@ == u);
                assert(a.has_binding(u));
            }
        }
    }

    /// An empty registry: no connections, no bindings.
    pub fn new() -> (r: Self)
        ensures
            r.wf(),
            forall|c: u128| !r.is_registered(c),
            forall|u: Seq<char>| r.spec_lookup(u) is None,
    {
        let r = ConnectionRegistry { conns: Vec::new(), bindings: Vec::new() };
        proof {
            assert forall|u: Seq<char>| !r.has_binding(u) by {}
            assert forall|c: u128| !r.is_registered(c) by {}
        }
        r
    }

    /// Registers a fresh connection. Succeeds if and only if the id is not
    /// already present; bindings are untouched either way.
    #[verifier::loop_isolation(false)]
    pub fn register(&mut self, conn: u128) -> (ok: bool)
        requires
            old(self).wf(),
        ensures
            final(self).wf(),
            ok == !old(self).is_registered(conn),
            forall|c: u128|
                final(self).is_registered(c) <==> (old(self).is_registered(c) || (ok && c == conn)),
            forall|u: Seq<char>| final(self).spec_lookup(u) == old(self).spec_lookup(u),
    {
        let mut i: usize = 0;
        while i < self.conns.len()
            invariant
                0 <= i <= self.conns@.len(),
                forall|j: int| 0 <= j < i ==> self.conns@[j] != conn,
            decreases self.conns@.len() - i,
        {
            if self.conns[i] == conn {
                proof {
                    assert(old(self).is_registered(conn));
                    Self::lemma_same_bindings(*old(self), *self);
                }
                return false;
            }
            i += 1;
        }
        assert(!old(self).is_registered(conn));
        self.conns.push(conn);
        proof {
            Self::lemma_same_bindings(*old(self), *self);
            assert forall|c: u128|
                final(self).is_registered(c) <==> (old(self).is_registered(c) || c == conn) by {
                if c == conn {
                    assert(self.conns@[self.conns@.len() - 1] == conn);
                    assert(self.conns@.contains(c));
                } else {
                    if old(self).conns@.contains(c) {
                        let k = choose|k: int|
                            0 <= k < old(self).conns@.len() && old(self).conns@[k] == c;
                        assert(self.conns@[k] == c);
                        assert(self.conns@.contains(c));
                    }
                    if self.conns@.contains(c) {
                        let k = choose|k: int| 0 <= k < self.conns@.len() && self.conns@[k] == c;
                        assert(old(self).conns@[k] == c);
                        assert(old(self).conns@.contains(c));
                    }
                }
            }
        }
        true
    }

    /// The position of a user's binding, when one exists.
    #[verifier::loop_isolation(false)]
    fn find_binding(&self, user: &String) -> (r: Option<usize>)
        requires
            self.wf(),
        ensures
            match r {
                Some(i) => i < self.bindings@.len() && self.bindings@[i as int].0@ == user@,
                None => !self.has_binding(user@),
            },
    {
        let mut i: usize = 0;
        while i < self.bindings.len()
            invariant
                0 <= i <= self.bindings@.len(),
                forall|j: int| 0 <= j < i ==> self.bindings@[j].0@ != user@,
            decreases self.bindings@.len() - i,
        {
            if self.bindings[i].0 == *user {
                return Some(i);
            }
            i += 1;
        }
        None
    }

    /// What `bind` guarantees: the user's presence becomes exactly the new
    /// connection, every other binding and every registered connection is as
    /// it was, and the displaced binding (if any) is handed back.
    pub open spec fn bind_post(pre: Self, post: Self, u: Seq<char>, conn: u128, prev: Option<
        u128,
    >) -> bool {
        &&& post.wf()
        &&& prev == pre.spec_lookup(u)
        &&& post.spec_lookup(u) == Some(conn)
        &&& forall|v: Seq<char>| v != u ==> post.spec_lookup(v) == pre.spec_lookup(v)
        &&& forall|c: u128| post.is_registered(c) == pre.is_registered(c)
    }

    /// Law: a later binding for the same user overwrites the earlier one.
    /// After binding a user to one connection and then to another, the
    /// lookup yields the second connection alone, every other user's binding
    /// is as before both calls, and the first connection is only handed back
    /// to the second caller: no registry operation produces a message, so
    /// the displaced connection receives no notification.
    pub proof fn lemma_rebind_overwrites(
        r0: Self,
        r1: Self,
        r2: Self,
        u: Seq<char>,
        c1: u128,
        c2: u128,
        p1: Option<u128>,
        p2: Option<u128>,
    )
        requires
            Self::bind_post(r0, r1, u, c1, p1),
            Self::bind_post(r1, r2, u, c2, p2),
        ensures
            r2.spec_lookup(u) == Some(c2),
            p2 == Some(c1),
            forall|v: Seq<char>| v != u ==> r2.spec_lookup(v) == r0.spec_lookup(v),
    {
    }

    /// Relies on uuid::Uuid::new_v4: a freshly drawn random identifier.
    /// Nothing is promised of a random value.
    #[verifier::external_body]
    fn fresh_socket_id() -> (r: u128) {
        uuid::Uuid::new_v4().as_u128()
    }

    /// Draws a fresh connection id for a new transport session and registers
    /// it. The draw is random, so a collision with a live id is possible; in
    /// that case nothing changes and no id is handed out.
    pub fn register_fresh(&mut self) -> (r: Option<u128>)
        requires
            old(self).wf(),
        ensures
            final(self).wf(),
            forall|u: Seq<char>| final(self).spec_lookup(u) == old(self).spec_lookup(u),
            r matches Some(c) ==> !old(self).is_registered(c) && (forall|d: u128|
                final(self).is_registered(d) <==> (old(self).is_registered(d) || d == c)),
            r is None ==> (forall|d: u128|
                final(self).is_registered(d) == old(self).is_registered(d)),
    {
        let id = Self::fresh_socket_id();
        if self.register(id) {
            Some(id)
        } else {
            None
        }
    }

    /// Binds a user to a connection, overwriting any previous binding for the
    /// same user, and returns the previous binding if one existed. No other
    /// user's binding and no registered connection is affected, and the
    /// displaced connection receives nothing.
    pub fn bind(&mut self, user: String, conn: u128) -> (prev: Option<u128>)
        requires
            old(self).wf(),
        ensures
            Self::bind_post(*old(self), *final(self), user@, conn, prev),
    {
        let ghost u = user@;
        let found = self.find_binding(&user);
        let prev: Option<u128>;
        match found {
            Some(i) => {
                proof {
                    old(self).lemma_binding_at(i as int);
                }
                let entry = self.bindings.remove(i);
                prev = Some(entry.1);
            }
            None => {
                prev = None;
            }
        }
        let ghost mid = *self;
        proof {
            // After removal the user has no binding, and every other binding
            // survives at a shifted position.
            assert forall|k: int| 0 <= k < mid.bindings@.len()
                implies mid.bindings@[k].0@ != u && old(self).bindings@.contains(mid.bindings@[k]) by {
                if let Some(i) = found {
                    if k < i as int {
                        assert(mid.bindings@[k] == old(self).bindings@[k]);
                    } else {
                        assert(mid.bindings@[k] == old(self).bindings@[k + 1]);
                    }
                } else {
                    assert(mid.bindings@[k] == old(self).bindings@[k]);
                }
            }
            assert(!mid.has_binding(u));
            assert(mid.wf()) by {
                assert forall|a: int, b: int| 0 <= a < b < mid.bindings@.len()
                    implies mid.bindings@[a].0@ != mid.bindings@[b].0@ by {
                    if let Some(i) = found {
                        let a0 = if a < i as int { a } else { a + 1 };
                        let b0 = if b < i as int { b } else { b + 1 };
                        assert(mid.bindings@[a] == old(self).bindings@[a0]);
                        assert(mid.bindings@[b] == old(self).bindings@[b0]);
                    }
                }
            }
        }
        self.bindings.push((user, conn));
        proof {
            assert(self.bindings@[self.bindings@.len() - 1].0@ == u);
            assert(self.wf()) by {
                assert forall|a: int, b: int| 0 <= a < b < self.bindings@.len()
                    implies self.bindings@[a].0@ != self.bindings@[b].0@ by {
                    if b < self.bindings@.len() - 1 {
                        assert(self.bindings@[a] == mid.bindings@[a]);
                        assert(self.bindings@[b] == mid.bindings@[b]);
                    } else {
                        assert(self.bindings@[a] == mid.bindings@[a]);
                        assert(mid.bindings@[a].0@ != u);
                    }
                }
            }
            self.lemma_binding_at(self.bindings@.len() - 1);
            assert(self.spec_lookup(u) == Some(conn));
            assert forall|v: Seq<char>| v != u
                implies self.spec_lookup(v) == old(self).spec_lookup(v) by {
                if self.has_binding(v) {
                    let k = choose|k: int|
                        0 <= k < self.bindings@.len() && self.bindings@[k].0@ == v;
                    assert(k < self.bindings@.len() - 1);
                    assert(mid.bindings@[k].0@ == v);
                    assert(old(self).bindings@.contains(mid.bindings@[k]));
                    let k0 = choose|k0: int|
                        0 <= k0 < old(self).bindings@.len()
                            && old(self).bindings@[k0] == mid.bindings@[k];
                    old(self).lemma_binding_at(k0);
                    self.lemma_binding_at(k);
                    assert(self.spec_lookup(v) == Some(mid.bindings@[k].1));
                    assert(old(self).spec_lookup(v) == Some(mid.bindings@[k].1));
                } else {
                    if old(self).has_binding(v) {
                        let k0 = choose|k0: int|
                            0 <= k0 < old(self).bindings@.len() && old(self).bindings@[k0].0@ == v;
                        // the entry for v would have survived into mid and self
                        if let Some(i) = found {
                            let k1 = if k0 < i as int { k0 } else { k0 - 1 };
                            assert(k0 != i as int);
                            assert(mid.bindings@[k1] == old(self).bindings@[k0]);
                            assert(self.bindings@[k1].0@ == v);
                            assert(self.has_binding(v));
                        } else {
                            assert(self.bindings@[k0].0@ == v);
                            assert(self.has_binding(v));
                        }
                    }
                }
            }
        }
        prev
    }

    /// Best-effort presence lookup: the connection currently bound to a user,
    /// or `None` when the user has no live binding.
    pub fn lookup(&self, user: &String) -> (r: Option<u128>)
        requires
            self.wf(),
        ensures
            r == self.spec_lookup(user@),
    {
        match self.find_binding(user) {
            Some(i) => {
                proof {
                    self.lemma_binding_at(i as int);
                }
                Some(self.bindings[i].1)
            }
            None => None,
        }
    }

    /// Whether a connection id currently has a live outbound channel.
    #[verifier::loop_isolation(false)]
    pub fn contains_conn(&self, conn: u128) -> (r: bool)
        requires
            self.wf(),
        ensures
            r == self.is_registered(conn),
    {
        let mut i: usize = 0;
        while i < self.conns.len()
            invariant
                0 <= i <= self.conns@.len(),
                forall|j: int| 0 <= j < i ==> self.conns@[j] != conn,
            decreases self.conns@.len() - i,
        {
            if self.conns[i] == conn {
                return true;
            }
            i += 1;
        }
        false
    }

    /// Removes a connection and every presence binding that points at it.
    /// Invoked when a transport closes or errors, so that no stale entry can
    /// direct a later delivery at a dead channel.
    #[verifier::loop_isolation(false)]
    pub fn unregister(&mut self, conn: u128)
        requires
            old(self).wf(),
        ensures
            final(self).wf(),
            forall|c: u128|
                final(self).is_registered(c) <==> (old(self).is_registered(c) && c != conn),
            forall|u: Seq<char>|
                final(self).spec_lookup(u) == (if old(self).spec_lookup(u) == Some(conn) {
                    None::<u128>
                } else {
                    old(self).spec_lookup(u)
                }),
    {
        let ghost cf = conn_kept(conn);
        let ghost bf = binding_kept(conn);
        let mut new_conns: Vec<u128> = Vec::new();
        let mut i: usize = 0;
        proof {
            reveal(Seq::filter);
            assert(self.conns@.take(0).filter(cf) =~= new_conns@);
        }
        while i < self.conns.len()
            invariant
                0 <= i <= self.conns@.len(),
                new_conns@ == self.conns@.take(i as int).filter(cf),
            decreases self.conns@.len() - i,
        {
            proof {
                reveal(Seq::filter);
                assert(self.conns@.take(i + 1).drop_last() =~= self.conns@.take(i as int));
                assert(self.conns@.take(i + 1).last() == self.conns@[i as int]);
            }
            let c = self.conns[i];
            if c != conn {
                new_conns.push(c);
            }
            i += 1;
        }
        proof {
            assert(self.conns@.take(self.conns@.len() as int) =~= self.conns@);
        }
        let mut new_bindings: Vec<(String, u128)> = Vec::new();
        let mut k: usize = 0;
        proof {
            reveal(Seq::filter);
            assert(self.bindings@.take(0).filter(bf) =~= new_bindings@);
        }
        while k < self.bindings.len()
            invariant
                0 <= k <= self.bindings@.len(),
                new_bindings@ == self.bindings@.take(k as int).filter(bf),
            decreases self.bindings@.len() - k,
        {
            proof {
                reveal(Seq::filter);
                assert(self.bindings@.take(k + 1).drop_last() =~= self.bindings@.take(k as int));
                assert(self.bindings@.take(k + 1).last() == self.bindings@[k as int]);
            }
            if self.bindings[k].1 != conn {
                let entry = (self.bindings[k].0.clone(), self.bindings[k].1);
                proof {
                    assert(entry == self.bindings@[k as int]);
                }
                new_bindings.push(entry);
            }
            k += 1;
        }
        proof {
            assert(self.bindings@.take(self.bindings@.len() as int) =~= self.bindings@);
        }
        self.conns = new_conns;
        self.bindings = new_bindings;
        proof {
            self.lemma_after_retain(*old(self), conn);
        }
    }

    proof fn lemma_after_retain(self, pre: Self, conn: u128)
        requires
            pre.wf(),
            self.conns@ == pre.conns@.filter(conn_kept(conn)),
            self.bindings@ == pre.bindings@.filter(binding_kept(conn)),
        ensures
            self.wf(),
            forall|c: u128| self.is_registered(c) <==> (pre.is_registered(c) && c != conn),
            forall|u: Seq<char>|
                self.spec_lookup(u) == (if pre.spec_lookup(u) == Some(conn) {
                    None::<u128>
                } else {
                    pre.spec_lookup(u)
                }),
    {
        let cf = conn_kept(conn);
        let bf = binding_kept(conn);
        pre.conns@.filter_lemma(cf);
        pre.bindings@.filter_lemma(bf);
        assert forall|i: int, j: int| 0 <= i < j < self.conns@.len()
            implies self.conns@[i] != self.conns@[j] by {
            lemma_filter_distinct::<u128>(pre.conns@, cf, i, j);
        }
        assert forall|i: int, j: int| 0 <= i < j < self.bindings@.len()
            implies self.bindings@[i].0@ != self.bindings@[j].0@ by {
            lemma_filter_distinct_keys(pre.bindings@, bf, i, j);
        }
        assert forall|c: u128|
            self.is_registered(c) <==> (pre.is_registered(c) && c != conn) by {
            if pre.conns@.contains(c) && c != conn {
                let k = choose|k: int| 0 <= k < pre.conns@.len() && pre.conns@[k] == c;
                lemma_filter_keeps::<u128>(pre.conns@, cf, k);
            }
            if self.conns@.contains(c) {
                let k = choose|k: int| 0 <= k < self.conns@.len() && self.conns@[k] == c;
                lemma_filter_elem_of::<u128>(pre.conns@, cf, k);
                assert(pre.conns@.contains(self.conns@[k]) && cf(self.conns@[k]));
            }
        }
        assert forall|u: Seq<char>|
            self.spec_lookup(u) == (if pre.spec_lookup(u) == Some(conn) {
                None::<u128>
            } else {
                pre.spec_lookup(u)
            }) by {
            if pre.has_binding(u) {
                let k = choose|k: int|
                    0 <= k < pre.bindings@.len() && pre.bindings@[k].0@ == u;
                pre.lemma_binding_at(k);
                if pre.bindings@[k].1 != conn {
                    lemma_filter_keeps(pre.bindings@, bf, k);
                    let m = choose|m: int|
                        0 <= m < self.bindings@.len() && self.bindings@[m] == pre.bindings@[k];
                    assert(self.bindings@[m].0@ == u);
                    self.lemma_binding_at(m);
                } else {
                    if self.has_binding(u) {
                        let m = choose|m: int|
                            0 <= m < self.bindings@.len() && self.bindings@[m].0@ == u;
                        lemma_filter_elem_of(pre.bindings@, bf, m);
                        assert(pre.bindings@.contains(self.bindings@[m]) && bf(self.bindings@[m]));
                        let k2 = choose|k2: int|
                            0 <= k2 < pre.bindings@.len() && pre.bindings@[k2] == self.bindings@[m];
                        assert(pre.bindings@[k2].0@ == u);
                        assert(k2 == k);
                        assert(false);
                    }
                }
            } else {
                if self.has_binding(u) {
                    let m = choose|m: int|
                        0 <= m < self.bindings@.len() && self.bindings@[m].0@ == u;
                    lemma_filter_elem_of(pre.bindings@, bf, m);
                    assert(pre.bindings@.contains(self.bindings@[m]));
                    let k2 = choose|k2: int|
                        0 <= k2 < pre.bindings@.len() && pre.bindings@[k2] == self.bindings@[m];
                    assert(pre.bindings@[k2].0@ == u);
                    assert(false);
                }
            }
        }
    }
}

/// Every element of a filtered sequence comes from the original sequence.
proof fn lemma_filter_elem_of<T>(s: Seq<T>, f: spec_fn(T) -> bool, k: int)
    requires
        0 <= k < s.filter(f).len(),
    ensures
        s.contains(s.filter(f)[k]),
    decreases s.len(),
{
    reveal(Seq::filter);
    if s.len() > 0 {
        let prefix = s.drop_last();
        if f(s.last()) && k == s.filter(f).len() - 1 {
            assert(s.filter(f)[k] == s.last());
            assert(s[s.len() - 1] == s.last());
        } else {
            lemma_filter_elem_of(prefix, f, k);
            assert(s.filter(f)[k] == prefix.filter(f)[k]);
            let m = choose|m: int| 0 <= m < prefix.len() && prefix[m] == prefix.filter(f)[k];
            assert(s[m] == prefix.filter(f)[k]);
        }
    }
}

/// Filtering keeps every element that satisfies the predicate.
proof fn lemma_filter_keeps<T>(s: Seq<T>, f: spec_fn(T) -> bool, k: int)
    requires
        0 <= k < s.len(),
        f(s[k]),
    ensures
        s.filter(f).contains(s[k]),
    decreases s.len(),
{
    reveal(Seq::filter);
    s.filter_lemma(f);
    if s.len() > 0 {
        if k == s.len() - 1 {
            assert(s.filter(f).last() == s[k]);
        } else {
            lemma_filter_keeps(s.drop_last(), f, k);
            let m = choose|m: int|
                0 <= m < s.drop_last().filter(f).len() && s.drop_last().filter(f)[m] == s[k];
            if f(s.last()) {
                assert(s.filter(f)[m] == s[k]);
            }
        }
    }
}

/// Filtering a sequence of distinct elements yields distinct elements.
proof fn lemma_filter_distinct<T>(s: Seq<T>, f: spec_fn(T) -> bool, i: int, j: int)
    requires
        forall|a: int, b: int| 0 <= a < b < s.len() ==> s[a] != s[b],
        0 <= i < j < s.filter(f).len(),
    ensures
        s.filter(f)[i] != s.filter(f)[j],
    decreases s.len(),
{
    reveal(Seq::filter);
    s.filter_lemma(f);
    if s.len() > 0 {
        let prefix = s.drop_last();
        let last = s.last();
        prefix.filter_lemma(f);
        assert(forall|a: int, b: int|
            0 <= a < b < prefix.len() ==> prefix[a] != prefix[b]);
        if f(last) {
            assert(s.filter(f) == prefix.filter(f).push(last));
            if j < s.filter(f).len() - 1 {
                lemma_filter_distinct(prefix, f, i, j);
                assert(s.filter(f)[i] == prefix.filter(f)[i]);
                assert(s.filter(f)[j] == prefix.filter(f)[j]);
            } else {
                assert(s.filter(f)[j] == last);
                assert(s.filter(f)[i] == prefix.filter(f)[i]);
                lemma_filter_elem_of(prefix, f, i);
                assert(prefix.contains(prefix.filter(f)[i]));
                let m = choose|m: int| 0 <= m < prefix.len() && prefix[m] == prefix.filter(f)[i];
                assert(s[m] == prefix.filter(f)[i]);
                assert(s[m] != s[s.len() - 1]);
            }
        } else {
            assert(s.filter(f) == prefix.filter(f));
            lemma_filter_distinct(prefix, f, i, j);
        }
    }
}

/// The same, for the user-id keys of binding entries.
proof fn lemma_filter_distinct_keys(
    s: Seq<(String, u128)>,
    f: spec_fn((String, u128)) -> bool,
    i: int,
    j: int,
)
    requires
        forall|a: int, b: int| 0 <= a < b < s.len() ==> s[a].0@ != s[b].0@,
        0 <= i < j < s.filter(f).len(),
    ensures
        s.filter(f)[i].0@ != s.filter(f)[j].0@,
    decreases s.len(),
{
    reveal(Seq::filter);
    s.filter_lemma(f);
    if s.len() > 0 {
        let prefix = s.drop_last();
        let last = s.last();
        prefix.filter_lemma(f);
        assert(forall|a: int, b: int|
            0 <= a < b < prefix.len() ==> prefix[a].0@ != prefix[b].0@);
        if f(last) {
            assert(s.filter(f) == prefix.filter(f).push(last));
            if j < s.filter(f).len() - 1 {
                lemma_filter_distinct_keys(prefix, f, i, j);
                assert(s.filter(f)[i] == prefix.filter(f)[i]);
                assert(s.filter(f)[j] == prefix.filter(f)[j]);
            } else {
                assert(s.filter(f)[j] == last);
                assert(s.filter(f)[i] == prefix.filter(f)[i]);
                lemma_filter_elem_of(prefix, f, i);
                assert(prefix.contains(prefix.filter(f)[i]));
                let m = choose|m: int| 0 <= m < prefix.len() && prefix[m] == prefix.filter(f)[i];
                assert(s[m] == prefix.filter(f)[i]);
                assert(s[m].0@ != s[s.len() - 1].0@);
            }
        } else {
            assert(s.filter(f) == prefix.filter(f));
            lemma_filter_distinct_keys(prefix, f, i, j);
        }
    }
}

} // verus!
