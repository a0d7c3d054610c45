//! The table of authenticated connections, and the planning side of the
//! broadcast fan-out: who receives a message, and who is evicted after it.
//!
//! Each live connection is known by an identity that the server hands out on
//! accept. The registry never writes to a connection itself: the server writes
//! the message to each of `recipients(author)`, then passes the ones whose
//! write failed to `evict`, so nothing is removed while the fan-out runs.
use vstd::prelude::*;

verus! {

/// The identity of one accepted connection.
pub type ConnId = u64;

struct Entry<H> {
    id: ConnId,
    username: String,
    handle: H,
}

/// The sessions of all connections that have logged in and not yet failed or
/// closed, each with its user name and the handle to write to it.
///
/// The sessions are kept in a vector, one per identity, in the order they
/// registered: `recipients` walks them in that order, where a hash map would
/// walk them in an order that its per-process hasher chooses and that no
/// contract could state.
pub struct Registry<H> {
    entries: Vec<Entry<H>>,
}

spec fn unique_ids<H>(s: Seq<Entry<H>>) -> bool {
    forall|i: int, j: int|
        0 <= i < s.len() && 0 <= j < s.len() && #[trigger] s[i].id == #[trigger] s[j].id ==> i
            == j
}

spec fn has_id<H>(s: Seq<Entry<H>>, k: ConnId) -> bool {
    exists|i: int| 0 <= i < s.len() && #[trigger] s[i].id == k
}

spec fn slot_of<H>(s: Seq<Entry<H>>, k: ConnId) -> int {
    choose|i: int| 0 <= i < s.len() && #[trigger] s[i].id == k
}

spec fn model<H>(s: Seq<Entry<H>>) -> Map<ConnId, (Seq<char>, H)> {
    Map::new(
        |k: ConnId| has_id(s, k),
        |k: ConnId| (s[slot_of(s, k)].username@, s[slot_of(s, k)].handle),
    )
}

proof fn lemma_slot<H>(s: Seq<Entry<H>>, i: int)
    requires
        unique_ids(s),
        0 <= i < s.len(),
    ensures
        has_id(s, s[i].id),
        slot_of(s, s[i].id) == i,
        model(s).contains_key(s[i].id),
        model(s)[s[i].id] == (s[i].username@, s[i].handle),
{
    assert(has_id(s, s[i].id));
    let j = slot_of(s, s[i].id);
    assert(s[j].id == s[i].id);
}

proof fn lemma_push<H>(s: Seq<Entry<H>>, e: Entry<H>)
    requires
        unique_ids(s),
        !has_id(s, e.id),
    ensures
        unique_ids(s.push(e)),
        model(s.push(e)) == model(s).insert(e.id, (e.username@, e.handle)),
{
    let t = s.push(e);
    assert forall|i: int, j: int|
        0 <= i < t.len() && 0 <= j < t.len() && #[trigger] t[i].id == #[trigger] t[j].id implies i
        == j by {
        if i < s.len() && j < s.len() {
            assert(s[i].id == s[j].id);
        } else if i < s.len() {
            assert(s[i].id == e.id);
        } else if j < s.len() {
            assert(s[j].id == e.id);
        }
    }
    let expect = model(s).insert(e.id, (e.username@, e.handle));
    assert forall|k: ConnId| #[trigger] model(t).contains_key(k) == expect.contains_key(k) by {
        if has_id(t, k) && k != e.id {
            let i = slot_of(t, k);
            assert(s[i].id == k);
        }
        if has_id(s, k) {
            let i = slot_of(s, k);
            assert(t[i].id == k);
        }
        if k == e.id {
            assert(t[s.len() as int].id == k);
        }
    }
    assert forall|k: ConnId| #[trigger] model(t).contains_key(k) implies model(t)[k]
        == expect[k] by {
        let i = slot_of(t, k);
        lemma_slot(t, i);
        if k != e.id {
            assert(i < s.len());
            assert(s[i] == t[i]);
            lemma_slot(s, i);
        }
    }
    assert(model(t) =~= expect);
}

proof fn lemma_remove<H>(s: Seq<Entry<H>>, i: int)
    requires
        unique_ids(s),
        0 <= i < s.len(),
    ensures
        unique_ids(s.remove(i)),
        model(s.remove(i)) == model(s).remove(s[i].id),
{
    let t = s.remove(i);
    let gone = s[i].id;
    assert forall|a: int, b: int|
        0 <= a < t.len() && 0 <= b < t.len() && #[trigger] t[a].id == #[trigger] t[b].id implies a
        == b by {
        let a2 = if a < i { a } else { a + 1 };
        let b2 = if b < i { b } else { b + 1 };
        assert(s[a2].id == s[b2].id);
    }
    let expect = model(s).remove(gone);
    assert forall|k: ConnId| #[trigger] model(t).contains_key(k) == expect.contains_key(k) by {
        if has_id(t, k) {
            let a = slot_of(t, k);
            let a2 = if a < i { a } else { a + 1 };
            assert(s[a2].id == k);
            assert(a2 != i);
        }
        if has_id(s, k) && k != gone {
            let a = slot_of(s, k);
            assert(a != i);
            let a2 = if a < i { a } else { a - 1 };
            assert(t[a2].id == k);
        }
    }
    assert forall|k: ConnId| #[trigger] model(t).contains_key(k) implies model(t)[k]
        == expect[k] by {
        let a = slot_of(t, k);
        lemma_slot(t, a);
        let a2 = if a < i { a } else { a + 1 };
        assert(s[a2] == t[a]);
        lemma_slot(s, a2);
    }
    assert(model(t) =~= expect);
}

/// The identities that a broadcast by `author` reaches: every registered one
/// but the author's.
pub open spec fn recipients_of<H>(m: Map<ConnId, (Seq<char>, H)>, author: ConnId) -> Set<
    ConnId,
> {
    m.dom().remove(author)
}

/// Once the sessions whose writes failed during a broadcast are evicted, no
/// later broadcast, by any author, is written to them; every other recipient of
/// that broadcast keeps its session as it was.
pub proof fn lemma_evicted_excluded<H>(
    m: Map<ConnId, (Seq<char>, H)>,
    author: ConnId,
    failed: Set<ConnId>,
    next_author: ConnId,
)
    ensures
        recipients_of(m.remove_keys(failed), next_author).disjoint(failed),
        forall|k: ConnId|
            recipients_of(m, author).contains(k) && !failed.contains(k) ==> (
            #[trigger] m.remove_keys(failed).contains_key(k) && m.remove_keys(failed)[k] == m[k]),
{
}

impl<H> View for Registry<H> {
    type V = Map<ConnId, (Seq<char>, H)>;

    closed spec fn view(&self) -> Map<ConnId, (Seq<char>, H)> {
        model(self.entries@)
    }
}

impl<H> Registry<H> {
    /// Every registry keeps one session per identity.
    #[verifier::type_invariant]
    spec fn wf(&self) -> bool {
        unique_ids(self.entries@)
    }

    /// An empty registry.
    pub fn new() -> (r: Registry<H>)
        ensures
            r@ == Map::<ConnId, (Seq<char>, H)>::empty(),
    {
        let r = Registry { entries: Vec::new() };
        assert(r@ =~= Map::<ConnId, (Seq<char>, H)>::empty());
        r
    }

    /// The number of live sessions.
    pub fn len(&self) -> (r: usize)
        ensures
            r == self@.len(),
    {
        proof {
            use_type_invariant(self);
            self.lemma_len();
        }
        self.entries.len()
    }

    proof fn lemma_len(&self)
        requires
            unique_ids(self.entries@),
        ensures
            self@.len() == self.entries@.len(),
        decreases self.entries@.len(),
    {
        let s = self.entries@;
        let f = |i: int| s[i].id;
        let idx = Set::new(|i: int| 0 <= i < s.len());
        assert forall|k: ConnId| #[trigger] self@.dom().contains(k) == idx.map(f).contains(k) by {
            if has_id(s, k) {
                let i = slot_of(s, k);
                assert(idx.contains(i) && f(i) == k);
            }
            if idx.map(f).contains(k) {
                let i = choose|i: int| idx.contains(i) && #[trigger] f(i) == k;
                assert(s[i].id == k);
            }
        }
        assert(self@.dom() =~= idx.map(f));
        vstd::set_lib::lemma_int_range(0, s.len() as int);
        assert(idx =~= vstd::set_lib::set_int_range(0, s.len() as int));
        assert(vstd::relations::injective_on(f, idx)) by {
            assert forall|a: int, b: int| idx.contains(a) && idx.contains(b) && #[trigger] f(a)
                == #[trigger] f(b) implies a == b by {
                assert(s[a].id == s[b].id);
            }
        }
        vstd::set_lib::lemma_map_size(idx, self@.dom(), f);
    }

    fn find(&self, id: ConnId) -> (r: Option<usize>)
        ensures
            match r {
                Some(i) => i < self.entries@.len() && self.entries@[i as int].id == id,
                None => !self@.contains_key(id),
            },
    {
        let mut i: usize = 0;
        while i < self.entries.len()
            invariant
                i <= self.entries@.len(),
                forall|j: int| 0 <= j < i ==> #[trigger] self.entries@[j].id != id,
            decreases self.entries@.len() - i,
        {
            if self.entries[i].id == id {
                return Some(i);
            }
            i = i + 1;
        }
        None
    }

    /// Whether `id` has a live session.
    pub fn contains(&self, id: ConnId) -> (r: bool)
        ensures
            r == self@.contains_key(id),
    {
        proof {
            use_type_invariant(self);
        }
        match self.find(id) {
            Some(i) => {
                proof {
                    lemma_slot(self.entries@, i as int);
                }
                true
            },
            None => false,
        }
    }

    /// The user name that `id` logged in with.
    pub fn username(&self, id: ConnId) -> (r: Option<&String>)
        ensures
            self@.contains_key(id) ==> (r matches Some(u) && u@ == self@[id].0),
            !self@.contains_key(id) ==> r is None,
    {
        proof {
            use_type_invariant(self);
        }
        match self.find(id) {
            Some(i) => {
                proof {
                    lemma_slot(self.entries@, i as int);
                }
                Some(&self.entries[i].username)
            },
            None => None,
        }
    }

    /// The handle to write to `id`.
    pub fn handle(&self, id: ConnId) -> (r: Option<&H>)
        ensures
            self@.contains_key(id) ==> (r matches Some(h) && *h == self@[id].1),
            !self@.contains_key(id) ==> r is None,
    {
        proof {
            use_type_invariant(self);
        }
        match self.find(id) {
            Some(i) => {
                proof {
                    lemma_slot(self.entries@, i as int);
                }
                Some(&self.entries[i].handle)
            },
            None => None,
        }
    }

    /// Removes the session of `id`; nothing happens if there is none.
    pub fn remove(&mut self, id: ConnId)
        ensures
            final(self)@ == old(self)@.remove(id),
    {
        proof {
            use_type_invariant(&*self);
        }
        match self.find(id) {
            Some(i) => {
                let mut entries = Vec::new();
                std::mem::swap(&mut entries, &mut self.entries);
                proof {
                    lemma_remove(entries@, i as int);
                }
                entries.remove(i);
                self.entries = entries;
            },
            None => {
                assert(self@ =~= old(self)@.remove(id));
            },
        }
    }

    /// Registers `id` as logged in under `username`, writing through `handle`;
    /// a session already held by `id` is replaced.
    pub fn add(&mut self, id: ConnId, username: String, handle: H)
        ensures
            final(self)@ == old(self)@.insert(id, (username@, handle)),
    {
        self.remove(id);
        proof {
            use_type_invariant(&*self);
        }
        let mut entries = Vec::new();
        std::mem::swap(&mut entries, &mut self.entries);
        let ghost before = entries@;
        let e = Entry { id, username, handle };
        proof {
            assert(!model(before).contains_key(id));
            assert(!has_id(before, id));
            lemma_push(before, e);
        }
        entries.push(e);
        assert(entries@ == before.push(e));
        self.entries = entries;
        assert(self@ =~= old(self)@.insert(id, (e.username@, handle)));
    }

    /// The identities a broadcast by `author` must be written to: every live
    /// session except the author's, each exactly once.
    pub fn recipients(&self, author: ConnId) -> (r: Vec<ConnId>)
        ensures
            r@.no_duplicates(),
            r@.to_set() == recipients_of(self@, author),
    {
        proof {
            use_type_invariant(self);
        }
        let ghost s = self.entries@;
        let mut out: Vec<ConnId> = Vec::new();
        let mut i: usize = 0;
        while i < self.entries.len()
            invariant
                s == self.entries@,
                unique_ids(s),
                i <= s.len(),
                out@.no_duplicates(),
                forall|k: ConnId|
                    #[trigger] out@.contains(k) <==> (k != author && exists|j: int|
                        0 <= j < i && #[trigger] s[j].id == k),
            decreases s.len() - i,
        {
            let id = self.entries[i].id;
            if id != author {
                proof {
                    if out@.contains(id) {
                        let j = choose|j: int| 0 <= j < i && #[trigger] s[j].id == id;
                        assert(s[j].id == s[i as int].id);
                    }
                }
                let ghost prev = out@;
                out.push(id);
                proof {
                    assert(out@ == prev.push(id));
                    assert forall|k: ConnId| #[trigger] out@.contains(k) <==> (k != author
                        && exists|j: int| 0 <= j < i + 1 && #[trigger] s[j].id == k) by {
                        if out@.contains(k) && k != id {
                            let t = choose|t: int| 0 <= t < out@.len() && #[trigger] out@[t] == k;
                            assert(t < prev.len());
                            assert(prev[t] == k);
                            assert(prev.contains(k));
                        }
                        if k == id {
                            assert(out@[prev.len() as int] == k);
                            assert(s[i as int].id == k);
                        }
                        if k != author && k != id && exists|j: int|
                            0 <= j < i + 1 && #[trigger] s[j].id == k {
                            let j = choose|j: int| 0 <= j < i + 1 && #[trigger] s[j].id == k;
                            assert(j < i);
                            assert(prev.contains(k));
                            let t = choose|t: int| 0 <= t < prev.len() && #[trigger] prev[t] == k;
                            assert(out@[t] == k);
                        }
                    }
                }
            } else {
                proof {
                    assert forall|k: ConnId| #[trigger] out@.contains(k) <==> (k != author
                        && exists|j: int| 0 <= j < i + 1 && #[trigger] s[j].id == k) by {
                        if out@.contains(k) {
                            let j = choose|j: int| 0 <= j < i && #[trigger] s[j].id == k;
                            assert(0 <= j < i + 1 && s[j].id == k);
                        }
                        if k != author && exists|j: int| 0 <= j < i + 1 && #[trigger] s[j].id == k {
                            let j = choose|j: int| 0 <= j < i + 1 && #[trigger] s[j].id == k;
                            assert(j < i);
                        }
                    }
                }
            }
            i = i + 1;
        }
        proof {
            assert forall|k: ConnId| #[trigger] out@.to_set().contains(k) == recipients_of(
                self@,
                author,
            ).contains(k) by {
                if has_id(s, k) {
                    let j = slot_of(s, k);
                    assert(s[j].id == k);
                }
            }
            assert(out@.to_set() =~= recipients_of(self@, author));
        }
        out
    }

    /// Removes every session in `failed`, after a fan-out in which writing to
    /// them failed; the others stay as they were.
    pub fn evict(&mut self, failed: &Vec<ConnId>)
        ensures
            final(self)@ == old(self)@.remove_keys(failed@.to_set()),
    {
        let mut i: usize = 0;
        while i < failed.len()
            invariant
                i <= failed@.len(),
                self@ == old(self)@.remove_keys(failed@.take(i as int).to_set()),
            decreases failed@.len() - i,
        {
            let ghost before = self@;
            self.remove(failed[i]);
            proof {
                let pre = failed@.take(i as int);
                let x = failed@[i as int];
                assert(failed@.take(i + 1) =~= pre.push(x));
                assert forall|k: ConnId| #[trigger] failed@.take(i + 1).to_set().contains(k)
                    == pre.to_set().insert(x).contains(k) by {
                    if pre.contains(k) {
                        let t = choose|t: int| 0 <= t < pre.len() && #[trigger] pre[t] == k;
                        assert(failed@.take(i + 1)[t] == k);
                    }
                    if failed@.take(i + 1).contains(k) && k != x {
                        let t = choose|t: int| 0 <= t < i + 1 && #[trigger] failed@.take(i + 1)[t] == k;
                        assert(pre[t] == k);
                    }
                    if k == x {
                        assert(failed@.take(i + 1)[i as int] == k);
                    }
                }
                assert(failed@.take(i + 1).to_set() =~= pre.to_set().insert(x));
            }
            i = i + 1;
            assert(self@ =~= old(self)@.remove_keys(failed@.take(i as int).to_set()));
        }
        assert(failed@.take(i as int) =~= failed@);
    }
}

} // verus!
