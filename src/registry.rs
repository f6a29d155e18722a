//! The table of connected clients, keyed by the token each one handshook with.

use vstd::prelude::*;

verus! {

/// What registering `uid` with `handle` in a table `m` gives: whether it was
/// admitted, and the table afterwards. A taken name is refused and the table
/// is left as it was; it is never overwritten.
pub open spec fn register_outcome<H>(m: Map<Seq<char>, H>, uid: Seq<char>, handle: H) -> (bool, Map<Seq<char>, H>) {
    if m.contains_key(uid) {
        (false, m)
    } else {
        (true, m.insert(uid, handle))
    }
}

/// Connected clients by id, each with the handle that reaches it.
pub struct Registry<H> {
    entries: Vec<(String, H)>,
    table: Ghost<Map<Seq<char>, H>>,
}

impl<H> View for Registry<H> {
    type V = Map<Seq<char>, H>;

    closed spec fn view(&self) -> Map<Seq<char>, H> {
        self.table@
    }
}

impl<H> Registry<H> {
    /// Ids are unique, and the table holds exactly the entries.
    pub closed spec fn wf(&self) -> bool {
        &&& forall|i: int, j: int|
            0 <= i < j < self.entries@.len() ==> self.entries@[i].0@ != self.entries@[j].0@
        &&& forall|i: int|
            0 <= i < self.entries@.len() ==> #[trigger] self.table@.contains_key(self.entries@[i].0@)
                && self.table@[self.entries@[i].0@] == self.entries@[i].1
        &&& forall|k: Seq<char>|
            #[trigger] self.table@.contains_key(k) ==> exists|i: int|
                0 <= i < self.entries@.len() && self.entries@[i].0@ == k
    }

    pub fn new() -> (r: Self)
        ensures
            r.wf(),
            r@ == Map::<Seq<char>, H>::empty(),
    {
        Registry { entries: Vec::new(), table: Ghost(Map::empty()) }
    }

    /// The position of `uid` among the entries.
    fn position(&self, uid: &String) -> (r: Option<usize>)
        requires
            self.wf(),
        ensures
            match r {
                Some(i) => i < self.entries@.len() && self.entries@[i as int].0@ == uid@,
                None => !self@.contains_key(uid@),
            },
    {
        let mut i: usize = 0;
        while i < self.entries.len()
            invariant
                self.wf(),
                i <= self.entries@.len(),
                forall|j: int| 0 <= j < i ==> self.entries@[j].0@ != uid@,
            decreases self.entries@.len() - i,
        {
            if self.entries[i].0 == *uid {
                return Some(i);
            }
            i += 1;
        }
        None
    }

    pub fn contains_key(&self, uid: &String) -> (r: bool)
        requires
            self.wf(),
        ensures
            r == self@.contains_key(uid@),
    {
        self.position(uid).is_some()
    }

    /// The handle registered under `uid`.
    pub fn get(&self, uid: &String) -> (r: Option<&H>)
        requires
            self.wf(),
        ensures
            match r {
                Some(h) => self@.contains_key(uid@) && *h == self@[uid@],
                None => !self@.contains_key(uid@),
            },
    {
        match self.position(uid) {
            Some(i) => {
                proof {
                    assert(self.table@.contains_key(self.entries@[i as int].0@));
                }
                Some(&self.entries[i].1)
            },
            None => None,
        }
    }

    /// Registers `uid` unless it is taken; the test and the insertion are one
    /// step, so two registrations of one id cannot both succeed.
    pub fn register(&mut self, uid: String, handle: H) -> (r: bool)
        requires
            old(self).wf(),
        ensures
            final(self).wf(),
            (r, final(self)@) == register_outcome(old(self)@, uid@, handle),
    {
        if self.contains_key(&uid) {
            return false;
        }
        let ghost key = uid@;
        let ghost h = handle;
        self.entries.push((uid, handle));
        self.table = Ghost(self.table@.insert(key, h));
        proof {
            let n = self.entries@.len() - 1;
            assert(self.entries@[n].0@ == key);
            assert forall|k: Seq<char>| #[trigger] self.table@.contains_key(k) implies exists|i: int|
                0 <= i < self.entries@.len() && self.entries@[i].0@ == k by {
                if k != key {
                    let i = choose|i: int| 0 <= i < old(self).entries@.len() && old(self).entries@[i].0@ == k;
                    assert(self.entries@[i] == old(self).entries@[i]);
                }
            }
        }
        true
    }

    /// Removes `uid` if it is registered; removing an absent id changes nothing.
    pub fn remove(&mut self, uid: &String)
        requires
            old(self).wf(),
        ensures
            final(self).wf(),
            final(self)@ == old(self)@.remove(uid@),
    {
        match self.position(uid) {
            None => {
                proof {
                    assert(self.table@.remove(uid@) =~= self.table@);
                }
            },
            Some(i) => {
                let ghost key = uid@;
                let ghost old_entries = self.entries@;
                let ghost old_table = self.table@;
                self.entries.remove(i);
                self.table = Ghost(self.table@.remove(key));
                proof {
                    assert forall|j: int| 0 <= j < self.entries@.len() implies
                        #[trigger] self.table@.contains_key(self.entries@[j].0@)
                        && self.table@[self.entries@[j].0@] == self.entries@[j].1 by {
                        let oj = if j < i { j } else { j + 1 };
                        assert(self.entries@[j] == old_entries[oj]);
                        assert(old_table.contains_key(old_entries[oj].0@));
                        if oj < i {
                            assert(old_entries[oj].0@ != old_entries[i as int].0@);
                        } else {
                            assert(old_entries[i as int].0@ != old_entries[oj].0@);
                        }
                    }
                    assert forall|k: Seq<char>| #[trigger] self.table@.contains_key(k) implies exists|j: int|
                        0 <= j < self.entries@.len() && self.entries@[j].0@ == k by {
                        let oj = choose|oj: int| 0 <= oj < old_entries.len() && old_entries[oj].0@ == k;
                        assert(oj != i);
                        let j = if oj < i { oj } else { oj - 1 };
                        assert(self.entries@[j] == old_entries[oj]);
                    }
                    assert forall|a: int, b: int| 0 <= a < b < self.entries@.len() implies
                        self.entries@[a].0@ != self.entries@[b].0@ by {
                        let oa = if a < i { a } else { a + 1 };
                        let ob = if b < i { b } else { b + 1 };
                        assert(self.entries@[a] == old_entries[oa]);
                        assert(self.entries@[b] == old_entries[ob]);
                    }
                }
            },
        }
    }
}

/// Uniqueness: of two registrations of one fresh id, whichever comes first
/// succeeds and the other is refused, and the table afterwards holds the id
/// once, with the first handle.
pub proof fn lemma_unique_registration<H>(m: Map<Seq<char>, H>, uid: Seq<char>, first: H, second: H)
    requires
        !m.contains_key(uid),
    ensures
        ({
            let (ok1, m1) = register_outcome(m, uid, first);
            let (ok2, m2) = register_outcome(m1, uid, second);
            &&& ok1
            &&& !ok2
            &&& m2 == m.insert(uid, first)
            &&& m2.dom().filter(|k: Seq<char>| k == uid) == set![uid]
        }),
{
    let m2 = m.insert(uid, first);
    assert(m2.dom().filter(|k: Seq<char>| k == uid) =~= set![uid]);
}

} // verus!
