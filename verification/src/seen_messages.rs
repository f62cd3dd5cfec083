//! A set of `(session id, message id)` pairs, used to count each chat
//! message once although the session store keeps one row per branch it
//! appears on.

use vstd::prelude::*;
use vstd::hash_map::StringHashMap;
use vstd::hash_set::StringHashSet;

verus! {

/// The `(session id, message id)` pairs seen so far, as the set of message
/// ids seen in each session.
pub struct SeenMessages {
    /// Session id to the position of its message ids in `ids`.
    sessions: StringHashMap<usize>,
    ids: Vec<StringHashSet>,
}

impl SeenMessages {
    /// Each session has its own set of ids.
    #[verifier::type_invariant]
    closed spec fn own_sets(self) -> bool {
        &&& forall|s: Seq<char>| #[trigger]
            self.sessions@.contains_key(s) ==> self.sessions@[s] < self.ids@.len()
        &&& forall|s: Seq<char>, t: Seq<char>|
            #![trigger self.sessions@[s], self.sessions@[t]]
            self.sessions@.contains_key(s) && self.sessions@.contains_key(t) && s != t
                ==> self.sessions@[s] != self.sessions@[t]
    }
}

impl View for SeenMessages {
    type V = Set<(Seq<char>, Seq<char>)>;

    closed spec fn view(&self) -> Set<(Seq<char>, Seq<char>)> {
        Set::new(
            |p: (Seq<char>, Seq<char>)|
                self.sessions@.contains_key(p.0) && self.sessions@[p.0] < self.ids@.len()
                    && self.ids@[self.sessions@[p.0] as int]@.contains(p.1),
        )
    }
}

impl SeenMessages {
    /// An empty set.
    pub fn new() -> (s: SeenMessages)
        ensures
            s@ == Set::<(Seq<char>, Seq<char>)>::empty(),
    {
        let s = SeenMessages { sessions: StringHashMap::new(), ids: Vec::new() };
        assert(s@ =~= Set::<(Seq<char>, Seq<char>)>::empty());
        s
    }

    /// Add the pair `(session, id)`; true when it was not there before.
    pub fn insert(&mut self, session: &str, id: &str) -> (fresh: bool)
        ensures
            fresh == !old(self)@.contains((session@, id@)),
            final(self)@ == old(self)@.insert((session@, id@)),
    {
        let mut taken = SeenMessages::new();
        std::mem::swap(self, &mut taken);
        proof {
            use_type_invariant(&taken);
        }
        let ghost p = (session@, id@);
        let ghost before = taken;
        let SeenMessages { sessions: mut sessions, ids: mut ids } = taken;
        let fresh = match sessions.get(session) {
            Some(pos) => {
                let i: usize = *pos;
                let fresh = ids[i].insert(String::from_str(id));
                proof {
                    assert(ids@ == before.ids@.update(i as int, ids@[i as int]));
                }
                fresh
            },
            None => {
                let mut set = StringHashSet::new();
                set.insert(String::from_str(id));
                let n = ids.len();
                ids.push(set);
                sessions.insert(String::from_str(session), n);
                true
            },
        };
        let seen = SeenMessages { sessions, ids };
        proof {
            assert forall|q: (Seq<char>, Seq<char>)| #[trigger] seen@.contains(q)
                <==> before@.insert(p).contains(q) by {
                if q.0 != session@ && before.sessions@.contains_key(q.0) {
                    assert(before.sessions@[q.0] < before.ids@.len());
                    if before.sessions@.contains_key(session@) {
                        assert(before.sessions@[q.0] != before.sessions@[session@]);
                    }
                    assert(seen.ids@[before.sessions@[q.0] as int] == before.ids@[before.sessions@[q.0] as int]);
                }
            }
            assert(seen@ =~= before@.insert(p));
        }
        *self = seen;
        fresh
    }
}

} // verus!
