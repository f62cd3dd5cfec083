//! The per-metric alert memory: for each `"{snapshot id}:{metric label}"`
//! key, the last reset time seen and which alert states were active.

use vstd::prelude::*;
use vstd::hash_map::StringHashMap;
use crate::text::{is_prefix_of, starts_with};

verus! {

/// What the alert rules remember about one metric between refreshes.
#[derive(Clone, Copy)]
pub struct MetricState {
    /// The reset time reported by the last reading.
    pub resets_at: Option<i64>,
    /// A reading of this metric has been taken since launch (or since the
    /// last new period).
    pub seen: bool,
    /// The last reading was under 10% remaining.
    pub almost_out: bool,
    /// The last reading was projected to finish with under 10% spare.
    pub close: bool,
    /// The last reading was projected to hit the limit before the reset.
    pub run_out: bool,
}

/// The state of a metric nothing is known about.
pub open spec fn fresh_state() -> MetricState {
    MetricState { resets_at: None, seen: false, almost_out: false, close: false, run_out: false }
}

impl MetricState {
    /// The state of a metric nothing is known about.
    pub fn fresh() -> (st: MetricState)
        ensures
            st == fresh_state(),
    {
        MetricState { resets_at: None, seen: false, almost_out: false, close: false, run_out: false }
    }
}

/// The keys of `keys`, by their views.
pub open spec fn key_views(keys: Seq<String>) -> Seq<Seq<char>> {
    keys.map_values(|k: String| k@)
}

/// The alert memory of every metric seen since launch, keyed by
/// `"{snapshot id}:{metric label}"`.
pub struct AlertStates {
    states: StringHashMap<MetricState>,
    /// The keys of `states`, to walk them when a card is forgotten.
    keys: Vec<String>,
}

impl View for AlertStates {
    type V = Map<Seq<char>, MetricState>;

    closed spec fn view(&self) -> Map<Seq<char>, MetricState> {
        self.states@
    }
}

/// The keys that `forget_snapshot(id)` keeps: those not starting with `id:`.
pub open spec fn kept_after_forget(m: Map<Seq<char>, MetricState>, id: Seq<char>) -> Map<
    Seq<char>,
    MetricState,
> {
    m.restrict(m.dom().filter(kept_key(id)))
}

/// The keys `forget_snapshot(id)` leaves alone.
pub open spec fn kept_key(id: Seq<char>) -> spec_fn(Seq<char>) -> bool {
    |k: Seq<char>| !is_prefix_of(id + ":"@, k)
}

/// `m` with the keys among `walked` that start with `id:` forgotten.
spec fn forgotten_among(m: Map<Seq<char>, MetricState>, walked: Seq<Seq<char>>, id: Seq<char>) -> Map<
    Seq<char>,
    MetricState,
> {
    m.restrict(m.dom().filter(|k: Seq<char>| kept_key(id)(k) || !walked.contains(k)))
}

impl AlertStates {
    /// `keys` lists exactly the keys of `states`.
    #[verifier::type_invariant]
    spec fn keys_listed(self) -> bool {
        forall|k: Seq<char>| #[trigger] self.states@.contains_key(k) <==> key_views(self.keys@).contains(k)
    }

    /// An empty memory, as at launch.
    pub fn new() -> (st: AlertStates)
        ensures
            st@ == Map::<Seq<char>, MetricState>::empty(),
    {
        let st = AlertStates { states: StringHashMap::new(), keys: Vec::new() };
        assert(key_views(st.keys@) =~= Seq::<Seq<char>>::empty());
        st
    }

    /// The number of remembered metrics.
    pub fn len(&self) -> (n: usize)
        ensures
            n == self@.len(),
    {
        self.states.len()
    }

    /// The remembered state of `key`.
    pub fn get(&self, key: &str) -> (res: Option<MetricState>)
        ensures
            res == (if self@.contains_key(key@) {
                Some(self@[key@])
            } else {
                None::<MetricState>
            }),
    {
        match self.states.get(key) {
            Some(st) => Some(*st),
            None => None,
        }
    }

    /// Remember `state` for `key`, replacing what was there.
    pub fn set(&mut self, key: &str, state: MetricState)
        ensures
            final(self)@ == old(self)@.insert(key@, state),
    {
        let mut taken = AlertStates::new();
        std::mem::swap(self, &mut taken);
        proof {
            use_type_invariant(&taken);
        }
        let ghost before = taken;
        let ghost bv = key_views(taken.keys@);
        let ghost was_there = taken.states@.contains_key(key@);
        let AlertStates { states: mut states, keys: mut keys } = taken;
        if !states.contains_key(key) {
            keys.push(String::from_str(key));
            assert(key_views(keys@) =~= bv.push(key@));
        }
        states.insert(String::from_str(key), state);
        proof {
            let kv = key_views(keys@);
            assert forall|k: Seq<char>| #[trigger] states@.contains_key(k) <==> kv.contains(k) by {
                assert(before.states@.contains_key(k) <==> bv.contains(k));
                if !was_there {
                    if kv.contains(k) && k != key@ {
                        let j = choose|j: int| 0 <= j < kv.len() && kv[j] == k;
                        assert(bv[j] == k);
                    }
                    if bv.contains(k) {
                        let j = choose|j: int| 0 <= j < bv.len() && bv[j] == k;
                        assert(kv[j] == k);
                    }
                    if k == key@ {
                        assert(kv[kv.len() - 1] == k);
                    }
                }
            }
        }
        *self = AlertStates { states, keys };
    }

    /// Forget every metric whose key starts with `id:`.
    pub fn retain_not_prefixed(&mut self, id: &str)
        ensures
            final(self)@ == kept_after_forget(old(self)@, id@),
    {
        let mut taken = AlertStates::new();
        std::mem::swap(self, &mut taken);
        proof {
            use_type_invariant(&taken);
        }
        let ghost whole = taken.states@;
        let ghost src = key_views(taken.keys@);
        let AlertStates { states: mut states, keys } = taken;
        let mut prefix = String::from_str(id);
        prefix.append(":");
        let mut kept: Vec<String> = Vec::new();
        let n = keys.len();
        let mut i: usize = 0;
        assert(states@ =~= forgotten_among(whole, src.take(0), id@));
        while i < n
            invariant
                n == keys@.len(),
                src == key_views(keys@),
                i <= n,
                prefix@ == id@ + ":"@,
                forall|k: Seq<char>| #[trigger] whole.contains_key(k) <==> src.contains(k),
                states@ == forgotten_among(whole, src.take(i as int), id@),
                forall|k: Seq<char>| #[trigger] key_views(kept@).contains(k) <==> (src.take(i as int).contains(k)
                    && kept_key(id@)(k)),
            decreases n - i,
        {
            let ghost ki = src[i as int];
            let ghost pre = src.take(i as int);
            let ghost post = src.take(i as int + 1);
            assert(post =~= pre.push(ki));
            assert(keys@[i as int]@ == ki);
            let ghost before_kept = key_views(kept@);
            if starts_with(keys[i].as_str(), prefix.as_str()) {
                states.remove(keys[i].as_str());
                proof {
                    assert(states@ =~= forgotten_among(whole, post, id@)) by {
                        assert forall|k: Seq<char>| post.contains(k) <==> (pre.contains(k) || k == ki) by {
                            if post.contains(k) && k != ki {
                                let j = choose|j: int| 0 <= j < post.len() && post[j] == k;
                                assert(pre[j] == k);
                            }
                            if pre.contains(k) {
                                let j = choose|j: int| 0 <= j < pre.len() && pre[j] == k;
                                assert(post[j] == k);
                            }
                            if k == ki {
                                assert(post[i as int] == k);
                            }
                        }
                    }
                }
            } else {
                kept.push(keys[i].clone());
                assert(key_views(kept@) =~= before_kept.push(ki));
                proof {
                    assert forall|k: Seq<char>| post.contains(k) <==> (pre.contains(k) || k == ki) by {
                        if post.contains(k) && k != ki {
                            let j = choose|j: int| 0 <= j < post.len() && post[j] == k;
                            assert(pre[j] == k);
                        }
                        if pre.contains(k) {
                            let j = choose|j: int| 0 <= j < pre.len() && pre[j] == k;
                            assert(post[j] == k);
                        }
                        if k == ki {
                            assert(post[i as int] == k);
                        }
                    }
                    assert(states@ =~= forgotten_among(whole, post, id@));
                    assert forall|k: Seq<char>| #[trigger] key_views(kept@).contains(k) <==> (post.contains(k)
                        && kept_key(id@)(k)) by {
                        if key_views(kept@).contains(k) && k != ki {
                            let j = choose|j: int| 0 <= j < key_views(kept@).len() && key_views(kept@)[j] == k;
                            assert(before_kept[j] == k);
                        }
                        if k == ki {
                            assert(key_views(kept@)[before_kept.len() as int] == k);
                        }
                        if before_kept.contains(k) {
                            let j = choose|j: int| 0 <= j < before_kept.len() && before_kept[j] == k;
                            assert(key_views(kept@)[j] == k);
                        }
                        if pre.contains(k) && kept_key(id@)(k) {
                            assert(before_kept.contains(k));
                        }
                    }
                }
            }
            i += 1;
        }
        proof {
            assert(src.take(n as int) =~= src);
            assert(states@ =~= kept_after_forget(whole, id@));
            assert forall|k: Seq<char>| #[trigger] states@.contains_key(k) <==> key_views(kept@).contains(k) by {
            }
        }
        *self = AlertStates { states, keys: kept };
    }
}

} // verus!
