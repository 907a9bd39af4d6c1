use vstd::prelude::*;

verus! {

/// The key of a validation: module digest and seed.
pub struct FlightKey {
    pub digest: String,
    pub seed: u64,
}

/// The keys whose sandbox execution is in progress. At most one execution per key may
/// be in flight: a caller that is not granted one waits for the holder to finish.
pub struct SingleFlight {
    keys: Vec<FlightKey>,
}

pub open spec fn keys_unique(s: Seq<FlightKey>) -> bool {
    forall|i: int, j: int|
        0 <= i < s.len() && 0 <= j < s.len() && i != j ==> (s[i].digest@, s[i].seed) != (
        s[j].digest@,
        s[j].seed,
    )
}

pub open spec fn key_set(s: Seq<FlightKey>) -> Set<(Seq<char>, u64)> {
    Set::new(|k: (Seq<char>, u64)| exists|i: int| 0 <= i < s.len() && s[i].digest@ == k.0 && s[i].seed == k.1)
}

/// Whether a caller asking for `k` while `s` is in flight is granted the execution.
pub open spec fn grants(s: Set<(Seq<char>, u64)>, k: (Seq<char>, u64)) -> bool {
    !s.contains(k)
}

impl SingleFlight {
    pub closed spec fn view(&self) -> Set<(Seq<char>, u64)> {
        key_set(self.keys@)
    }

    pub closed spec fn wf(&self) -> bool {
        keys_unique(self.keys@)
    }

    /// Nothing in flight.
    pub fn new() -> (r: Self)
        ensures
            r.wf(),
            r@ == Set::<(Seq<char>, u64)>::empty(),
    {
        let r = SingleFlight { keys: Vec::new() };
        assert(r@ =~= Set::<(Seq<char>, u64)>::empty());
        r
    }

    fn find(&self, digest: &String, seed: u64) -> (r: Option<usize>)
        ensures
            r is Some ==> r->0 < self.keys@.len() && self.keys@[r->0 as int].digest@ == digest@
                && self.keys@[r->0 as int].seed == seed,
            r is None ==> !self@.contains((digest@, seed)),
    {
        let mut i: usize = 0;
        while i < self.keys.len()
            invariant
                i <= self.keys@.len(),
                forall|j: int|
                    0 <= j < i ==> !(self.keys@[j].digest@ == digest@ && self.keys@[j].seed == seed),
            decreases self.keys@.len() - i,
        {
            if self.keys[i].seed == seed && self.keys[i].digest == *digest {
                return Some(i);
            }
            i = i + 1;
        }
        None
    }

    /// Whether an execution for the key is in flight.
    pub fn is_running(&self, digest: &String, seed: u64) -> (r: bool)
        ensures
            r == self@.contains((digest@, seed)),
    {
        let f = self.find(digest, seed);
        proof {
            if f is Some {
                let i = f->0 as int;
                assert(self.keys@[i].digest@ == digest@ && self.keys@[i].seed == seed);
            }
        }
        f.is_some()
    }

    /// Asks to execute the key. Granted (`true`) exactly when no execution for it is in
    /// flight; the key is in flight afterwards either way.
    pub fn begin(&mut self, digest: &String, seed: u64) -> (r: bool)
        requires
            old(self).wf(),
        ensures
            final(self).wf(),
            r == grants(old(self)@, (digest@, seed)),
            final(self)@ == old(self)@.insert((digest@, seed)),
    {
        if self.is_running(digest, seed) {
            assert(self@ =~= self@.insert((digest@, seed)));
            false
        } else {
            let ghost before = self.keys@;
            self.keys.push(FlightKey { digest: digest.clone(), seed });
            proof {
                assert forall|i: int| 0 <= i < before.len() implies #[trigger] self.keys@[i]
                    == before[i] by {}
                assert forall|k: (Seq<char>, u64)| #[trigger]
                    self@.contains(k) == old(self)@.insert((digest@, seed)).contains(k) by {
                    if self@.contains(k) && k != (digest@, seed) {
                        let i = choose|i: int|
                            0 <= i < self.keys@.len() && self.keys@[i].digest@ == k.0
                                && self.keys@[i].seed == k.1;
                        assert(i < before.len());
                    }
                    if old(self)@.contains(k) {
                        let i = choose|i: int|
                            0 <= i < before.len() && before[i].digest@ == k.0 && before[i].seed
                                == k.1;
                        assert(self.keys@[i] == before[i]);
                    }
                    if k == (digest@, seed) {
                        let n = before.len() as int;
                        assert(self.keys@[n].digest@ == k.0 && self.keys@[n].seed == k.1);
                    }
                }
                assert(self@ =~= old(self)@.insert((digest@, seed)));
            }
            true
        }
    }

    /// Marks the key's execution as finished.
    pub fn finish(&mut self, digest: &String, seed: u64)
        requires
            old(self).wf(),
        ensures
            final(self).wf(),
            final(self)@ == old(self)@.remove((digest@, seed)),
    {
        match self.find(digest, seed) {
            None => {
                assert(self@ =~= self@.remove((digest@, seed)));
            },
            Some(i) => {
                let ghost before = self.keys@;
                let ghost n = before.len() as int;
                let _ = self.keys.swap_remove(i);
                proof {
                    assert forall|j: int| 0 <= j < self.keys@.len() implies #[trigger] self.keys@[j]
                        == (if j == i {
                        before[n - 1]
                    } else {
                        before[j]
                    }) by {}
                    assert forall|a: int, b: int|
                        0 <= a < self.keys@.len() && 0 <= b < self.keys@.len() && a
                            != b implies (self.keys@[a].digest@, self.keys@[a].seed) != (
                        self.keys@[b].digest@,
                        self.keys@[b].seed,
                    ) by {
                        let a0 = if a == i {
                            n - 1
                        } else {
                            a
                        };
                        let b0 = if b == i {
                            n - 1
                        } else {
                            b
                        };
                        assert(self.keys@[a] == before[a0]);
                        assert(self.keys@[b] == before[b0]);
                    }
                    let k0 = (digest@, seed);
                    assert forall|k: (Seq<char>, u64)| #[trigger]
                        self@.contains(k) == old(self)@.remove(k0).contains(k) by {
                        if self@.contains(k) {
                            let j = choose|j: int|
                                0 <= j < self.keys@.len() && self.keys@[j].digest@ == k.0
                                    && self.keys@[j].seed == k.1;
                            let j0 = if j == i {
                                n - 1
                            } else {
                                j
                            };
                            assert(self.keys@[j] == before[j0]);
                            assert(j0 != i as int);
                        }
                        if old(self)@.remove(k0).contains(k) {
                            let j0 = choose|j: int|
                                0 <= j < n && before[j].digest@ == k.0 && before[j].seed == k.1;
                            assert(j0 != i as int);
                            let j = if j0 == n - 1 {
                                i as int
                            } else {
                                j0
                            };
                            assert(self.keys@[j] == before[j0]);
                        }
                    }
                    assert(self@ =~= old(self)@.remove(k0));
                }
            },
        }
    }
}

/// Of two callers asking for the same key, at most one is granted the execution:
/// once a grant has put the key in flight, the next ask is refused until `finish`.
pub proof fn lemma_single_flight(s: Set<(Seq<char>, u64)>, k: (Seq<char>, u64))
    ensures
        !grants(s.insert(k), k),
        !(grants(s, k) && grants(s.insert(k), k)),
        grants(s.insert(k).remove(k), k),
{
}

} // verus!
