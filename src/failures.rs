use vstd::prelude::*;

use crate::error::ProofError;

verus! {

/// The outcome of a run that failed, kept under its `(digest, seed)`.
pub struct Failure {
    pub digest: String,
    pub seed: u64,
    pub error: ProofError,
}

/// The failures of a sequence, by key.
pub open spec fn failure_map(s: Seq<Failure>) -> Map<(Seq<char>, u64), ProofError>
    decreases s.len(),
{
    if s.len() == 0 {
        Map::empty()
    } else {
        failure_map(s.drop_last()).insert((s.last().digest@, s.last().seed), s.last().error)
    }
}

pub open spec fn failure_keys_unique(s: Seq<Failure>) -> bool {
    forall|i: int, j: int|
        0 <= i < s.len() && 0 <= j < s.len() && i != j ==> (s[i].digest@, s[i].seed) != (
        s[j].digest@,
        s[j].seed,
    )
}

proof fn lemma_failure_map(s: Seq<Failure>)
    requires
        failure_keys_unique(s),
    ensures
        forall|k: (Seq<char>, u64)|
            failure_map(s).contains_key(k) <==> exists|j: int|
                0 <= j < s.len() && (s[j].digest@, s[j].seed) == k,
        forall|j: int|
            0 <= j < s.len() ==> failure_map(s)[(#[trigger] s[j].digest@, s[j].seed)] == s[j].error,
    decreases s.len(),
{
    if s.len() > 0 {
        let t = s.drop_last();
        lemma_failure_map(t);
        assert forall|k: (Seq<char>, u64)|
            failure_map(s).contains_key(k) <==> exists|j: int|
                0 <= j < s.len() && (s[j].digest@, s[j].seed) == k by {
            if failure_map(s).contains_key(k) && k != (s.last().digest@, s.last().seed) {
                assert(failure_map(t).contains_key(k));
                let j = choose|j: int| 0 <= j < t.len() && (t[j].digest@, t[j].seed) == k;
                assert(s[j] == t[j]);
            }
            if exists|j: int| 0 <= j < s.len() && (s[j].digest@, s[j].seed) == k {
                let j = choose|j: int| 0 <= j < s.len() && (s[j].digest@, s[j].seed) == k;
                if j < t.len() {
                    assert(t[j] == s[j]);
                }
            }
        }
        assert forall|j: int| 0 <= j < s.len() implies failure_map(s)[(
            #[trigger] s[j].digest@,
            s[j].seed,
        )] == s[j].error by {
            if j < t.len() {
                assert(t[j] == s[j]);
            }
        }
    }
}

/// The failed outcomes, one per key, never changed once written.
pub struct FailureLog {
    entries: Vec<Failure>,
}

impl FailureLog {
    pub closed spec fn view(&self) -> Map<(Seq<char>, u64), ProofError> {
        failure_map(self.entries@)
    }

    pub closed spec fn wf(&self) -> bool {
        failure_keys_unique(self.entries@)
    }

    /// No failures.
    pub fn new() -> (r: Self)
        ensures
            r.wf(),
            r@ == Map::<(Seq<char>, u64), ProofError>::empty(),
    {
        FailureLog { entries: Vec::new() }
    }

    /// The failure kept for the key, if any.
    pub fn get(&self, digest: &String, seed: u64) -> (r: Option<ProofError>)
        requires
            self.wf(),
        ensures
            r is Some <==> self@.contains_key((digest@, seed)),
            r is Some ==> r->0 == self@[(digest@, seed)],
    {
        let mut i: usize = 0;
        while i < self.entries.len()
            invariant
                self.wf(),
                i <= self.entries@.len(),
                forall|j: int|
                    0 <= j < i ==> (self.entries@[j].digest@, self.entries@[j].seed) != (digest@, seed),
            decreases self.entries@.len() - i,
        {
            if self.entries[i].seed == seed && self.entries[i].digest == *digest {
                proof {
                    lemma_failure_map(self.entries@);
                    assert((self.entries@[i as int].digest@, self.entries@[i as int].seed) == (
                    digest@, seed));
                }
                return Some(self.entries[i].error);
            }
            i = i + 1;
        }
        proof {
            lemma_failure_map(self.entries@);
        }
        None
    }

    /// Keeps a failure for a key that has none.
    pub fn insert(&mut self, digest: String, seed: u64, error: ProofError)
        requires
            old(self).wf(),
            !old(self)@.contains_key((digest@, seed)),
        ensures
            final(self).wf(),
            final(self)@ == old(self)@.insert((digest@, seed), error),
    {
        let ghost before = self.entries@;
        proof {
            lemma_failure_map(before);
        }
        self.entries.push(Failure { digest, seed, error });
        proof {
            assert(self.entries@.drop_last() =~= before);
            assert forall|a: int, b: int|
                0 <= a < self.entries@.len() && 0 <= b < self.entries@.len() && a != b implies (
                self.entries@[a].digest@,
                self.entries@[a].seed,
            ) != (self.entries@[b].digest@, self.entries@[b].seed) by {
                if a < before.len() {
                    assert(self.entries@[a] == before[a]);
                }
                if b < before.len() {
                    assert(self.entries@[b] == before[b]);
                }
            }
        }
    }
}

} // verus!
