use vstd::prelude::*;

use crate::digest::{digest, digest_of};
use crate::error::ProofError;
use crate::failures::FailureLog;
use crate::record::{
    owner_view, result_hash, result_hash_of, weight, weight_of, Owner, ProofRecord, RecordView,
};
use crate::sandbox::{load, loads, run, run_result, SandboxResult};
use crate::store::{put_view, ContentAddressStore};

verus! {

/// The key of a record: module digest and seed.
pub type RecordKey = (Seq<char>, u64);

/// The records of a sequence, by key.
pub open spec fn record_map(s: Seq<ProofRecord>) -> Map<RecordKey, RecordView>
    decreases s.len(),
{
    if s.len() == 0 {
        Map::empty()
    } else {
        record_map(s.drop_last()).insert((s.last().module_digest@, s.last().seed), s.last()@)
    }
}

pub open spec fn record_keys_unique(s: Seq<ProofRecord>) -> bool {
    forall|i: int, j: int|
        0 <= i < s.len() && 0 <= j < s.len() && i != j ==> (s[i].module_digest@, s[i].seed) != (
        s[j].module_digest@,
        s[j].seed,
    )
}

proof fn lemma_record_map(s: Seq<ProofRecord>)
    requires
        record_keys_unique(s),
    ensures
        forall|k: RecordKey|
            record_map(s).contains_key(k) <==> exists|j: int|
                0 <= j < s.len() && (s[j].module_digest@, s[j].seed) == k,
        forall|j: int|
            0 <= j < s.len() ==> record_map(s)[(#[trigger] s[j].module_digest@, s[j].seed)] == s[j]@,
    decreases s.len(),
{
    if s.len() > 0 {
        let t = s.drop_last();
        lemma_record_map(t);
        assert forall|k: RecordKey|
            record_map(s).contains_key(k) <==> exists|j: int|
                0 <= j < s.len() && (s[j].module_digest@, s[j].seed) == k by {
            if record_map(s).contains_key(k) && k != (s.last().module_digest@, s.last().seed) {
                assert(record_map(t).contains_key(k));
                let j = choose|j: int| 0 <= j < t.len() && (t[j].module_digest@, t[j].seed) == k;
                assert(s[j] == t[j]);
            }
            if exists|j: int| 0 <= j < s.len() && (s[j].module_digest@, s[j].seed) == k {
                let j = choose|j: int| 0 <= j < s.len() && (s[j].module_digest@, s[j].seed) == k;
                if j < t.len() {
                    assert(t[j] == s[j]);
                }
            }
        }
        assert forall|j: int| 0 <= j < s.len() implies record_map(
            s,
        )[(#[trigger] s[j].module_digest@, s[j].seed)] == s[j]@ by {
            if j < t.len() {
                assert(t[j] == s[j]);
            }
        }
    }
}

/// Whether a record's derived fields follow from its registers.
pub open spec fn consistent(v: RecordView) -> bool {
    &&& v.result_hash == result_hash_of(v.registers)
    &&& v.weight == weight_of(v.registers)
}

/// The record that a successful run produces for a key.
pub open spec fn fresh_record(
    digest: Seq<char>,
    seed: u64,
    owner: Option<Seq<char>>,
    created_at: u64,
    registers: Seq<u64>,
    step_count: u64,
) -> RecordView {
    RecordView {
        module_digest: digest,
        owner,
        created_at,
        seed,
        result_hash: result_hash_of(registers),
        weight: weight_of(registers),
        registers,
        step_count,
    }
}

/// Whether a recomputed run agrees with a persisted record.
pub open spec fn agrees(v: RecordView, registers: Seq<u64>) -> bool {
    &&& v.result_hash == result_hash_of(registers)
    &&& v.weight == weight_of(registers)
}

/// How a submission of `bytes` with `seed` is answered without running anything: from
/// its record, or from the failure that its one run ended in.
pub open spec fn answer(v: ValidatorView, bytes: Seq<u8>, seed: u64) -> Option<
    Result<RecordView, ProofError>,
> {
    let k = (digest_of(bytes), seed);
    if v.records.contains_key(k) {
        Some(Ok(v.records[k]))
    } else if v.failures.contains_key(k) {
        Some(Err(v.failures[k]))
    } else {
        None
    }
}

/// A submission's result as a plain value.
pub open spec fn record_result(r: Result<ProofRecord, ProofError>) -> Result<RecordView, ProofError> {
    match r {
        Ok(rec) => Ok(rec@),
        Err(e) => Err(e),
    }
}

/// What a fresh submission of loadable `bytes` leaves: the run's record on success, its
/// error on failure.
pub open spec fn fresh_outcome(
    before: ValidatorView,
    after: ValidatorView,
    r: Result<ProofRecord, ProofError>,
    bytes: Seq<u8>,
    seed: u64,
    owner: Option<Seq<char>>,
    created_at: u64,
) -> bool {
    let k = (digest_of(bytes), seed);
    match run_result(bytes, seed, before.budget) {
        Ok((regs, steps)) => {
            &&& r is Ok
            &&& r->Ok_0@ == fresh_record(digest_of(bytes), seed, owner, created_at, regs, steps)
            &&& after.records == before.records.insert(k, r->Ok_0@)
            &&& after.failures == before.failures
        },
        Err(e) => {
            &&& r == Err::<ProofRecord, ProofError>(e)
            &&& after.records == before.records
            &&& after.failures == before.failures.insert(k, e)
        },
    }
}

/// A counter step that stops at the largest value.
pub open spec fn bump(n: u64) -> u64 {
    if n < u64::MAX {
        (n + 1) as u64
    } else {
        n
    }
}

/// The validator's state as plain values.
pub struct ValidatorView {
    pub blobs: Map<Seq<char>, Seq<u8>>,
    pub records: Map<RecordKey, RecordView>,
    pub failures: Map<RecordKey, ProofError>,
    pub budget: u64,
    pub executions: u64,
}

/// What a submission finds before any execution.
pub enum Prepared {
    /// The key is already recorded: this is the record.
    Recorded(ProofRecord),
    /// The key's one run failed with this error.
    Failed(ProofError),
    /// The key is new; the module is stored under this digest and must be run.
    Fresh(String),
}

/// A prepared answer as a plain value.
pub open spec fn prepared_view(p: Prepared) -> Option<Result<RecordView, ProofError>> {
    match p {
        Prepared::Recorded(r) => Some(Ok(r@)),
        Prepared::Failed(e) => Some(Err(e)),
        Prepared::Fresh(_) => None,
    }
}

/// Validates proof modules: stores each module by digest, runs it once per seed in the
/// sandbox, and keeps one immutable record per `(digest, seed)`.
pub struct ProofValidator {
    store: ContentAddressStore,
    records: Vec<ProofRecord>,
    failures: FailureLog,
    budget: u64,
    executions: u64,
}

impl ProofValidator {
    pub closed spec fn view(&self) -> ValidatorView {
        ValidatorView {
            blobs: self.store@,
            records: record_map(self.records@),
            failures: self.failures@,
            budget: self.budget,
            executions: self.executions,
        }
    }

    pub closed spec fn wf(&self) -> bool {
        &&& self.store.wf()
        &&& self.failures.wf()
        &&& record_keys_unique(self.records@)
        &&& forall|i: int|
            0 <= i < self.records@.len() ==> self.store@.contains_key(
                #[trigger] self.records@[i].module_digest@,
            )
        &&& forall|i: int| 0 <= i < self.records@.len() ==> consistent(#[trigger] self.records@[i]@)
    }

    /// Every record refers to a stored module and carries the hash and weight of its
    /// own registers.
    pub proof fn lemma_records_sound(&self)
        requires
            self.wf(),
        ensures
            forall|k: RecordKey| #[trigger]
                self@.records.contains_key(k) ==> self@.blobs.contains_key(k.0) && consistent(
                    self@.records[k],
                ) && self@.records[k].module_digest == k.0 && self@.records[k].seed == k.1,
    {
        lemma_record_map(self.records@);
        assert forall|k: RecordKey| #[trigger]
            self@.records.contains_key(k) implies self@.blobs.contains_key(k.0) && consistent(
            self@.records[k],
        ) && self@.records[k].module_digest == k.0 && self@.records[k].seed == k.1 by {
            let j = choose|j: int|
                0 <= j < self.records@.len() && (self.records@[j].module_digest@, self.records@[j].seed)
                    == k;
            assert(self.store@.contains_key(self.records@[j].module_digest@));
            assert(consistent(self.records@[j]@));
        }
    }

    /// Every stored module sits under its own digest.
    pub proof fn lemma_content_addressed(&self)
        requires
            self.wf(),
        ensures
            forall|k: Seq<char>| #[trigger] self@.blobs.contains_key(k) ==> digest_of(self@.blobs[k]) == k,
    {
        self.store.lemma_content_addressed();
    }

    /// A validator with nothing stored, running modules with `budget` steps each.
    pub fn new(budget: u64) -> (r: Self)
        ensures
            r.wf(),
            r@.blobs == Map::<Seq<char>, Seq<u8>>::empty(),
            r@.records == Map::<RecordKey, RecordView>::empty(),
            r@.failures == Map::<RecordKey, ProofError>::empty(),
            r@.budget == budget,
            r@.executions == 0,
    {
        ProofValidator {
            store: ContentAddressStore::new(),
            records: Vec::new(),
            failures: FailureLog::new(),
            budget,
            executions: 0,
        }
    }

    /// The step budget of each run.
    pub fn budget(&self) -> (r: u64)
        ensures
            r == self@.budget,
    {
        self.budget
    }

    /// How many sandbox executions the validator has recorded the outcome of.
    pub fn executions(&self) -> (r: u64)
        ensures
            r == self@.executions,
    {
        self.executions
    }

    /// The number of records.
    pub fn record_count(&self) -> (r: usize)
        requires
            self.wf(),
        ensures
            r == self@.records.len(),
    {
        proof {
            self.lemma_count();
        }
        self.records.len()
    }

    proof fn lemma_count(&self)
        requires
            self.wf(),
        ensures
            self@.records.len() == self.records@.len(),
    {
        lemma_record_map_len(self.records@);
    }

    fn find(&self, digest: &String, seed: u64) -> (r: Option<usize>)
        requires
            self.wf(),
        ensures
            r is Some ==> r->0 < self.records@.len() && self.records@[r->0 as int].module_digest@
                == digest@ && self.records@[r->0 as int].seed == seed,
            r is Some <==> self@.records.contains_key((digest@, seed)),
    {
        let mut i: usize = 0;
        while i < self.records.len()
            invariant
                self.wf(),
                i <= self.records@.len(),
                forall|j: int|
                    0 <= j < i ==> (self.records@[j].module_digest@, self.records@[j].seed) != (
                    digest@,
                    seed,
                ),
            decreases self.records@.len() - i,
        {
            if self.records[i].seed == seed && self.records[i].module_digest == *digest {
                proof {
                    lemma_record_map(self.records@);
                    assert((self.records@[i as int].module_digest@, self.records@[i as int].seed) == (
                    digest@, seed));
                }
                return Some(i);
            }
            i = i + 1;
        }
        proof {
            lemma_record_map(self.records@);
        }
        None
    }

    /// The record for `(digest, seed)`, if there is one.
    pub fn lookup(&self, digest: &String, seed: u64) -> (r: Option<ProofRecord>)
        requires
            self.wf(),
        ensures
            r is Some <==> self@.records.contains_key((digest@, seed)),
            r is Some ==> r->0@ == self@.records[(digest@, seed)],
    {
        match self.find(digest, seed) {
            Some(i) => {
                proof {
                    lemma_record_map(self.records@);
                }
                Some(self.records[i].duplicate())
            },
            None => None,
        }
    }

    /// The module stored under `digest`, or `NotFound`.
    pub fn module(&self, digest: &String) -> (r: Result<Vec<u8>, ProofError>)
        requires
            self.wf(),
        ensures
            r is Ok <==> self@.blobs.contains_key(digest@),
            r is Ok ==> r->Ok_0@ == self@.blobs[digest@],
            r is Err ==> r->Err_0 == ProofError::NotFound,
    {
        self.store.get(digest)
    }

    /// Stores a module (if absent) and returns its digest.
    pub fn store_module(&mut self, bytes: &[u8]) -> (r: String)
        requires
            old(self).wf(),
        ensures
            final(self).wf(),
            r@ == digest_of(bytes@),
            final(self)@.blobs == put_view(old(self)@.blobs, bytes@),
            final(self)@.records == old(self)@.records,
            final(self)@.failures == old(self)@.failures,
            final(self)@.budget == old(self)@.budget,
            final(self)@.executions == old(self)@.executions,
    {
        let ghost before = *self;
        let d = self.store.put(bytes);
        proof {
            assert forall|i: int| 0 <= i < self.records@.len() implies self.store@.contains_key(
                #[trigger] self.records@[i].module_digest@,
            ) by {
                assert(before.store@.contains_key(self.records@[i].module_digest@));
            }
        }
        d
    }

    /// Whether a module is stored under `digest`.
    pub fn has_module(&self, digest: &String) -> (r: bool)
        requires
            self.wf(),
        ensures
            r == self@.blobs.contains_key(digest@),
    {
        self.store.contains(digest)
    }

    /// Files a module once the durable backend has reported on writing it: see
    /// `ContentAddressStore::commit`.
    pub fn commit_module(&mut self, bytes: &[u8], written: bool) -> (r: Result<String, ProofError>)
        requires
            old(self).wf(),
        ensures
            final(self).wf(),
            final(self)@.records == old(self)@.records,
            final(self)@.failures == old(self)@.failures,
            final(self)@.budget == old(self)@.budget,
            final(self)@.executions == old(self)@.executions,
            (old(self)@.blobs.contains_key(digest_of(bytes@)) || written) ==> r is Ok && r->Ok_0@
                == digest_of(bytes@) && final(self)@.blobs == put_view(old(self)@.blobs, bytes@),
            !(old(self)@.blobs.contains_key(digest_of(bytes@)) || written) ==> r
                == Err::<String, ProofError>(ProofError::StorageFailure) && final(self)@ == old(
                self,
            )@,
    {
        let ghost before = *self;
        let r = self.store.commit(bytes, written);
        proof {
            assert forall|i: int| 0 <= i < self.records@.len() implies self.store@.contains_key(
                #[trigger] self.records@[i].module_digest@,
            ) by {
                assert(before.store@.contains_key(self.records@[i].module_digest@));
            }
        }
        r
    }

    /// The first steps of a submission: the digest is computed without writing; a key
    /// that is recorded, or whose run failed, is answered from what it left; otherwise the
    /// module is stored (if absent).
    pub fn prepare(&mut self, bytes: &[u8], seed: u64) -> (r: Prepared)
        requires
            old(self).wf(),
        ensures
            final(self).wf(),
            final(self)@.records == old(self)@.records,
            final(self)@.failures == old(self)@.failures,
            final(self)@.budget == old(self)@.budget,
            final(self)@.executions == old(self)@.executions,
            answer(old(self)@, bytes@, seed) is Some ==> final(self)@ == old(self)@ && prepared_view(r)
                == answer(old(self)@, bytes@, seed),
            answer(old(self)@, bytes@, seed) is None ==> r is Fresh && r->Fresh_0@ == digest_of(
                bytes@,
            ) && final(self)@.blobs == put_view(old(self)@.blobs, bytes@),
    {
        let d = digest(bytes);
        match self.lookup(&d, seed) {
            Some(rec) => Prepared::Recorded(rec),
            None => match self.failures.get(&d, seed) {
                Some(e) => Prepared::Failed(e),
                None => {
                    let d2 = self.store_module(bytes);
                    Prepared::Fresh(d2)
                },
            },
        }
    }

    /// The last step of a submission: folds the outcome of running the module stored
    /// under `digest` into the validator. A new key keeps a record when the run
    /// succeeded and its error when it failed. What a key keeps is never overwritten: a
    /// run that reproduces it returns it, any other outcome is `IntegrityMismatch`. A
    /// recorded run agrees when it gives the same hash and weight. Each call counts one
    /// execution.
    pub fn record_outcome(
        &mut self,
        owner: Owner,
        digest: String,
        seed: u64,
        created_at: u64,
        outcome: Result<SandboxResult, ProofError>,
    ) -> (r: Result<ProofRecord, ProofError>)
        requires
            old(self).wf(),
            old(self)@.blobs.contains_key(digest@),
            outcome is Ok ==> outcome->Ok_0.registers@.len() <= usize::MAX / 8,
        ensures
            final(self).wf(),
            final(self)@.blobs == old(self)@.blobs,
            final(self)@.budget == old(self)@.budget,
            final(self)@.executions == bump(old(self)@.executions),
            old(self)@.records.contains_key((digest@, seed)) ==> {
                &&& final(self)@.records == old(self)@.records
                &&& final(self)@.failures == old(self)@.failures
                &&& (outcome is Ok && agrees(
                    old(self)@.records[(digest@, seed)],
                    outcome->Ok_0.registers@,
                )) ==> r is Ok && r->Ok_0@ == old(self)@.records[(digest@, seed)]
                &&& !(outcome is Ok && agrees(
                    old(self)@.records[(digest@, seed)],
                    outcome->Ok_0.registers@,
                )) ==> r == Err::<ProofRecord, ProofError>(ProofError::IntegrityMismatch)
            },
            !old(self)@.records.contains_key((digest@, seed)) && old(self)@.failures.contains_key(
                (digest@, seed),
            ) ==> {
                &&& final(self)@.records == old(self)@.records
                &&& final(self)@.failures == old(self)@.failures
                &&& (outcome is Err && outcome->Err_0 == old(self)@.failures[(digest@, seed)]) ==> r
                    == Err::<ProofRecord, ProofError>(outcome->Err_0)
                &&& !(outcome is Err && outcome->Err_0 == old(self)@.failures[(digest@, seed)])
                    ==> r == Err::<ProofRecord, ProofError>(ProofError::IntegrityMismatch)
            },
            !old(self)@.records.contains_key((digest@, seed)) && !old(self)@.failures.contains_key(
                (digest@, seed),
            ) ==> {
                &&& outcome is Err ==> r == Err::<ProofRecord, ProofError>(outcome->Err_0)
                    && final(self)@.records == old(self)@.records && final(self)@.failures == old(
                    self,
                )@.failures.insert((digest@, seed), outcome->Err_0)
                &&& outcome is Ok ==> r is Ok && r->Ok_0@ == fresh_record(
                    digest@,
                    seed,
                    owner_view(&owner),
                    created_at,
                    outcome->Ok_0.registers@,
                    outcome->Ok_0.step_count,
                ) && final(self)@.records == old(self)@.records.insert((digest@, seed), r->Ok_0@)
                    && final(self)@.failures == old(self)@.failures
            },
    {
        if self.executions < u64::MAX {
            self.executions = self.executions + 1;
        }
        match self.find(&digest, seed) {
            Some(i) => {
                proof {
                    lemma_record_map(self.records@);
                }
                match outcome {
                    Ok(res) => {
                        let h = result_hash(res.registers.as_slice());
                        let w = weight(res.registers.as_slice());
                        if h == self.records[i].result_hash && w == self.records[i].weight {
                            Ok(self.records[i].duplicate())
                        } else {
                            Err(ProofError::IntegrityMismatch)
                        }
                    },
                    Err(_) => Err(ProofError::IntegrityMismatch),
                }
            },
            None => match self.failures.get(&digest, seed) {
                Some(kept) => match outcome {
                    Err(e) => {
                        if e == kept {
                            Err(e)
                        } else {
                            Err(ProofError::IntegrityMismatch)
                        }
                    },
                    Ok(_) => Err(ProofError::IntegrityMismatch),
                },
                None => match outcome {
                    Err(e) => {
                        self.failures.insert(digest, seed, e);
                        Err(e)
                    },
                    Ok(res) => {
                        let h = result_hash(res.registers.as_slice());
                        let w = weight(res.registers.as_slice());
                        let rec = ProofRecord {
                            module_digest: digest,
                            owner,
                            created_at,
                            seed,
                            result_hash: h,
                            weight: w,
                            registers: res.registers,
                            step_count: res.step_count,
                        };
                        let out = rec.duplicate();
                        let ghost before = self.records@;
                        proof {
                            lemma_record_map(before);
                        }
                        self.records.push(rec);
                        proof {
                            assert(self.records@.drop_last() =~= before);
                            assert forall|a: int, b: int|
                                0 <= a < self.records@.len() && 0 <= b < self.records@.len() && a
                                    != b implies (
                                self.records@[a].module_digest@,
                                self.records@[a].seed,
                            ) != (self.records@[b].module_digest@, self.records@[b].seed) by {
                                if a < before.len() {
                                    assert(self.records@[a] == before[a]);
                                }
                                if b < before.len() {
                                    assert(self.records@[b] == before[b]);
                                }
                            }
                            assert forall|j: int| 0 <= j < self.records@.len() implies self.store@.contains_key(
                                #[trigger] self.records@[j].module_digest@,
                            ) && consistent(self.records@[j]@) by {
                                if j < before.len() {
                                    assert(self.records@[j] == before[j]);
                                }
                            }
                        }
                        Ok(out)
                    },
                },
            },
        }
    }

    /// Submits a proof module. A key that is recorded, or whose one run failed, is
    /// answered from that without running anything. Otherwise the module is stored; if
    /// it does not load the answer is `InvalidModule` and nothing runs; if it loads it runs
    /// once with the validator's budget, and a success becomes the key's record, a failure
    /// the key's kept error.
    pub fn submit(&mut self, owner: Owner, bytes: &[u8], seed: u64, created_at: u64) -> (r: Result<
        ProofRecord,
        ProofError,
    >)
        requires
            old(self).wf(),
        ensures
            final(self).wf(),
            final(self)@.budget == old(self)@.budget,
            answer(old(self)@, bytes@, seed) is Some ==> final(self)@ == old(self)@ && record_result(
                r,
            ) == answer(old(self)@, bytes@, seed)->0,
            answer(old(self)@, bytes@, seed) is None ==> {
                &&& final(self)@.blobs == put_view(old(self)@.blobs, bytes@)
                &&& !loads(bytes@) ==> r == Err::<ProofRecord, ProofError>(ProofError::InvalidModule)
                    && final(self)@.executions == old(self)@.executions && final(self)@.records
                    == old(self)@.records && final(self)@.failures == old(self)@.failures
                &&& loads(bytes@) ==> final(self)@.executions == bump(old(self)@.executions)
                    && fresh_outcome(
                    old(self)@,
                    final(self)@,
                    r,
                    bytes@,
                    seed,
                    owner_view(&owner),
                    created_at,
                )
            },
    {
        match self.prepare(bytes, seed) {
            Prepared::Recorded(rec) => Ok(rec),
            Prepared::Failed(e) => Err(e),
            Prepared::Fresh(d) => {
                let module = match load(bytes) {
                    Ok(m) => m,
                    Err(e) => return Err(e),
                };
                let outcome = run(&module, seed, self.budget);
                proof {
                    self.store.lemma_put_present(bytes@);
                }
                self.record_outcome(owner, d, seed, created_at, outcome)
            },
        }
    }
}

proof fn lemma_record_map_len(s: Seq<ProofRecord>)
    requires
        record_keys_unique(s),
    ensures
        record_map(s).len() == s.len(),
        record_map(s).dom().finite(),
    decreases s.len(),
{
    if s.len() > 0 {
        let t = s.drop_last();
        assert(record_keys_unique(t)) by {
            assert forall|i: int, j: int|
                0 <= i < t.len() && 0 <= j < t.len() && i != j implies (
                t[i].module_digest@,
                t[i].seed,
            ) != (t[j].module_digest@, t[j].seed) by {
                assert(t[i] == s[i] && t[j] == s[j]);
            }
        }
        lemma_record_map_len(t);
        lemma_record_map(t);
        let k = (s.last().module_digest@, s.last().seed);
        if record_map(t).contains_key(k) {
            let j = choose|j: int| 0 <= j < t.len() && (t[j].module_digest@, t[j].seed) == k;
            assert(t[j] == s[j]);
        }
    }
}

/// Submitting the same bytes and seed again is answered from what the first submission
/// left, so it runs nothing: a successful run left its record, a failed run its error.
pub proof fn lemma_resubmission(
    v: ValidatorView,
    bytes: Seq<u8>,
    seed: u64,
    first: RecordView,
    e: ProofError,
)
    ensures
        answer(
            ValidatorView { records: v.records.insert((digest_of(bytes), seed), first), ..v },
            bytes,
            seed,
        ) == Some(Ok::<RecordView, ProofError>(first)),
        !v.records.contains_key((digest_of(bytes), seed)) ==> answer(
            ValidatorView { failures: v.failures.insert((digest_of(bytes), seed), e), ..v },
            bytes,
            seed,
        ) == Some(Err::<RecordView, ProofError>(e)),
{
}

} // verus!
