use vstd::prelude::*;

use crate::digest::{digest, digest_of};

verus! {

/// Who submitted a proof: nobody in particular, or a resolved login.
#[derive(Debug)]
pub enum Owner {
    Anonymous,
    Identified { login: String },
}

/// The owner as a plain value: `None` for anonymous, else the login.
pub open spec fn owner_view(o: &Owner) -> Option<Seq<char>> {
    match o {
        Owner::Anonymous => None,
        Owner::Identified { login } => Some(login@),
    }
}

impl Owner {
    pub fn duplicate(&self) -> (r: Owner)
        ensures
            owner_view(&r) == owner_view(self),
    {
        match self {
            Owner::Anonymous => Owner::Anonymous,
            Owner::Identified { login } => Owner::Identified { login: login.clone() },
        }
    }

    /// Whether two owners are the same principal.
    pub fn same_as(&self, other: &Owner) -> (r: bool)
        ensures
            r == (owner_view(self) == owner_view(other)),
    {
        match (self, other) {
            (Owner::Anonymous, Owner::Anonymous) => true,
            (Owner::Identified { login: a }, Owner::Identified { login: b }) => *a == *b,
            _ => false,
        }
    }
}

/// A validated execution tied to its inputs. Keyed by `(module_digest, seed)`.
#[derive(Debug)]
pub struct ProofRecord {
    pub module_digest: String,
    pub owner: Owner,
    pub created_at: u64,
    pub seed: u64,
    pub result_hash: String,
    pub weight: u64,
    pub registers: Vec<u64>,
    pub step_count: u64,
}

/// A record as plain values.
pub struct RecordView {
    pub module_digest: Seq<char>,
    pub owner: Option<Seq<char>>,
    pub created_at: u64,
    pub seed: u64,
    pub result_hash: Seq<char>,
    pub weight: u64,
    pub registers: Seq<u64>,
    pub step_count: u64,
}

impl ProofRecord {
    pub open spec fn view(&self) -> RecordView {
        RecordView {
            module_digest: self.module_digest@,
            owner: owner_view(&self.owner),
            created_at: self.created_at,
            seed: self.seed,
            result_hash: self.result_hash@,
            weight: self.weight,
            registers: self.registers@,
            step_count: self.step_count,
        }
    }

    pub fn duplicate(&self) -> (r: ProofRecord)
        ensures
            r@ == self@,
    {
        let registers = self.registers.clone();
        assert(registers@ =~= self.registers@);
        ProofRecord {
            module_digest: self.module_digest.clone(),
            owner: self.owner.duplicate(),
            created_at: self.created_at,
            seed: self.seed,
            result_hash: self.result_hash.clone(),
            weight: self.weight,
            registers,
            step_count: self.step_count,
        }
    }

    /// Whether two records agree on every field.
    pub fn same_as(&self, other: &ProofRecord) -> (r: bool)
        ensures
            r == (self@ == other@),
    {
        let same = self.module_digest == other.module_digest && self.owner.same_as(&other.owner)
            && self.created_at == other.created_at && self.seed == other.seed && self.result_hash
            == other.result_hash && self.weight == other.weight && self.step_count
            == other.step_count && same_registers(&self.registers, &other.registers);
        proof {
            if same {
                assert(self@ == other@);
            }
        }
        same
    }
}

fn same_registers(a: &Vec<u64>, b: &Vec<u64>) -> (r: bool)
    ensures
        r == (a@ == b@),
{
    if a.len() != b.len() {
        return false;
    }
    let mut i: usize = 0;
    while i < a.len()
        invariant
            a@.len() == b@.len(),
            i <= a@.len(),
            forall|k: int| 0 <= k < i ==> a@[k] == b@[k],
        decreases a@.len() - i,
    {
        if a[i] != b[i] {
            return false;
        }
        i = i + 1;
    }
    assert(a@ =~= b@);
    true
}

/// 256 to the power `i`.
pub open spec fn pow256(i: nat) -> nat
    decreases i,
{
    if i == 0 {
        1
    } else {
        256 * pow256((i - 1) as nat)
    }
}

/// Byte `i` (least significant first) of `x`.
pub open spec fn le_byte(x: u64, i: nat) -> u8 {
    ((x as nat / pow256(i)) % 256) as u8
}

/// The registers as bytes: each value in eight little-endian bytes, in order.
pub open spec fn register_bytes(regs: Seq<u64>) -> Seq<u8> {
    Seq::new(8 * regs.len(), |k: int| le_byte(regs[k / 8], (k % 8) as nat))
}

/// The result hash of a run: hexadecimal SHA-256 of its register bytes.
pub open spec fn result_hash_of(regs: Seq<u64>) -> Seq<char> {
    digest_of(register_bytes(regs))
}

/// The weight of a run: its largest register, or zero when there is none.
pub open spec fn weight_of(regs: Seq<u64>) -> u64
    decreases regs.len(),
{
    if regs.len() == 0 {
        0
    } else {
        let w = weight_of(regs.drop_last());
        if regs.last() > w {
            regs.last()
        } else {
            w
        }
    }
}

proof fn lemma_pow256_positive(i: nat)
    ensures
        pow256(i) > 0,
    decreases i,
{
    if i > 0 {
        lemma_pow256_positive((i - 1) as nat);
    }
}

/// Encodes the registers as bytes, eight little-endian bytes each.
pub fn encode_registers(regs: &[u64]) -> (r: Vec<u8>)
    requires
        regs@.len() <= usize::MAX / 8,
    ensures
        r@ == register_bytes(regs@),
{
    let mut out: Vec<u8> = Vec::new();
    let mut i: usize = 0;
    while i < regs.len()
        invariant
            i <= regs@.len(),
            regs@.len() <= usize::MAX / 8,
            out@ =~= register_bytes(regs@.subrange(0, i as int)),
        decreases regs@.len() - i,
    {
        let x = regs[i];
        let mut v: u64 = x;
        let mut j: usize = 0;
        let ghost base = out@;
        assert(pow256(0) == 1);
        while j < 8
            invariant
                j <= 8,
                i < regs@.len(),
                x == regs@[i as int],
                v as nat == x as nat / pow256(j as nat),
                base =~= register_bytes(regs@.subrange(0, i as int)),
                out@.len() == base.len() + j,
                out@.subrange(0, base.len() as int) =~= base,
                forall|t: int| 0 <= t < j ==> out@[base.len() + t] == #[trigger] le_byte(x, t as nat),
            decreases 8 - j,
        {
            out.push((v % 256) as u8);
            proof {
                lemma_pow256_positive(j as nat);
                vstd::arithmetic::div_mod::lemma_div_denominator(
                    x as int,
                    pow256(j as nat) as int,
                    256,
                );
                assert(pow256(j as nat + 1) == 256 * pow256(j as nat));
                assert(pow256(j as nat) * 256 == 256 * pow256(j as nat)) by (nonlinear_arith);
            }
            v = v / 256;
            j = j + 1;
        }
        proof {
            let s = regs@.subrange(0, i as int + 1);
            assert(s.subrange(0, i as int) =~= regs@.subrange(0, i as int));
            assert forall|k: int| 0 <= k < out@.len() implies out@[k] == register_bytes(s)[k] by {
                if k < base.len() {
                    assert(out@[k] == base[k]);
                    assert(k / 8 < i) by (nonlinear_arith)
                        requires
                            k < 8 * i,
                            0 <= k,
                    ;
                } else {
                    let t = k - base.len();
                    assert(k / 8 == i && k % 8 == t) by (nonlinear_arith)
                        requires
                            k == 8 * i + t,
                            0 <= t < 8,
                    ;
                    assert(out@[base.len() + t] == le_byte(x, t as nat));
                }
            }
            assert(out@ =~= register_bytes(s));
        }
        i = i + 1;
    }
    assert(regs@.subrange(0, regs@.len() as int) =~= regs@);
    out
}

/// The result hash of a run's registers.
pub fn result_hash(regs: &[u64]) -> (r: String)
    requires
        regs@.len() <= usize::MAX / 8,
    ensures
        r@ == result_hash_of(regs@),
{
    let bytes = encode_registers(regs);
    digest(bytes.as_slice())
}

/// The weight of a run's registers.
pub fn weight(regs: &[u64]) -> (r: u64)
    ensures
        r == weight_of(regs@),
{
    let mut w: u64 = 0;
    let mut i: usize = 0;
    while i < regs.len()
        invariant
            i <= regs@.len(),
            w == weight_of(regs@.subrange(0, i as int)),
        decreases regs@.len() - i,
    {
        let ghost s = regs@.subrange(0, i as int + 1);
        assert(s.drop_last() =~= regs@.subrange(0, i as int));
        if regs[i] > w {
            w = regs[i];
        }
        i = i + 1;
    }
    assert(regs@.subrange(0, regs@.len() as int) =~= regs@);
    w
}

} // verus!
