use vstd::prelude::*;

verus! {

/// One billion: the parts of a whole in a `Perbill`.
pub const BILLION: u64 = 1_000_000_000;

/// A fraction in parts per billion.
#[derive(Clone, Copy, Debug, PartialEq, Eq, Structural)]
pub struct Perbill(pub u32);

/// `p / q` in parts per billion, rounded down, as `from_rational_approximation`
/// computes it: `q` is taken to be at least 1 and `p` at most `q`; both are
/// divided by `max(q / 10^9, 1)` so that they fit 32 bits, and the part is
/// the reduced `p` times `10^9` over the reduced `q`.
pub open spec fn spec_rational_parts(p: u64, q: u64) -> int {
    let q1: int = if q >= 1 { q as int } else { 1 };
    let p1: int = if p <= q1 { p as int } else { q1 };
    let factor: int = if q1 / 1_000_000_000 >= 1 { q1 / 1_000_000_000 } else { 1 };
    (p1 / factor) * 1_000_000_000 / (q1 / factor)
}

proof fn lemma_reduced_denominator(q1: int, factor: int)
    requires
        q1 >= 1,
        factor == if q1 / 1_000_000_000 >= 1 { q1 / 1_000_000_000 } else { 1 },
    ensures
        1 <= q1 / factor < 2_000_000_000,
{
    if q1 / 1_000_000_000 >= 1 {
        assert(q1 < (factor + 1) * 1_000_000_000) by (nonlinear_arith)
            requires
                factor == q1 / 1_000_000_000,
                q1 >= 0,
        ;
        assert(q1 / factor < 2_000_000_000) by (nonlinear_arith)
            requires
                factor >= 1,
                q1 < (factor + 1) * 1_000_000_000,
        ;
        assert(q1 / factor >= 1) by (nonlinear_arith)
            requires
                factor == q1 / 1_000_000_000,
                factor >= 1,
                q1 >= 0,
        ;
    }
}

/// A fraction in parts per billion is at most a whole.
pub(crate) proof fn lemma_rational_parts_bounded(p: u64, q: u64)
    ensures
        0 <= spec_rational_parts(p, q) <= 1_000_000_000,
        p >= q && p > 0 ==> spec_rational_parts(p, q) == 1_000_000_000,
{
    let q1: int = if q >= 1 { q as int } else { 1 };
    let p1: int = if p <= q1 { p as int } else { q1 };
    let factor: int = if q1 / 1_000_000_000 >= 1 { q1 / 1_000_000_000 } else { 1 };
    lemma_reduced_denominator(q1, factor);
    let pr = p1 / factor;
    let qr = q1 / factor;
    assert(0 <= pr <= qr) by (nonlinear_arith)
        requires
            0 <= p1 <= q1,
            factor >= 1,
            pr == p1 / factor,
            qr == q1 / factor,
    ;
    assert(0 <= pr * 1_000_000_000 / qr <= 1_000_000_000) by (nonlinear_arith)
        requires
            0 <= pr <= qr,
            qr >= 1,
    ;
    if p >= q && p > 0 {
        assert(p1 == q1);
        assert(pr == qr);
        assert(qr * 1_000_000_000 / qr == 1_000_000_000) by (nonlinear_arith)
            requires
                qr >= 1,
        ;
    }
}

impl Perbill {
    /// The whole.
    pub fn one() -> (r: Perbill)
        ensures
            r.0 == 1_000_000_000,
    {
        Perbill(1_000_000_000)
    }

    /// The approximation of `p / q` in parts per billion, rounded down; a
    /// whole when `p >= q`, and `q` of 0 counted as 1.
    pub fn from_rational_approximation(p: u64, q: u64) -> (r: Perbill)
        ensures
            r.0 == spec_rational_parts(p, q),
    {
        proof {
            lemma_rational_parts_bounded(p, q);
        }
        let q = if q >= 1 { q } else { 1 };
        let p = if p <= q { p } else { q };
        let factor = if q / BILLION >= 1 { q / BILLION } else { 1 };
        proof {
            lemma_reduced_denominator(q as int, factor as int);
        }
        let q_reduce: u64 = q / factor;
        let p_reduce: u64 = p / factor;
        assert(p_reduce <= q_reduce) by (nonlinear_arith)
            requires
                p <= q,
                factor >= 1,
                p_reduce == p / factor,
                q_reduce == q / factor,
        ;
        assert(p_reduce * BILLION <= 2_000_000_000 * 1_000_000_000) by (nonlinear_arith)
            requires
                p_reduce <= q_reduce,
                q_reduce < 2_000_000_000,
        ;
        let part = p_reduce * BILLION / q_reduce;
        Perbill(part as u32)
    }

    /// The square of the fraction: `x * x` over `10^18`, approximated in
    /// parts per billion.
    pub fn square(self) -> (r: Perbill)
        ensures
            r.0 == spec_rational_parts((self.0 * self.0) as u64, 1_000_000_000_000_000_000),
    {
        assert(self.0 as int * self.0 as int <= u32::MAX as int * u32::MAX as int) by (nonlinear_arith)
            requires
                self.0 <= u32::MAX,
        ;
        let p: u64 = self.0 as u64 * self.0 as u64;
        let q: u64 = BILLION * BILLION;
        Perbill::from_rational_approximation(p, q)
    }
}

/// A BABE equivocation offence: a validator released two or more blocks in
/// the same slot.
pub struct BabeEquivocationOffence<FullIdentification> {
    /// The slot in which the incident happened.
    pub slot: u64,
    /// The session in which the incident happened.
    pub session_index: u32,
    /// The size of the validator set at the time of the offence.
    pub validator_set_count: u32,
    /// The authority that produced the equivocation.
    pub offender: FullIdentification,
}

/// The kind of a BABE equivocation offence: the bytes of `"babe:equivocatio"`.
pub const EQUIVOCATION_ID: [u8; 16] = [
    98u8, 97u8, 98u8, 101u8, 58u8, 101u8, 113u8, 117u8, 105u8, 118u8, 111u8, 99u8, 97u8, 116u8,
    105u8, 111u8,
];

/// The fraction slashed for an equivocation of `offenders_count` of
/// `validator_set_count` validators: `min((3k / n)^2, 1)`, in parts per
/// billion.
pub open spec fn spec_slash_fraction(offenders_count: u32, validator_set_count: u32) -> int {
    let x = spec_rational_parts((3 * offenders_count) as u64, validator_set_count as u64);
    spec_rational_parts((x * x) as u64, 1_000_000_000_000_000_000)
}

impl<FullIdentification: Clone> BabeEquivocationOffence<FullIdentification> {
    /// The offenders: the one authority.
    pub fn offenders(&self) -> (r: Vec<FullIdentification>)
        ensures
            r@.len() == 1,
            cloned::<FullIdentification>(self.offender, r@[0]),
    {
        let mut offenders: Vec<FullIdentification> = Vec::new();
        offenders.push(self.offender.clone());
        offenders
    }

    /// The session in which the offence happened.
    pub fn session_index(&self) -> (r: u32)
        ensures
            r == self.session_index,
    {
        self.session_index
    }

    /// The size of the validator set at the time of the offence.
    pub fn validator_set_count(&self) -> (r: u32)
        ensures
            r == self.validator_set_count,
    {
        self.validator_set_count
    }

    /// The slot in which the offence happened.
    pub fn time_slot(&self) -> (r: u64)
        ensures
            r == self.slot,
    {
        self.slot
    }

    /// The fraction of stake slashed: `min((3k / n)^2, 1)` for `k`
    /// offenders out of `n` validators.
    pub fn slash_fraction(offenders_count: u32, validator_set_count: u32) -> (r: Perbill)
        requires
            3 * offenders_count <= u32::MAX,
        ensures
            r.0 == spec_slash_fraction(offenders_count, validator_set_count),
    {
        let x = Perbill::from_rational_approximation((3 * offenders_count) as u64, validator_set_count as u64);
        x.square()
    }
}

} // verus!
