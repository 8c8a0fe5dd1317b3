use vstd::prelude::*;
use vstd::arithmetic::div_mod::{lemma_fundamental_div_mod, lemma_fundamental_div_mod_converse};

verus! {

/// Nanoseconds in one second.
pub const NANOS_PER_SEC: u32 = 1_000_000_000;

/// A span of time with nanosecond precision: whole seconds plus the
/// nanoseconds of the last, incomplete second. It is read as one number,
/// its total count of nanoseconds.
#[derive(Debug, Clone, Copy)]
pub struct Elapsed {
    secs: u64,
    nanos: u32,
}

/// The largest count of nanoseconds that a span can hold.
pub open spec fn max_nanos() -> nat {
    u64::MAX as nat * NANOS_PER_SEC as nat + (NANOS_PER_SEC - 1) as nat
}

impl View for Elapsed {
    type V = nat;

    /// The total count of nanoseconds.
    closed spec fn view(&self) -> nat {
        self.secs as nat * NANOS_PER_SEC as nat + self.nanos as nat
    }
}

/// Splitting a count of nanoseconds into seconds and the rest is unique.
proof fn lemma_split_nanos(total: nat, secs: nat, nanos: nat)
    requires
        nanos < NANOS_PER_SEC,
        total == secs * NANOS_PER_SEC as nat + nanos,
    ensures
        secs == total / (NANOS_PER_SEC as nat),
        nanos == total % (NANOS_PER_SEC as nat),
{
    lemma_fundamental_div_mod_converse(
        total as int,
        NANOS_PER_SEC as int,
        secs as int,
        nanos as int,
    );
}

impl Elapsed {
    #[verifier::type_invariant]
    spec fn wf(self) -> bool {
        self.nanos < NANOS_PER_SEC
    }

    /// The empty span.
    pub fn zero() -> (res: Elapsed)
        ensures
            res@ == 0,
    {
        Elapsed { secs: 0, nanos: 0 }
    }

    /// The span of `secs` seconds and `nanos` nanoseconds; nanoseconds
    /// beyond a second carry into the seconds.
    pub fn new(secs: u64, nanos: u32) -> (res: Elapsed)
        requires
            secs as nat * NANOS_PER_SEC as nat + nanos as nat <= max_nanos(),
        ensures
            res@ == secs as nat * NANOS_PER_SEC as nat + nanos as nat,
    {
        let extra: u32 = nanos / NANOS_PER_SEC;
        let rest: u32 = nanos % NANOS_PER_SEC;
        proof {
            lemma_fundamental_div_mod(nanos as int, NANOS_PER_SEC as int);
        }
        let total_secs: u64 = secs + extra as u64;
        Elapsed { secs: total_secs, nanos: rest }
    }

    /// The whole seconds of the span.
    pub fn as_secs(&self) -> (res: u64)
        ensures
            res == self@ / (NANOS_PER_SEC as nat),
    {
        proof {
            use_type_invariant(self);
            lemma_split_nanos(self@, self.secs as nat, self.nanos as nat);
        }
        self.secs
    }

    /// The nanoseconds of the span beyond its whole seconds.
    pub fn subsec_nanos(&self) -> (res: u32)
        ensures
            res == self@ % (NANOS_PER_SEC as nat),
            res < NANOS_PER_SEC,
    {
        proof {
            use_type_invariant(self);
            lemma_split_nanos(self@, self.secs as nat, self.nanos as nat);
        }
        self.nanos
    }

    /// The sum of two spans; the sum must fit.
    pub fn add(&self, other: &Elapsed) -> (res: Elapsed)
        requires
            self@ + other@ <= max_nanos(),
        ensures
            res@ == self@ + other@,
    {
        proof {
            use_type_invariant(self);
            use_type_invariant(other);
        }
        let nanos: u32 = self.nanos + other.nanos;
        if nanos >= NANOS_PER_SEC {
            let secs: u64 = self.secs + other.secs + 1;
            Elapsed { secs, nanos: nanos - NANOS_PER_SEC }
        } else {
            let secs: u64 = self.secs + other.secs;
            Elapsed { secs, nanos }
        }
    }

    /// The span divided by `rhs`, rounded down to the nanosecond.
    pub fn div(&self, rhs: u32) -> (res: Elapsed)
        requires
            rhs != 0,
        ensures
            res@ == self@ / (rhs as nat),
    {
        proof {
            use_type_invariant(self);
        }
        let r: u64 = rhs as u64;
        let secs: u64 = self.secs / r;
        let extra_secs: u64 = self.secs % r;
        let nanos_q: u32 = self.nanos / rhs;
        let nanos_r: u32 = self.nanos % rhs;
        proof {
            lemma_fundamental_div_mod(self.secs as int, r as int);
            lemma_fundamental_div_mod(self.nanos as int, rhs as int);
            assert(extra_secs * (NANOS_PER_SEC as u64) + nanos_r as u64 <= u64::MAX) by (nonlinear_arith)
                requires
                    extra_secs < r,
                    r <= u32::MAX,
                    nanos_r < rhs,
                    r == rhs,
            ;
        }
        let carried: u64 = extra_secs * (NANOS_PER_SEC as u64) + nanos_r as u64;
        let carried_q: u64 = carried / r;
        proof {
            lemma_fundamental_div_mod(carried as int, r as int);
            lemma_div_parts(
                self.secs as int,
                self.nanos as int,
                r as int,
                secs as int,
                extra_secs as int,
                nanos_q as int,
                nanos_r as int,
                carried_q as int,
                (carried % r) as int,
            );
        }
        let nanos: u32 = nanos_q + carried_q as u32;
        Elapsed { secs, nanos }
    }
}

/// The arithmetic behind dividing a span: with
/// `s = q*r + es`, `n = qn*r + en` and `es*1e9 + en = qm*r + em`,
/// the quotient of `s*1e9 + n` by `r` is `q*1e9 + (qn + qm)`,
/// and `qn + qm` stays below a second.
proof fn lemma_div_parts(
    s: int,
    n: int,
    r: int,
    q: int,
    es: int,
    qn: int,
    en: int,
    qm: int,
    em: int,
)
    requires
        r > 0,
        0 <= n < NANOS_PER_SEC,
        0 <= es < r,
        0 <= en < r,
        0 <= em < r,
        q >= 0,
        qn >= 0,
        qm >= 0,
        s == q * r + es,
        n == qn * r + en,
        es * NANOS_PER_SEC + en == qm * r + em,
    ensures
        (s * NANOS_PER_SEC + n) / r == q * NANOS_PER_SEC + qn + qm,
        qn + qm < NANOS_PER_SEC,
{
    let b = NANOS_PER_SEC as int;
    assert(s * b + n == (q * b + qn + qm) * r + em) by (nonlinear_arith)
        requires
            s == q * r + es,
            n == qn * r + en,
            es * b + en == qm * r + em,
    ;
    lemma_fundamental_div_mod_converse(s * b + n, r, q * b + qn + qm, em);
    assert((qn + qm) * r <= n + es * b) by (nonlinear_arith)
        requires
            n == qn * r + en,
            es * b + en == qm * r + em,
            en >= 0,
            em >= 0,
    ;
    assert(n + es * b < r * b) by (nonlinear_arith)
        requires
            n < b,
            es < r,
            es >= 0,
            b > 0,
    ;
    assert(qn + qm < b) by (nonlinear_arith)
        requires
            (qn + qm) * r < r * b,
            r > 0,
    ;
}

} // verus!
