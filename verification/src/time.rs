//! A span of time with nanosecond precision, as seconds plus a sub-second
//! nanosecond part (the shape of `std::time::Duration`).

use vstd::prelude::*;

verus! {

/// Nanoseconds in one second.
pub const NANOS_PER_SEC: u32 = 1000000000;

/// A span of time: whole seconds plus nanoseconds below one second.
#[derive(Debug, Clone, Copy, PartialEq, Eq, Structural)]
pub struct Span {
    secs: u64,
    nanos: u32,
}

/// The largest total, in nanoseconds, that a span can hold.
pub open spec fn max_span_nanos() -> int {
    u64::MAX as int * NANOS_PER_SEC as int + (NANOS_PER_SEC as int - 1)
}

impl Span {
    #[verifier::type_invariant]
    pub(crate) closed spec fn wf(self) -> bool {
        self.nanos < NANOS_PER_SEC
    }

    /// A well-formed span's total fits the largest total.
    pub(crate) proof fn lemma_fits(self)
        requires
            self.wf(),
        ensures
            0 <= self.total_nanos() <= max_span_nanos(),
    {
    }

    /// The whole seconds.
    pub closed spec fn spec_secs(self) -> nat {
        self.secs as nat
    }

    /// The nanoseconds below one second.
    pub closed spec fn spec_subsec_nanos(self) -> nat {
        self.nanos as nat
    }

    /// The span's total length in nanoseconds.
    pub open spec fn total_nanos(self) -> int {
        self.spec_secs() * NANOS_PER_SEC as int + self.spec_subsec_nanos()
    }

    /// A span of `secs` whole seconds and `nanos` further nanoseconds;
    /// nanoseconds of a second or more carry into the seconds.
    pub fn new(secs: u64, nanos: u32) -> (r: Span)
        requires
            secs + nanos / NANOS_PER_SEC <= u64::MAX,
        ensures
            r.total_nanos() == secs * NANOS_PER_SEC + nanos,
    {
        let carry = (nanos / NANOS_PER_SEC) as u64;
        let rest = nanos % NANOS_PER_SEC;
        Span { secs: secs + carry, nanos: rest }
    }

    /// A span of `secs` whole seconds.
    pub fn from_secs(secs: u64) -> (r: Span)
        ensures
            r.total_nanos() == secs * NANOS_PER_SEC,
            r.spec_secs() == secs,
            r.spec_subsec_nanos() == 0,
    {
        Span { secs, nanos: 0 }
    }

    /// A span of `millis` milliseconds.
    pub fn from_millis(millis: u64) -> (r: Span)
        ensures
            r.total_nanos() == millis * 1000000,
    {
        let secs = millis / 1000;
        let nanos = ((millis % 1000) * 1000000) as u32;
        Span { secs, nanos }
    }

    /// The whole seconds.
    pub fn as_secs(&self) -> (r: u64)
        ensures
            r == self.spec_secs(),
    {
        self.secs
    }

    /// The nanoseconds below one second.
    pub fn subsec_nanos(&self) -> (r: u32)
        ensures
            r == self.spec_subsec_nanos(),
            r < NANOS_PER_SEC,
    {
        proof {
            use_type_invariant(self);
        }
        self.nanos
    }

    /// `k` times this span, or `None` when the product does not fit.
    pub fn checked_mul(&self, k: u32) -> (r: Option<Span>)
        ensures
            self.total_nanos() * k <= max_span_nanos() ==> (r matches Some(s) && s.total_nanos()
                == self.total_nanos() * k),
            self.total_nanos() * k > max_span_nanos() ==> r is None,
    {
        proof {
            use_type_invariant(self);
        }
        let total: u128 = (self.secs as u128) * 1000000000u128 + (self.nanos as u128);
        assert(total == self.total_nanos());
        assert(total * (k as u128) <= 0xffff_ffff_ffff_ffff * 1000000000u128 * 0xffff_ffffu128
            + 999999999u128 * 0xffff_ffffu128) by (nonlinear_arith)
            requires
                total <= 0xffff_ffff_ffff_ffff * 1000000000 + 999999999,
                k <= 0xffff_ffff,
        ;
        let prod: u128 = total * (k as u128);
        let secs = prod / 1000000000u128;
        let nanos = prod % 1000000000u128;
        if secs > 18446744073709551615u128 {
            assert(prod > max_span_nanos()) by (nonlinear_arith)
                requires
                    secs == prod / 1000000000,
                    secs > 18446744073709551615,
            ;
            return None;
        }
        assert(prod <= max_span_nanos()) by (nonlinear_arith)
            requires
                secs == prod / 1000000000,
                secs <= 18446744073709551615,
                nanos == prod % 1000000000,
        ;
        let r = Span { secs: secs as u64, nanos: nanos as u32 };
        assert(r.total_nanos() == prod) by (nonlinear_arith)
            requires
                secs == prod / 1000000000,
                nanos == prod % 1000000000,
                r.total_nanos() == secs * 1000000000 + nanos,
        ;
        Some(r)
    }

    /// `k` times this span. The product must fit.
    pub fn mul(&self, k: u32) -> (r: Span)
        requires
            self.total_nanos() * k <= max_span_nanos(),
        ensures
            r.total_nanos() == self.total_nanos() * k,
    {
        match self.checked_mul(k) {
            Some(s) => s,
            None => {
                assert(false);
                *self
            },
        }
    }
}

} // verus!
