use vstd::prelude::*;

verus! {

/// Two to the power 64.
pub open spec fn radix() -> int {
    0x1_0000_0000_0000_0000
}

/// Two to the power 256.
pub open spec fn modulus() -> int {
    radix() * radix() * radix() * radix()
}

/// An unsigned 256-bit integer, held as four words: `w0` is the most significant.
#[derive(Clone, Copy, Debug, PartialEq, Eq, Structural, Hash)]
pub struct U256 {
    pub w0: u64,
    pub w1: u64,
    pub w2: u64,
    pub w3: u64,
}

impl U256 {
    /// The number that the four words stand for.
    pub open spec fn value(self) -> int {
        ((self.w0 * radix() + self.w1) * radix() + self.w2) * radix() + self.w3
    }

    /// The value is below two to the power 256, and it determines the words.
    pub proof fn lemma_value(self)
        ensures
            0 <= self.value() < modulus(),
    {
        assert(self.value() < modulus()) by (nonlinear_arith)
            requires
                self.value() == ((self.w0 * radix() + self.w1) * radix() + self.w2) * radix()
                    + self.w3,
                modulus() == radix() * radix() * radix() * radix(),
                radix() == 0x1_0000_0000_0000_0000,
                0 <= self.w0 < radix(),
                0 <= self.w1 < radix(),
                0 <= self.w2 < radix(),
                0 <= self.w3 < radix(),
        ;
        assert(self.value() >= 0) by (nonlinear_arith)
            requires
                self.value() == ((self.w0 * radix() + self.w1) * radix() + self.w2) * radix()
                    + self.w3,
                radix() == 0x1_0000_0000_0000_0000,
                0 <= self.w0,
                0 <= self.w1,
                0 <= self.w2,
                0 <= self.w3,
        ;
    }

    /// Zero.
    pub fn zero() -> (r: U256)
        ensures
            r.value() == 0,
            r == (U256 { w0: 0, w1: 0, w2: 0, w3: 0 }),
    {
        U256 { w0: 0, w1: 0, w2: 0, w3: 0 }
    }

    /// The number `v`.
    pub open spec fn from_u64_spec(v: u64) -> U256 {
        U256 { w0: 0, w1: 0, w2: 0, w3: v }
    }

    /// The number `v`.
    pub fn from_u64(v: u64) -> (r: U256)
        ensures
            r.value() == v,
            r == U256::from_u64_spec(v),
    {
        U256 { w0: 0, w1: 0, w2: 0, w3: v }
    }

    /// The sum of two numbers modulo two to the power 256, word by word
    /// with carries.
    pub open spec fn wrapping_sum(self, other: U256) -> U256 {
        let s3 = self.w3 + other.w3;
        let s2 = self.w2 + other.w2 + s3 / radix();
        let s1 = self.w1 + other.w1 + s2 / radix();
        let s0 = self.w0 + other.w0 + s1 / radix();
        U256 {
            w0: (s0 % radix()) as u64,
            w1: (s1 % radix()) as u64,
            w2: (s2 % radix()) as u64,
            w3: (s3 % radix()) as u64,
        }
    }

    /// The sum of two numbers modulo two to the power 256, and whether the
    /// true sum was that large.
    pub fn overflowing_add(&self, other: &U256) -> (r: (U256, bool))
        ensures
            r.0 == self.wrapping_sum(*other),
            r.0.value() == (self.value() + other.value()) % modulus(),
            r.1 == (self.value() + other.value() >= modulus()),
    {
        let s3: u128 = self.w3 as u128 + other.w3 as u128;
        let r3: u64 = (s3 % 0x1_0000_0000_0000_0000) as u64;
        let c3: u128 = s3 / 0x1_0000_0000_0000_0000;
        let s2: u128 = self.w2 as u128 + other.w2 as u128 + c3;
        let r2: u64 = (s2 % 0x1_0000_0000_0000_0000) as u64;
        let c2: u128 = s2 / 0x1_0000_0000_0000_0000;
        let s1: u128 = self.w1 as u128 + other.w1 as u128 + c2;
        let r1: u64 = (s1 % 0x1_0000_0000_0000_0000) as u64;
        let c1: u128 = s1 / 0x1_0000_0000_0000_0000;
        let s0: u128 = self.w0 as u128 + other.w0 as u128 + c1;
        let r0: u64 = (s0 % 0x1_0000_0000_0000_0000) as u64;
        let c0: u128 = s0 / 0x1_0000_0000_0000_0000;
        let sum = U256 { w0: r0, w1: r1, w2: r2, w3: r3 };
        proof {
            let b = radix();
            let total = self.value() + other.value();
            assert(sum.value() + c0 * modulus() == total) by (nonlinear_arith)
                requires
                    b == radix(),
                    b == 0x1_0000_0000_0000_0000,
                    modulus() == b * b * b * b,
                    sum.value() == ((r0 * b + r1) * b + r2) * b + r3,
                    total == (((self.w0 * b + self.w1) * b + self.w2) * b + self.w3) + (((other.w0
                        * b + other.w1) * b + other.w2) * b + other.w3),
                    r3 + c3 * b == self.w3 + other.w3,
                    r2 + c2 * b == self.w2 + other.w2 + c3,
                    r1 + c1 * b == self.w1 + other.w1 + c2,
                    r0 + c0 * b == self.w0 + other.w0 + c1,
            ;
            sum.lemma_value();
            self.lemma_value();
            other.lemma_value();
            assert(c0 == 0 || c0 == 1);
            if c0 == 0 {
                vstd::arithmetic::div_mod::lemma_small_mod(total as nat, modulus() as nat);
            } else {
                assert(total - modulus() == sum.value());
                vstd::arithmetic::div_mod::lemma_small_mod(sum.value() as nat, modulus() as nat);
                vstd::arithmetic::div_mod::lemma_mod_add_multiples_vanish(
                    sum.value(),
                    modulus(),
                );
            }
        }
        (sum, c0 != 0)
    }
}

} // verus!
