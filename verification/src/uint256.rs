//! 256-bit quantities as four 64-bit words, least significant first.

use vstd::prelude::*;
use ethers::types::{I256, Sign, U256};

verus! {

/// Two to the power 64.
pub open spec fn pow64() -> nat {
    0x1_0000_0000_0000_0000nat
}

/// Two to the power 128.
pub open spec fn pow128() -> nat {
    0x1_0000_0000_0000_0000_0000_0000_0000_0000nat
}

/// Two to the power 192.
pub open spec fn pow192() -> nat {
    0x1_0000_0000_0000_0000_0000_0000_0000_0000_0000_0000_0000_0000nat
}

/// Two to the power 255.
pub open spec fn pow255() -> nat {
    0x8000_0000_0000_0000_0000_0000_0000_0000_0000_0000_0000_0000_0000_0000_0000_0000nat
}

/// Two to the power 256.
pub open spec fn pow256() -> nat {
    0x1_0000_0000_0000_0000_0000_0000_0000_0000_0000_0000_0000_0000_0000_0000_0000_0000nat
}

/// An unsigned 256-bit integer. Its words are laid out as the words of
/// `ethers::types::U256` are.
#[derive(Clone, Copy, Debug, PartialEq, Eq, Structural)]
pub struct Uint256 {
    pub w0: u64,
    pub w1: u64,
    pub w2: u64,
    pub w3: u64,
}

impl View for Uint256 {
    type V = nat;

    /// The number that the four words spell.
    open spec fn view(&self) -> nat {
        (self.w0 as nat) + (self.w1 as nat) * pow64() + (self.w2 as nat) * pow128() + (
        self.w3 as nat) * pow192()
    }
}

/// A signed 256-bit integer in two's complement.
#[derive(Clone, Copy, Debug, PartialEq, Eq, Structural)]
pub struct Int256 {
    pub raw: Uint256,
}

impl View for Int256 {
    type V = int;

    /// The signed number: raw words from two to the 255 upward stand for
    /// negative numbers.
    open spec fn view(&self) -> int {
        if self.raw@ < pow255() {
            self.raw@ as int
        } else {
            self.raw@ - pow256()
        }
    }
}

/// Every value of four words is below two to the 256.
pub proof fn lemma_view_bound(a: Uint256)
    ensures
        a@ < pow256(),
{
}

/// The three low words spell a number below two to the 192, the two low
/// words one below two to the 128.
proof fn lemma_low_words_bound(a: Uint256)
    ensures
        (a.w0 as nat) + (a.w1 as nat) * pow64() < pow128(),
        (a.w0 as nat) + (a.w1 as nat) * pow64() + (a.w2 as nat) * pow128() < pow192(),
{
}

/// Two values with the same number have the same words.
pub proof fn lemma_view_injective(a: Uint256, b: Uint256)
    ensures
        (a@ == b@) <==> (a == b),
{
    lemma_low_words_bound(a);
    lemma_low_words_bound(b);
    let la = (a.w0 as nat) + (a.w1 as nat) * pow64() + (a.w2 as nat) * pow128();
    let lb = (b.w0 as nat) + (b.w1 as nat) * pow64() + (b.w2 as nat) * pow128();
    let ma = (a.w0 as nat) + (a.w1 as nat) * pow64();
    let mb = (b.w0 as nat) + (b.w1 as nat) * pow64();
    if a.w3 < b.w3 {
        assert(a@ < b@) by {
            assert((a.w3 as nat + 1) * pow192() <= (b.w3 as nat) * pow192());
        }
    } else if b.w3 < a.w3 {
        assert(b@ < a@) by {
            assert((b.w3 as nat + 1) * pow192() <= (a.w3 as nat) * pow192());
        }
    } else if a.w2 < b.w2 {
        assert(la < lb) by {
            assert((a.w2 as nat + 1) * pow128() <= (b.w2 as nat) * pow128());
        }
    } else if b.w2 < a.w2 {
        assert(lb < la) by {
            assert((b.w2 as nat + 1) * pow128() <= (a.w2 as nat) * pow128());
        }
    } else if a.w1 < b.w1 {
        assert(ma < mb) by {
            assert((a.w1 as nat + 1) * pow64() <= (b.w1 as nat) * pow64());
        }
    } else if b.w1 < a.w1 {
        assert(mb < ma) by {
            assert((b.w1 as nat + 1) * pow64() <= (a.w1 as nat) * pow64());
        }
    }
}

/// The words of a number below two to the 256.
pub open spec fn spec_from_nat(n: nat) -> Uint256 {
    Uint256 {
        w0: (n % pow64()) as u64,
        w1: ((n / pow64()) % pow64()) as u64,
        w2: (((n / pow64()) / pow64()) % pow64()) as u64,
        w3: ((((n / pow64()) / pow64()) / pow64()) % pow64()) as u64,
    }
}

/// The words of a number spell that number, and no other words do.
pub proof fn lemma_from_nat(n: nat)
    requires
        n < pow256(),
    ensures
        spec_from_nat(n)@ == n,
        forall|a: Uint256| a@ == n ==> a == spec_from_nat(n),
{
    let q1 = n / pow64();
    let q2 = q1 / pow64();
    let q3 = q2 / pow64();
    let r0 = n % pow64();
    let r1 = q1 % pow64();
    let r2 = q2 % pow64();
    assert(n == q1 * pow64() + r0);
    assert(q1 == q2 * pow64() + r1);
    assert(q2 == q3 * pow64() + r2);
    assert(q1 < pow192());
    assert(q2 < pow128());
    assert(q3 < pow64());
    assert(q3 % pow64() == q3);
    let x = spec_from_nat(n);
    assert(x.w0 == r0 && x.w1 == r1 && x.w2 == r2 && x.w3 == q3);
    assert(x@ == r0 + r1 * pow64() + r2 * pow128() + q3 * pow192());
    assert(x@ == n);
    assert forall|a: Uint256| a@ == n implies a == spec_from_nat(n) by {
        lemma_view_injective(a, x);
    }
}

/// The negation that stops at the largest number: the least number, which
/// has no negative in 256 bits, gives the largest.
pub open spec fn spec_saturating_neg(x: int) -> int {
    if x == -(pow255() as int) {
        pow255() - 1
    } else {
        -x
    }
}

impl Uint256 {
    /// The number zero.
    pub fn zero() -> (r: Uint256)
        ensures
            r@ == 0,
    {
        Uint256 { w0: 0, w1: 0, w2: 0, w3: 0 }
    }

    /// A number that fits one word.
    pub fn from_u64(v: u64) -> (r: Uint256)
        ensures
            r@ == v,
    {
        Uint256 { w0: v, w1: 0, w2: 0, w3: 0 }
    }

    /// Whether the number is zero.
    pub fn is_zero(&self) -> (r: bool)
        ensures
            r == (self@ == 0),
    {
        self.w0 == 0 && self.w1 == 0 && self.w2 == 0 && self.w3 == 0
    }

    /// Whether the number is below `other`.
    pub fn less_than(&self, other: &Uint256) -> (r: bool)
        ensures
            r == (self@ < other@),
    {
        if self.w3 != other.w3 {
            self.w3 < other.w3
        } else if self.w2 != other.w2 {
            self.w2 < other.w2
        } else if self.w1 != other.w1 {
            self.w1 < other.w1
        } else {
            self.w0 < other.w0
        }
    }

    /// The product with `other`, where it fits 256 bits.
    pub fn checked_mul(&self, other: &Uint256) -> (r: Option<Uint256>)
        ensures
            (r is Some) <==> self@ * other@ < pow256(),
            r matches Some(p) ==> p@ == self@ * other@,
    {
        u256_checked_mul(*self, *other)
    }
}

impl Int256 {
    /// The signed number that the raw words spell in two's complement.
    pub fn from_raw(raw: Uint256) -> (r: Int256)
        ensures
            r.raw == raw,
    {
        Int256 { raw }
    }

    /// The raw words: of a number that is not negative, the number itself.
    pub fn into_raw(self) -> (r: Uint256)
        ensures
            r == self.raw,
            self@ >= 0 ==> r@ == self@,
    {
        self.raw
    }

    /// Whether the number is below zero.
    pub fn is_negative(&self) -> (r: bool)
        ensures
            r == (self@ < 0),
    {
        i256_is_negative(*self)
    }

    /// The negated number, and the largest number where `self` is the least.
    pub fn saturating_neg(&self) -> (r: Int256)
        ensures
            r@ == spec_saturating_neg(self@),
    {
        i256_saturating_neg(*self)
    }
}

/// One word times a factor, plus a carry: the low word of the sum and the
/// carry into the next word.
fn mul_word(w: u64, k: u64, carry: u64) -> (r: (u64, u64))
    ensures
        r.0 as int + r.1 as int * pow64() == w as int * k as int + carry as int,
{
    assert(w as int * k as int <= 0xFFFF_FFFF_FFFF_FFFF * 0xFFFF_FFFF_FFFF_FFFF) by (nonlinear_arith)
        requires
            0 <= w as int <= 0xFFFF_FFFF_FFFF_FFFF,
            0 <= k as int <= 0xFFFF_FFFF_FFFF_FFFF,
    ;
    let t: u128 = (w as u128) * (k as u128) + (carry as u128);
    let low: u64 = (t % 0x1_0000_0000_0000_0000u128) as u64;
    let high: u64 = (t / 0x1_0000_0000_0000_0000u128) as u64;
    (low, high)
}

/// A 256-bit number times a one-word factor: the low 256 bits of the
/// product and the word above them.
pub fn mul_small(a: Uint256, k: u64) -> (r: (Uint256, u64))
    ensures
        r.0@ + (r.1 as nat) * pow256() == a@ * (k as nat),
{
    let (r0, c0) = mul_word(a.w0, k, 0);
    let (r1, c1) = mul_word(a.w1, k, c0);
    let (r2, c2) = mul_word(a.w2, k, c1);
    let (r3, c3) = mul_word(a.w3, k, c2);
    let low = Uint256 { w0: r0, w1: r1, w2: r2, w3: r3 };
    proof {
        let x0 = a.w0 as int * k as int;
        let x1 = a.w1 as int * k as int;
        let x2 = a.w2 as int * k as int;
        let x3 = a.w3 as int * k as int;
        assert(a@ as int * k as int == x0 + x1 * pow64() + x2 * pow128() + x3 * pow192())
            by (nonlinear_arith)
            requires
                a@ as int == (a.w0 as int) + (a.w1 as int) * pow64() + (a.w2 as int) * pow128() + (
                a.w3 as int) * pow192(),
                x0 == a.w0 as int * k as int,
                x1 == a.w1 as int * k as int,
                x2 == a.w2 as int * k as int,
                x3 == a.w3 as int * k as int,
        ;
    }
    (low, c3)
}

/// Whether `a` times `ka` is below `b` times `kb`, computed without
/// overflow.
pub fn scaled_less_than(a: &Uint256, ka: u64, b: &Uint256, kb: u64) -> (r: bool)
    ensures
        r == (a@ * (ka as nat) < b@ * (kb as nat)),
{
    let (low_a, high_a) = mul_small(*a, ka);
    let (low_b, high_b) = mul_small(*b, kb);
    proof {
        lemma_view_bound(low_a);
        lemma_view_bound(low_b);
    }
    if high_a != high_b {
        high_a < high_b
    } else {
        low_a.less_than(&low_b)
    }
}

/// `ethers::types::I256::sign`: the sign is negative exactly when the top
/// bit of the raw words is set, that is when the number is below zero.
#[verifier::external_body]
fn i256_is_negative(x: Int256) -> (r: bool)
    ensures
        r == (x@ < 0),
{
    match I256::from_raw(U256([x.raw.w0, x.raw.w1, x.raw.w2, x.raw.w3])).sign() {
        Sign::Positive => false,
        Sign::Negative => true,
    }
}

/// `ethers::types::I256::saturating_neg`: the negated number, and `I256::MAX`
/// for `I256::MIN`.
#[verifier::external_body]
fn i256_saturating_neg(x: Int256) -> (r: Int256)
    ensures
        r@ == spec_saturating_neg(x@),
{
    let n = I256::from_raw(U256([x.raw.w0, x.raw.w1, x.raw.w2, x.raw.w3])).saturating_neg();
    let U256(w) = n.into_raw();
    Int256 { raw: Uint256 { w0: w[0], w1: w[1], w2: w[2], w3: w[3] } }
}

/// `ethers::types::U256::checked_mul`: the product, and `None` where it does
/// not fit 256 bits.
#[verifier::external_body]
fn u256_checked_mul(a: Uint256, b: Uint256) -> (r: Option<Uint256>)
    ensures
        (r is Some) <==> a@ * b@ < pow256(),
        r matches Some(p) ==> p@ == a@ * b@,
{
    let x = U256([a.w0, a.w1, a.w2, a.w3]);
    let y = U256([b.w0, b.w1, b.w2, b.w3]);
    match x.checked_mul(y) {
        Some(U256(w)) => Some(Uint256 { w0: w[0], w1: w[1], w2: w[2], w3: w[3] }),
        None => None,
    }
}

} // verus!
