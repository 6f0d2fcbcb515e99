//! Unsigned 256-bit token amounts.
use vstd::arithmetic::div_mod::{lemma_basic_div, lemma_div_by_multiple, lemma_div_denominator, lemma_fundamental_div_mod};
use vstd::prelude::*;

verus! {

/// The number that `s` writes in base 256, most significant byte first.
pub open spec fn be_value(s: Seq<u8>) -> nat
    decreases s.len(),
{
    if s.len() == 0 {
        0
    } else {
        be_value(s.drop_last()) * 256 + s.last() as nat
    }
}

/// 256 to the power `n`.
pub open spec fn pow256(n: nat) -> nat
    decreases n,
{
    if n == 0 {
        1
    } else {
        256 * pow256((n - 1) as nat)
    }
}

/// 2^256: no amount reaches it.
pub open spec fn amount_bound() -> nat {
    half_base() * half_base()
}

/// 2^128, the weight of the upper half of an [`Amount`].
pub open spec fn half_base() -> nat {
    0x1_0000_0000_0000_0000_0000_0000_0000_0000nat
}

/// An unsigned 256-bit amount of a token, held as two 128-bit halves.
#[derive(Clone, Copy, Debug, PartialEq, Eq, Structural)]
pub struct Amount {
    pub hi: u128,
    pub lo: u128,
}

impl View for Amount {
    type V = nat;

    open spec fn view(&self) -> nat {
        self.hi as nat * half_base() + self.lo as nat
    }
}

impl Amount {
    /// The amount `hi * 2^128 + lo`.
    pub fn new(hi: u128, lo: u128) -> (r: Amount)
        ensures
            r@ == hi as nat * half_base() + lo as nat,
    {
        Amount { hi, lo }
    }

    /// The amount `v`.
    pub fn from_u128(v: u128) -> (r: Amount)
        ensures
            r@ == v as nat,
    {
        Amount { hi: 0, lo: v }
    }

    /// Whether this amount is at least `other`.
    pub fn ge(&self, other: &Amount) -> (r: bool)
        ensures
            r == (self@ >= other@),
    {
        proof {
            lemma_order_by_halves(*self, *other);
        }
        self.hi > other.hi || (self.hi == other.hi && self.lo >= other.lo)
    }
}

/// The powers of 256 that split an amount into bytes.
proof fn lemma_pow256_halves()
    ensures
        pow256(0) == 1,
        pow256(15) == 0x100_0000_0000_0000_0000_0000_0000_0000nat,
        pow256(16) == half_base(),
{
    assert(pow256(0) == 1);
    assert(pow256(1) == 256);
    assert(pow256(2) == 65536);
    assert(pow256(3) == 16777216);
    assert(pow256(4) == 4294967296);
    assert(pow256(5) == 1099511627776);
    assert(pow256(6) == 281474976710656);
    assert(pow256(7) == 72057594037927936);
    assert(pow256(8) == 18446744073709551616);
    assert(pow256(9) == 4722366482869645213696);
    assert(pow256(10) == 1208925819614629174706176);
    assert(pow256(11) == 309485009821345068724781056);
    assert(pow256(12) == 79228162514264337593543950336);
    assert(pow256(13) == 20282409603651670423947251286016);
    assert(pow256(14) == 5192296858534827628530496329220096);
    assert(pow256(15) == 1329227995784915872903807060280344576);
    assert(pow256(16) == 340282366920938463463374607431768211456);
}

/// Powers of 256 are positive.
proof fn lemma_pow256_pos(n: nat)
    ensures
        pow256(n) >= 1,
    decreases n,
{
    if n > 0 {
        lemma_pow256_pos((n - 1) as nat);
    }
}

/// Appends the 16 big-endian bytes of `x` to `out`.
fn push_be_u128(out: &mut Vec<u8>, x: u128)
    ensures
        final(out)@.len() == old(out)@.len() + 16,
        be_value(final(out)@) == be_value(old(out)@) * half_base() + x,
{
    let mut d: u128 = 0x100_0000_0000_0000_0000_0000_0000_0000u128;
    let mut i: usize = 0;
    proof {
        lemma_pow256_halves();
        lemma_basic_div(x as int, half_base() as int);
    }
    while i < 16
        invariant
            i <= 16,
            i < 16 ==> d as nat == pow256((15 - i) as nat),
            d >= 1,
            out@.len() == old(out)@.len() + i,
            pow256(16) == half_base(),
            be_value(out@) == be_value(old(out)@) * pow256(i as nat) + x as nat / pow256(
                (16 - i) as nat,
            ),
        decreases 16 - i,
    {
        let q: u128 = x / d;
        let ghost before = out@;
        out.push((q % 256) as u8);
        proof {
            let dn = d as int;
            assert(out@.drop_last() =~= before);
            assert(pow256((16 - i) as nat) == 256 * dn);
            lemma_div_denominator(x as int, dn, 256);
            assert(x as nat / pow256((16 - i) as nat) == q as int / 256);
            lemma_fundamental_div_mod(q as int, 256);
            assert(pow256((i + 1) as nat) == 256 * pow256(i as nat));
            assert(be_value(out@) == be_value(before) * 256 + q as nat % 256);
            let base = be_value(old(out)@);
            assert(be_value(out@) == base * pow256((i + 1) as nat) + q as nat)
                by (nonlinear_arith)
                requires
                    be_value(out@) == be_value(before) * 256 + q as nat % 256,
                    be_value(before) == base * pow256(i as nat) + q as int / 256,
                    pow256((i + 1) as nat) == 256 * pow256(i as nat),
                    q as int == 256 * (q as int / 256) + q as int % 256,
            ;
        }
        if i < 15 {
            proof {
                assert(pow256((15 - i) as nat) == 256 * pow256((14 - i) as nat));
                lemma_div_by_multiple(pow256((14 - i) as nat) as int, 256);
                lemma_pow256_pos((14 - i) as nat);
            }
            d = d / 256;
        }
        i = i + 1;
    }
    assert(x as nat / pow256(0) == x as nat);
}

/// A longer prefix of a byte string never writes a smaller number.
proof fn lemma_be_value_prefix_monotone(s: Seq<u8>, j: int, k: int)
    requires
        0 <= j <= k <= s.len(),
    ensures
        be_value(s.take(j)) <= be_value(s.take(k)),
    decreases k - j,
{
    if j < k {
        lemma_be_value_prefix_monotone(s, j, k - 1);
        assert(s.take(k).drop_last() =~= s.take(k - 1));
    }
}

impl Amount {
    /// The 32 big-endian bytes of this amount.
    pub fn to_be_bytes(&self) -> (r: Vec<u8>)
        ensures
            r@.len() == 32,
            be_value(r@) == self@,
    {
        let mut out: Vec<u8> = Vec::new();
        push_be_u128(&mut out, self.hi);
        push_be_u128(&mut out, self.lo);
        out
    }

    /// The amount that `bytes` writes in base 256, most significant byte
    /// first, or `None` where it is 2^256 or more. Leading zero bytes are
    /// allowed and an empty string is zero.
    pub fn from_be_bytes(bytes: &[u8]) -> (r: Option<Amount>)
        ensures
            r is None <==> be_value(bytes@) >= amount_bound(),
            r matches Some(a) ==> a@ == be_value(bytes@),
    {
        let mut hi: u128 = 0;
        let mut lo: u128 = 0;
        let mut i: usize = 0;
        while i < bytes.len()
            invariant
                i <= bytes@.len(),
                hi as nat * half_base() + lo as nat == be_value(bytes@.take(i as int)),
            decreases bytes@.len() - i,
        {
            let b = bytes[i];
            proof {
                assert(bytes@.take(i + 1).drop_last() =~= bytes@.take(i as int));
                assert(bytes@.take(i + 1).last() == b);
            }
            if hi >= 0x100_0000_0000_0000_0000_0000_0000_0000u128 {
                proof {
                    lemma_be_value_prefix_monotone(bytes@, i + 1, bytes@.len() as int);
                    assert(bytes@.take(bytes@.len() as int) =~= bytes@);
                    assert(be_value(bytes@.take(i + 1)) >= amount_bound()) by (nonlinear_arith)
                        requires
                            be_value(bytes@.take(i + 1)) == be_value(bytes@.take(i as int)) * 256
                                + b as nat,
                            be_value(bytes@.take(i as int)) == hi as nat * half_base() + lo as nat,
                            hi >= 0x100_0000_0000_0000_0000_0000_0000_0000u128,
                            half_base() == 0x1_0000_0000_0000_0000_0000_0000_0000_0000nat,
                            amount_bound() == half_base() * half_base(),
                    ;
                }
                return None;
            }
            let top: u128 = lo / 0x100_0000_0000_0000_0000_0000_0000_0000u128;
            let rest: u128 = lo % 0x100_0000_0000_0000_0000_0000_0000_0000u128;
            proof {
                lemma_fundamental_div_mod(lo as int, 0x100_0000_0000_0000_0000_0000_0000_0000int);
                assert(lo == 0x100_0000_0000_0000_0000_0000_0000_0000int * top + rest);
                assert(top < 256);
                assert(hi * 256 + top < 0x1_0000_0000_0000_0000_0000_0000_0000_0000nat)
                    by (nonlinear_arith)
                    requires
                        hi < 0x100_0000_0000_0000_0000_0000_0000_0000u128,
                        top < 256,
                ;
                assert(rest * 256 + b < 0x1_0000_0000_0000_0000_0000_0000_0000_0000nat)
                    by (nonlinear_arith)
                    requires
                        rest < 0x100_0000_0000_0000_0000_0000_0000_0000u128,
                        b < 256,
                ;
                let (h, t, l, m, c, bb) = (
                    hi as int,
                    top as int,
                    lo as int,
                    rest as int,
                    half_base() as int,
                    b as int,
                );
                assert((h * 256 + t) * c + (m * 256 + bb) == (h * c + l) * 256 + bb)
                    by (nonlinear_arith)
                    requires
                        l == 0x100_0000_0000_0000_0000_0000_0000_0000int * t + m,
                        c == 0x1_0000_0000_0000_0000_0000_0000_0000_0000int,
                ;
            }
            hi = hi * 256 + top;
            lo = rest * 256 + b as u128;
            i = i + 1;
        }
        proof {
            assert(bytes@.take(i as int) =~= bytes@);
            assert((hi as nat) * half_base() + (lo as nat) < amount_bound()) by (nonlinear_arith)
                requires
                    hi < half_base(),
                    lo < half_base(),
                    amount_bound() == half_base() * half_base(),
            ;
        }
        Some(Amount { hi, lo })
    }
}

/// Amounts compare as their upper halves do, and on equal upper halves as
/// their lower halves do.
proof fn lemma_order_by_halves(a: Amount, b: Amount)
    ensures
        (a@ >= b@) == (a.hi > b.hi || (a.hi == b.hi && a.lo >= b.lo)),
{
    let (ah, al, bh, bl) = (a.hi as int, a.lo as int, b.hi as int, b.lo as int);
    let base = half_base() as int;
    assert(0 <= al < base && 0 <= bl < base);
    if ah > bh {
        assert(ah * base >= (bh + 1) * base) by (nonlinear_arith)
            requires ah >= bh + 1, base > 0;
        assert((bh + 1) * base == bh * base + base) by (nonlinear_arith);
    } else if ah < bh {
        assert(bh * base >= (ah + 1) * base) by (nonlinear_arith)
            requires bh >= ah + 1, base > 0;
        assert((ah + 1) * base == ah * base + base) by (nonlinear_arith);
    }
}

} // verus!
