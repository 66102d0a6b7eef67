//! From raw bytes to a value of an integer type.
//!
//! Bytes are read least significant first, whatever the machine, and signed
//! types are read as two's complement. Every bit pattern is a legal value:
//! nothing is filtered out, zero included.

use vstd::prelude::*;
use crate::registry::{modulus, TypeSpec};

verus! {

/// The number that `bytes` spell, least significant byte first.
pub open spec fn le_value(bytes: Seq<u8>) -> nat
    decreases bytes.len(),
{
    if bytes.len() == 0 {
        0
    } else {
        bytes[0] as nat + 256 * le_value(bytes.subrange(1, bytes.len() as int))
    }
}

/// The value whose representation is `bytes`: the number they spell, or,
/// for a signed type with the top bit set, that number less 256 to the
/// power of the width.
pub open spec fn decode(signed: bool, bytes: Seq<u8>) -> int {
    let raw = le_value(bytes) as int;
    let m = modulus(bytes.len());
    if signed && raw >= m / 2 {
        raw - m
    } else {
        raw
    }
}

/// One synthesized value, held as sign and magnitude so that the whole
/// range of every supported type fits.
#[derive(Clone, Copy, Debug, PartialEq, Eq, Structural)]
pub struct RandomValue {
    pub negative: bool,
    pub magnitude: u128,
}

impl View for RandomValue {
    type V = int;

    open spec fn view(&self) -> int {
        if self.negative {
            -(self.magnitude as int)
        } else {
            self.magnitude as int
        }
    }
}

impl RandomValue {
    /// There is no negative zero.
    pub open spec fn wf(self) -> bool {
        self.negative ==> self.magnitude > 0
    }

    /// The value is well formed and lies in the range of `spec`.
    pub open spec fn fits(self, spec: TypeSpec) -> bool {
        self.wf() && spec.min_value() <= self@ <= spec.max_value()
    }
}

/// The moduli of the widths up to sixteen bytes.
pub proof fn lemma_modulus_values()
    ensures
        modulus(0) == 1,
        modulus(1) == 0x100,
        modulus(2) == 0x1_0000,
        modulus(3) == 0x100_0000,
        modulus(4) == 0x1_0000_0000,
        modulus(5) == 0x100_0000_0000,
        modulus(6) == 0x1_0000_0000_0000,
        modulus(7) == 0x100_0000_0000_0000,
        modulus(8) == 0x1_0000_0000_0000_0000,
        modulus(9) == 0x100_0000_0000_0000_0000,
        modulus(10) == 0x1_0000_0000_0000_0000_0000,
        modulus(11) == 0x100_0000_0000_0000_0000_0000,
        modulus(12) == 0x1_0000_0000_0000_0000_0000_0000,
        modulus(13) == 0x100_0000_0000_0000_0000_0000_0000,
        modulus(14) == 0x1_0000_0000_0000_0000_0000_0000_0000,
        modulus(15) == 0x100_0000_0000_0000_0000_0000_0000_0000,
        modulus(16) == 0xFFFF_FFFF_FFFF_FFFF_FFFF_FFFF_FFFF_FFFF + 1,
{
    assert(modulus(0) == 1);
    assert(modulus(1) == 0x100);
    assert(modulus(2) == 0x1_0000);
    assert(modulus(3) == 0x100_0000);
    assert(modulus(4) == 0x1_0000_0000);
    assert(modulus(5) == 0x100_0000_0000);
    assert(modulus(6) == 0x1_0000_0000_0000);
    assert(modulus(7) == 0x100_0000_0000_0000);
    assert(modulus(8) == 0x1_0000_0000_0000_0000);
    assert(modulus(9) == 0x100_0000_0000_0000_0000);
    assert(modulus(10) == 0x1_0000_0000_0000_0000_0000);
    assert(modulus(11) == 0x100_0000_0000_0000_0000_0000);
    assert(modulus(12) == 0x1_0000_0000_0000_0000_0000_0000);
    assert(modulus(13) == 0x100_0000_0000_0000_0000_0000_0000);
    assert(modulus(14) == 0x1_0000_0000_0000_0000_0000_0000_0000);
    assert(modulus(15) == 0x100_0000_0000_0000_0000_0000_0000_0000);
}

/// The number that bytes spell is below the modulus of their count.
pub proof fn lemma_le_value_bound(bytes: Seq<u8>)
    ensures
        le_value(bytes) < modulus(bytes.len()),
    decreases bytes.len(),
{
    if bytes.len() > 0 {
        lemma_le_value_bound(bytes.subrange(1, bytes.len() as int));
    }
}

/// The decoded value lies in the range of the type: from zero up to the
/// modulus for an unsigned type, and in the half below and the half above
/// zero for a signed one.
pub proof fn lemma_decode_in_range(spec: TypeSpec, bytes: Seq<u8>)
    requires
        bytes.len() == spec.width_bytes,
        bytes.len() > 0,
    ensures
        spec.min_value() <= decode(spec.signed, bytes) <= spec.max_value(),
{
    lemma_le_value_bound(bytes);
    let m = modulus(bytes.len());
    assert(m == 256 * modulus((bytes.len() - 1) as nat));
}

/// 256 to the power `width`, for a width below sixteen.
pub fn modulus_of(width: usize) -> (m: u128)
    requires
        width < 16,
    ensures
        m == modulus(width as nat),
{
    let mut m: u128 = 1;
    let mut k: usize = 0;
    while k < width
        invariant
            k <= width < 16,
            m == modulus(k as nat),
        decreases width - k,
    {
        proof {
            lemma_modulus_values();
        }
        m = m * 256;
        k += 1;
    }
    m
}

/// The value synthesizer: reads `entropy`, which holds exactly as many
/// bytes as the type is wide, as a value of the type.
pub fn synthesize(spec: TypeSpec, entropy: &[u8]) -> (r: RandomValue)
    requires
        spec.wf(),
        entropy@.len() == spec.width_bytes,
    ensures
        r@ == decode(spec.signed, entropy@),
        r.fits(spec),
{
    let n: usize = entropy.len();
    let mut raw: u128 = 0;
    let mut i: usize = n;
    proof {
        lemma_modulus_values();
        assert(entropy@.subrange(n as int, n as int) =~= Seq::<u8>::empty());
    }
    while i > 0
        invariant
            i <= n <= 16,
            n == entropy@.len(),
            raw == le_value(entropy@.subrange(i as int, n as int)),
        decreases i,
    {
        proof {
            let tail = entropy@.subrange(i as int, n as int);
            let next = entropy@.subrange(i - 1, n as int);
            lemma_le_value_bound(tail);
            lemma_modulus_values();
            assert(next.subrange(1, next.len() as int) =~= tail);
        }
        i -= 1;
        raw = raw * 256 + entropy[i] as u128;
    }
    proof {
        assert(entropy@.subrange(0, n as int) =~= entropy@);
        lemma_le_value_bound(entropy@);
        lemma_decode_in_range(spec, entropy@);
    }
    if !spec.signed {
        RandomValue { negative: false, magnitude: raw }
    } else if n == 16 {
        if raw >= 0x8000_0000_0000_0000_0000_0000_0000_0000 {
            RandomValue { negative: true, magnitude: (u128::MAX - raw) + 1 }
        } else {
            RandomValue { negative: false, magnitude: raw }
        }
    } else {
        let m: u128 = modulus_of(n);
        if raw >= m / 2 {
            RandomValue { negative: true, magnitude: m - raw }
        } else {
            RandomValue { negative: false, magnitude: raw }
        }
    }
}

} // verus!
