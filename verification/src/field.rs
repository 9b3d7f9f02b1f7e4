//! Field elements of the proving backend's scalar field, held as their
//! canonical 32-byte little-endian encoding, with addition and
//! multiplication delegated to the backend's field implementation.

use vstd::prelude::*;
use vstd::arithmetic::power::pow;
use ff::PrimeField;

verus! {

/// The order of the scalar field used by the proving backend: the base
/// field of the Pallas curve.
pub open spec fn modulus() -> int {
    0x40000000000000000000000000000000224698fc094cf91b992d30ed00000001int
}

/// The integer denoted by a little-endian byte string.
pub open spec fn le_value(s: Seq<u8>) -> int
    decreases s.len(),
{
    if s.len() == 0 {
        0
    } else {
        s[0] + 256 * le_value(s.drop_first())
    }
}

/// Appending a byte adds its place value.
pub proof fn lemma_le_value_push(s: Seq<u8>, b: u8)
    ensures
        le_value(s.push(b)) == le_value(s) + pow(256, s.len()) * b,
    decreases s.len(),
{
    if s.len() == 0 {
        assert(s.push(b).drop_first() =~= Seq::<u8>::empty());
        assert(le_value(s.push(b)) == b + 256 * le_value(Seq::<u8>::empty()));
        assert(pow(256, 0) == 1) by {
            vstd::arithmetic::power::lemma_pow0(256);
        }
    } else {
        lemma_le_value_push(s.drop_first(), b);
        assert(s.push(b).drop_first() =~= s.drop_first().push(b));
        let p: int = pow(256, (s.len() - 1) as nat);
        assert(pow(256, s.len()) == p * 256) by {
            vstd::arithmetic::power::lemma_pow1(256);
            vstd::arithmetic::power::lemma_pow_adds(256, (s.len() - 1) as nat, 1);
        }
        assert(256 * (le_value(s.drop_first()) + p * b) == 256 * le_value(s.drop_first()) + (256
            * p) * b) by (nonlinear_arith);
    }
}

/// A scalar field element, stored as the canonical little-endian byte
/// encoding of its value: exactly 32 bytes, denoting an integer below the
/// field's modulus.
#[derive(Debug)]
pub struct Scalar {
    pub bytes: Vec<u8>,
}

impl Scalar {
    /// The integer this element stands for.
    pub open spec fn value(self) -> int {
        le_value(self.bytes@)
    }

    /// The encoding is canonical: 32 bytes, value below the modulus.
    pub open spec fn wf(self) -> bool {
        self.bytes@.len() == 32 && 0 <= self.value() < modulus()
    }

    /// The element with a given small value.
    pub fn from_u64(v: u64) -> (r: Scalar)
        ensures
            r.wf(),
            r.value() == v,
    {
        let mut bytes: Vec<u8> = Vec::new();
        let mut x: u64 = v;
        let mut i: usize = 0;
        proof {
            vstd::arithmetic::power::lemma_pow0(256);
        }
        while i < 8
            invariant
                0 <= i <= 8,
                bytes@.len() == i,
                x == v as int / pow(256, i as nat),
                le_value(bytes@) + pow(256, i as nat) * x == v,
                pow(256, i as nat) > 0,
            decreases 8 - i,
        {
            let b: u8 = (x % 256) as u8;
            proof {
                lemma_le_value_push(bytes@, b);
                vstd::arithmetic::power::lemma_pow1(256);
                vstd::arithmetic::power::lemma_pow_adds(256, i as nat, 1);
                assert(pow(256, (i + 1) as nat) == pow(256, i as nat) * 256);
                vstd::arithmetic::div_mod::lemma_fundamental_div_mod(x as int, 256);
                vstd::arithmetic::div_mod::lemma_div_denominator(
                    v as int,
                    pow(256, i as nat),
                    256,
                );
                assert(pow(256, i as nat) * (256 * (x as int / 256) + (x as int % 256)) == pow(
                    256,
                    i as nat,
                ) * (x as int % 256) + (256 * pow(256, i as nat)) * (x as int / 256))
                    by (nonlinear_arith);
            }
            bytes.push(b);
            x = x / 256;
            i = i + 1;
        }
        proof {
            reveal_with_fuel(pow, 9);
            assert(pow(256, 8) == 0x10000000000000000);
            vstd::arithmetic::div_mod::lemma_basic_div(v as int, 0x10000000000000000);
        }
        while i < 32
            invariant
                8 <= i <= 32,
                bytes@.len() == i,
                le_value(bytes@) == v,
            decreases 32 - i,
        {
            proof {
                lemma_le_value_push(bytes@, 0);
            }
            bytes.push(0);
            i = i + 1;
        }
        Scalar { bytes }
    }

    /// A fresh copy of this element.
    pub fn duplicate(&self) -> (r: Scalar)
        ensures
            r.bytes@ == self.bytes@,
    {
        let mut bytes: Vec<u8> = Vec::new();
        let mut i: usize = 0;
        while i < self.bytes.len()
            invariant
                i <= self.bytes@.len(),
                bytes@.len() == i,
                forall|j: int| 0 <= j < i ==> bytes@[j] == self.bytes@[j],
            decreases self.bytes@.len() - i,
        {
            bytes.push(self.bytes[i]);
            i = i + 1;
        }
        proof {
            assert(bytes@ =~= self.bytes@);
        }
        Scalar { bytes }
    }
}

/// Relies on `pasta_curves::Fp`: `from_repr`/`to_repr` are the canonical
/// little-endian encoding of an integer below the modulus, and `+` is
/// addition in the field of that order.
#[verifier::external_body]
pub fn scalar_add(x: &Scalar, y: &Scalar) -> (r: Scalar)
    requires
        x.wf(),
        y.wf(),
    ensures
        r.wf(),
        r.value() == (x.value() + y.value()) % modulus(),
{
    let xr: [u8; 32] = x.bytes.as_slice().try_into().unwrap();
    let yr: [u8; 32] = y.bytes.as_slice().try_into().unwrap();
    let xf = pasta_curves::Fp::from_repr(xr).unwrap();
    let yf = pasta_curves::Fp::from_repr(yr).unwrap();
    Scalar { bytes: (xf + yf).to_repr().to_vec() }
}

/// Relies on `pasta_curves::Fp`: `from_repr`/`to_repr` are the canonical
/// little-endian encoding of an integer below the modulus, and `*` is
/// multiplication in the field of that order.
#[verifier::external_body]
pub fn scalar_mul(x: &Scalar, y: &Scalar) -> (r: Scalar)
    requires
        x.wf(),
        y.wf(),
    ensures
        r.wf(),
        r.value() == (x.value() * y.value()) % modulus(),
{
    let xr: [u8; 32] = x.bytes.as_slice().try_into().unwrap();
    let yr: [u8; 32] = y.bytes.as_slice().try_into().unwrap();
    let xf = pasta_curves::Fp::from_repr(xr).unwrap();
    let yf = pasta_curves::Fp::from_repr(yr).unwrap();
    Scalar { bytes: (xf * yf).to_repr().to_vec() }
}

} // verus!
