//! Witness layout shared by the circom-to-Spartan2 circuits.
//!
//! A circom witness vector starts with the constant 1, followed by the
//! public outputs and public inputs, then the private wires.
use vstd::prelude::*;
use crate::bytes::{le_less_than, le_value};

verus! {

/// SLH-DSA Poseidon public IO: `witness[1]` is the `valid` output,
/// `witness[2..34]` the public key and `witness[34..1058]` the message.
pub const NUM_PUBLIC: usize = 1 + 32 + 1024;

/// The public values of a witness: `witness[1..=count]`, or `count` zeros
/// when there is no witness (setup needs only the shape).
pub fn public_values<T: Copy>(witness: Option<&[T]>, count: usize, zero: T) -> (r: Vec<T>)
    requires
        witness matches Some(w) ==> w@.len() > count,
    ensures
        r@.len() == count,
        forall|i: int|
            0 <= i < count ==> #[trigger] r@[i] == (match witness {
                Some(w) => w@[i + 1],
                None => zero,
            }),
{
    let mut values: Vec<T> = Vec::new();
    let mut i: usize = 0;
    while i < count
        invariant
            i <= count,
            witness matches Some(w) ==> w@.len() > count,
            values@.len() == i,
            forall|k: int|
                0 <= k < i ==> #[trigger] values@[k] == (match witness {
                    Some(w) => w@[k + 1],
                    None => zero,
                }),
        decreases count - i,
    {
        let v = match witness {
            Some(w) => w[i + 1],
            None => zero,
        };
        values.push(v);
        i = i + 1;
    }
    values
}

/// Where the inputs and the private wires of a witness lie.
pub struct WitnessLayout {
    /// The constant wire and the public values.
    pub num_inputs: usize,
    /// The private wires that follow them.
    pub num_aux: usize,
}

/// Splits a witness of `witness_len` values with `num_public` public values;
/// `None` (unsatisfiable) when it is too short to hold them.
pub fn witness_layout(witness_len: usize, num_public: usize) -> (r: Option<WitnessLayout>)
    requires
        num_public < usize::MAX,
    ensures
        witness_len < num_public + 1 <==> r is None,
        r matches Some(l) ==> l.num_inputs == num_public + 1 && l.num_aux == witness_len - (
        num_public + 1),
{
    let num_inputs = 1 + num_public;
    if witness_len < num_inputs {
        return None;
    }
    Some(WitnessLayout { num_inputs, num_aux: witness_len - num_inputs })
}

/// `le` followed by zeros up to `width` bytes.
pub open spec fn padded_le(le: Seq<u8>, width: nat) -> Seq<u8> {
    le + Seq::new((width - le.len()) as nat, |i: int| 0u8)
}

/// Widens a little-endian value to `width` bytes; `None` when it is wider.
pub fn pad_le(le: &[u8], width: usize) -> (r: Option<Vec<u8>>)
    ensures
        le@.len() > width <==> r is None,
        r matches Some(v) ==> (v@ == padded_le(le@, width as nat) && le_value(v@) == le_value(le@)),
{
    if le.len() > width {
        return None;
    }
    let mut out: Vec<u8> = Vec::new();
    let mut i: usize = 0;
    while i < width
        invariant
            le@.len() <= width,
            i <= width,
            out@ == padded_le(le@, width as nat).take(i as int),
        decreases width - i,
    {
        let b = if i < le.len() {
            le[i]
        } else {
            0u8
        };
        out.push(b);
        i = i + 1;
        assert(out@ =~= padded_le(le@, width as nat).take(i as int));
    }
    assert(out@ =~= padded_le(le@, width as nat));
    proof {
        lemma_le_value_zero_padding(le@, (width - le@.len()) as nat);
    }
    Some(out)
}

/// Trailing zero bytes do not change a little-endian value.
pub proof fn lemma_le_value_zero_padding(s: Seq<u8>, n: nat)
    ensures
        le_value(s + Seq::new(n, |i: int| 0u8)) == le_value(s),
    decreases s.len(),
{
    let z = Seq::new(n, |i: int| 0u8);
    if s.len() == 0 {
        assert(s + z =~= z);
        lemma_le_value_zeros(n);
    } else {
        lemma_le_value_zero_padding(s.drop_first(), n);
        assert((s + z).drop_first() =~= s.drop_first() + z);
    }
}

pub proof fn lemma_le_value_zeros(n: nat)
    ensures
        le_value(Seq::new(n, |i: int| 0u8)) == 0,
    decreases n,
{
    if n > 0 {
        lemma_le_value_zeros((n - 1) as nat);
        assert(Seq::new(n, |i: int| 0u8).drop_first() =~= Seq::new((n - 1) as nat, |i: int| 0u8));
    }
}

/// Why a value could not become a field element.
#[derive(Clone, Copy, Debug, PartialEq, Eq, Structural)]
pub enum ScalarError {
    /// More bytes than the field's representation holds.
    TooWide,
    /// Not below the modulus.
    NotCanonical,
}

/// The 32-byte little-endian representation of the integer whose magnitude
/// is `le`, if it is a field element below `modulus_le`.
pub fn scalar_repr(le: &[u8], modulus_le: &[u8]) -> (r: Result<Vec<u8>, ScalarError>)
    requires
        modulus_le@.len() == 32,
    ensures
        le@.len() > 32 ==> r == Err::<Vec<u8>, ScalarError>(ScalarError::TooWide),
        le@.len() <= 32 && le_value(le@) >= le_value(modulus_le@) ==> r == Err::<
            Vec<u8>,
            ScalarError,
        >(ScalarError::NotCanonical),
        le@.len() <= 32 && le_value(le@) < le_value(modulus_le@) ==> (r matches Ok(v) && v@
            == padded_le(le@, 32)),
{
    let padded = match pad_le(le, 32) {
        Some(v) => v,
        None => {
            return Err(ScalarError::TooWide);
        },
    };
    if !le_less_than(padded.as_slice(), modulus_le) {
        return Err(ScalarError::NotCanonical);
    }
    Ok(padded)
}

// ---------------------------------------------------------------------------
// Goldilocks circuits (8-byte field elements)
// ---------------------------------------------------------------------------

/// Width of a Goldilocks field element.
pub const GOLDILOCKS_BYTES: usize = 8;

/// Why Goldilocks circuit artifacts were refused.
#[derive(Clone, Copy, Debug, PartialEq, Eq, Structural)]
pub enum GoldilocksError {
    /// The `.r1cs` field width is not 8 bytes.
    R1csFieldSize(u32),
    /// The `.wtns` field width is not 8 bytes.
    WitnessFieldSize(u32),
    /// The witness does not have one value per wire.
    WireCountMismatch { r1cs: u32, wtns: u32 },
    /// A coefficient or value has more than 8 bytes.
    CoefficientTooWide(usize),
    /// A coefficient or value is not below the Goldilocks modulus.
    NotInField,
}

/// The Goldilocks prime `2^64 - 2^32 + 1`.
pub open spec fn goldilocks_modulus() -> nat {
    0xffff_ffff_0000_0001
}

/// The little-endian bytes of the Goldilocks prime.
fn goldilocks_modulus_le() -> (v: Vec<u8>)
    ensures
        v@.len() == 8,
        le_value(v@) == goldilocks_modulus(),
{
    let v: Vec<u8> = vec![1u8, 0u8, 0u8, 0u8, 0xffu8, 0xffu8, 0xffu8, 0xffu8];
    proof {
        crate::bytes::lemma_le_value_8(v@);
        crate::bytes::lemma_le_value_4(v@.subrange(0, 4));
        crate::bytes::lemma_le_value_4(v@.subrange(4, 8));
    }
    v
}

/// Checks that an `.r1cs` file is over an 8-byte field.
pub fn check_goldilocks_r1cs(field_size_bytes: u32) -> (r: Result<(), GoldilocksError>)
    ensures
        field_size_bytes == 8 <==> r is Ok,
        r is Err ==> r == Err::<(), GoldilocksError>(GoldilocksError::R1csFieldSize(field_size_bytes)),
{
    if field_size_bytes != 8 {
        return Err(GoldilocksError::R1csFieldSize(field_size_bytes));
    }
    Ok(())
}

/// Checks that a `.wtns` file is over an 8-byte field and has one value per
/// wire of the circuit.
pub fn check_goldilocks_witness(field_size_bytes: u32, wtns_wires: u32, r1cs_wires: u32) -> (r: Result<
    (),
    GoldilocksError,
>)
    ensures
        field_size_bytes != 8 ==> r == Err::<(), GoldilocksError>(
            GoldilocksError::WitnessFieldSize(field_size_bytes),
        ),
        field_size_bytes == 8 && wtns_wires != r1cs_wires ==> r == Err::<(), GoldilocksError>(
            GoldilocksError::WireCountMismatch { r1cs: r1cs_wires, wtns: wtns_wires },
        ),
        field_size_bytes == 8 && wtns_wires == r1cs_wires ==> r is Ok,
{
    if field_size_bytes != 8 {
        return Err(GoldilocksError::WitnessFieldSize(field_size_bytes));
    }
    if wtns_wires != r1cs_wires {
        return Err(GoldilocksError::WireCountMismatch { r1cs: r1cs_wires, wtns: wtns_wires });
    }
    Ok(())
}

/// The 8-byte representation of a Goldilocks element given in at most 8
/// little-endian bytes; a value not below the modulus is refused.
pub fn goldilocks_repr(le_bytes: &[u8]) -> (r: Result<Vec<u8>, GoldilocksError>)
    ensures
        le_bytes@.len() > 8 ==> r == Err::<Vec<u8>, GoldilocksError>(
            GoldilocksError::CoefficientTooWide(le_bytes@.len() as usize),
        ),
        le_bytes@.len() <= 8 && le_value(le_bytes@) >= goldilocks_modulus() ==> r == Err::<
            Vec<u8>,
            GoldilocksError,
        >(GoldilocksError::NotInField),
        le_bytes@.len() <= 8 && le_value(le_bytes@) < goldilocks_modulus() ==> (r matches Ok(v)
            && v@ == padded_le(le_bytes@, 8)),
{
    let padded = match pad_le(le_bytes, GOLDILOCKS_BYTES) {
        Some(v) => v,
        None => {
            return Err(GoldilocksError::CoefficientTooWide(le_bytes.len()));
        },
    };
    let modulus = goldilocks_modulus_le();
    if !le_less_than(padded.as_slice(), modulus.as_slice()) {
        return Err(GoldilocksError::NotInField);
    }
    Ok(padded)
}

} // verus!
