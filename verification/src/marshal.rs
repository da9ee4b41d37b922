//! Parameter marshaling: the bridge between the host's untyped property-bag
//! protocol, which hands properties around as flat byte buffers, and the
//! stage's typed scalar parameter. The four bytes are the little-endian bit
//! pattern of the 32-bit float value; they pass through unchanged in both
//! directions.

use vstd::bytes::spec_u32_from_le_bytes;
use vstd::bytes::spec_u32_to_le_bytes;
use vstd::bytes::u32_from_le_bytes;
use vstd::bytes::u32_to_le_bytes;
use vstd::prelude::*;

use crate::effects::threshold::spec_get_threshold;
use crate::effects::threshold::spec_set_threshold;
use crate::effects::threshold::ThresholdEffect;
use crate::EffectError;

verus! {

/// Size in bytes of the marshaled scalar value.
pub const VALUE_SIZE: u32 = 4;

/// Set the stage's parameter from a caller-supplied buffer. The buffer must
/// hold exactly the value's four bytes: any other length is refused as an
/// invalid argument and leaves the stored parameter unchanged. On success the
/// bytes are reinterpreted as the value and handed to the typed setter.
pub fn value_setter(effect: &mut ThresholdEffect, data: &[u8]) -> (r: Result<(), EffectError>)
    ensures
        data@.len() == VALUE_SIZE ==> r == Ok::<(), EffectError>(())
            && *final(effect) == spec_set_threshold(*old(effect), spec_u32_from_le_bytes(data@)),
        data@.len() != VALUE_SIZE ==> r == Err::<(), EffectError>(EffectError::InvalidArgument)
            && *final(effect) == *old(effect),
{
    if data.len() != 4 {
        return Err(EffectError::InvalidArgument);
    }
    let bits = u32_from_le_bytes(data);
    effect.set_threshold(bits)
}

/// Copy the stage's current parameter into a caller-supplied buffer. The
/// destination must have room for the value's four bytes: a smaller buffer is
/// refused as an invalid argument and no byte is written. On success the
/// value's bytes fill the front of the buffer, the rest stays as it was, and
/// the value's size is returned as the actual size for the caller's
/// out-parameter.
pub fn value_getter(effect: &ThresholdEffect, data: &mut Vec<u8>) -> (r: Result<u32, EffectError>)
    ensures
        old(data)@.len() >= VALUE_SIZE ==> r == Ok::<u32, EffectError>(VALUE_SIZE)
            && final(data)@ == spec_u32_to_le_bytes(spec_get_threshold(*effect)) + old(data)@.skip(
            VALUE_SIZE as int,
        ),
        old(data)@.len() < VALUE_SIZE ==> r == Err::<u32, EffectError>(EffectError::InvalidArgument)
            && final(data)@ == old(data)@,
{
    if data.len() < 4 {
        return Err(EffectError::InvalidArgument);
    }
    let value_bytes = u32_to_le_bytes(effect.get_threshold());
    let mut i: usize = 0;
    while i < 4
        invariant
            0 <= i <= 4,
            value_bytes@.len() == 4,
            data@.len() == old(data)@.len() >= 4,
            forall|k: int| 0 <= k < i ==> data@[k] == value_bytes@[k],
            forall|k: int| i <= k < data@.len() ==> data@[k] == old(data)@[k],
        decreases 4 - i,
    {
        let b = value_bytes[i];
        data.set(i, b);
        i = i + 1;
    }
    proof {
        assert(data@ =~= spec_u32_to_le_bytes(spec_get_threshold(*effect)) + old(data)@.skip(4));
    }
    Ok(4)
}

/// Byte-level round trip of the marshaled value: whatever four bytes the
/// setter stores — the bit pattern of any representable 32-bit float — the
/// getter writes back verbatim. The core never reinterprets or clamps the
/// value, so no bit pattern is privileged.
pub proof fn lemma_marshal_round_trip(value_bytes: Seq<u8>)
    requires
        value_bytes.len() == VALUE_SIZE,
    ensures
        spec_u32_to_le_bytes(spec_u32_from_le_bytes(value_bytes)) == value_bytes,
{
    vstd::bytes::lemma_auto_spec_u32_to_from_le_bytes();
}

} // verus!
