//! The graph-integrated form of the threshold filter: a single-input stage
//! that owns one scalar parameter, binds a draw-info handle supplied by the
//! owning graph, serializes its constant buffer at render preparation, and
//! answers the graph's region-mapping queries with the identity mapping.

use vstd::bytes::spec_u32_to_le_bytes;
use vstd::bytes::u32_to_le_bytes;
use vstd::prelude::*;

use crate::rect::Rect;
use crate::EffectError;

verus! {

/// Identifier under which the stage registers with the effect factory,
/// constant for the lifetime of the process.
pub const THRESHOLD_EFFECT_CLSID: u128 = 0xFB3AF5AA_6F03_4754_A676_BACB2D082069;

/// Identifier naming the compiled pixel-shader program, constant for the
/// lifetime of the process.
pub const THRESHOLD_EFFECT_SHADER: u128 = 0x397DBC73_8831_4C02_9ECD_56036DAEA108;

/// One node of the effect graph. The stage holds its scalar parameter as the
/// bit pattern of a 32-bit float: the core stores and moves the four bytes
/// unchanged, and only the shader and the host interpret them numerically.
pub struct ThresholdEffect {
    /// Bit pattern of the float threshold parameter. Default 0.0, whose bit
    /// pattern is zero. The declared schema range is advertisement only: the
    /// setter never clamps.
    pub threshold_bits: u32,
    /// Whether the stage was installed into a transform graph.
    pub initialized: bool,
    /// Draw-info handle supplied by the graph when pipeline wiring changes;
    /// absent until then. Must be present before any render preparation.
    pub draw_info: Option<u64>,
}

/// The stage's typed setter, as a map on stage states: only the parameter
/// changes.
pub open spec fn spec_set_threshold(stage: ThresholdEffect, bits: u32) -> ThresholdEffect {
    ThresholdEffect { threshold_bits: bits, ..stage }
}

/// The stage's typed getter: the stored parameter, unchanged.
pub open spec fn spec_get_threshold(stage: ThresholdEffect) -> u32 {
    stage.threshold_bits
}

/// The required input region for a requested output region: the same region.
/// The filter reads and writes the same spatial extent.
pub open spec fn spec_map_output_to_input(output_rect: Rect) -> Rect {
    output_rect
}

/// The output region and its opaque sub-region for a given input region: both
/// equal the input region. The filter is fully opaque over its whole input.
pub open spec fn spec_map_inputs_to_output(input_rect: Rect) -> (Rect, Rect) {
    (input_rect, input_rect)
}

/// The invalidated output region for an invalidated input region: the same
/// region, symmetric with the two mappings above.
pub open spec fn spec_map_invalid_rect(invalid_input_rect: Rect) -> Rect {
    invalid_input_rect
}

impl ThresholdEffect {
    /// A freshly constructed stage: parameter at its default, nothing bound.
    pub fn new() -> (stage: Self)
        ensures
            stage == (ThresholdEffect { threshold_bits: 0u32, initialized: false, draw_info: None }),
    {
        ThresholdEffect { threshold_bits: 0, initialized: false, draw_info: None }
    }

    /// Install the stage as the single node of the supplied transform graph.
    /// The caller must hold both an effect context and a transform graph;
    /// their absence is the host's programming error and aborts before this
    /// call. Returns the identifier of the pixel-shader program the caller
    /// loads into the effect context's shader cache.
    pub fn initialize(&mut self) -> (shader: u128)
        ensures
            shader == THRESHOLD_EFFECT_SHADER,
            *final(self) == (ThresholdEffect { initialized: true, ..*old(self) }),
    {
        self.initialized = true;
        THRESHOLD_EFFECT_SHADER
    }

    /// Bind the draw-info handle through which the stage uploads per-draw
    /// shader parameters. An absent handle is refused as an invalid argument
    /// and changes nothing. On success the stage stores the handle and returns
    /// the identifier of the shader program the caller registers as this
    /// node's active pixel shader.
    pub fn set_draw_info(&mut self, draw_info: Option<u64>) -> (r: Result<u128, EffectError>)
        ensures
            draw_info is Some ==> r == Ok::<u128, EffectError>(THRESHOLD_EFFECT_SHADER)
                && *final(self) == (ThresholdEffect { draw_info, ..*old(self) }),
            draw_info is None ==> r == Err::<u128, EffectError>(EffectError::InvalidArgument)
                && *final(self) == *old(self),
    {
        match draw_info {
            Some(handle) => {
                self.draw_info = Some(handle);
                Ok(THRESHOLD_EFFECT_SHADER)
            },
            None => Err(EffectError::InvalidArgument),
        }
    }

    /// Serialize the current parameter record as the flat byte buffer that the
    /// caller uploads as the shader's constant buffer through the bound
    /// draw-info. Running before any draw-info is bound is a precondition
    /// violation: there is nothing to upload through, so the stage fails the
    /// operation rather than produce a frame from garbage constants.
    pub fn prepare_for_render(&self, change_type: i32) -> (r: Result<Vec<u8>, EffectError>)
        ensures
            self.draw_info is Some ==> (r matches Ok(buffer)
                && buffer@ == spec_u32_to_le_bytes(self.threshold_bits)),
            self.draw_info is None ==> r == Err::<Vec<u8>, EffectError>(
                EffectError::PreconditionViolation,
            ),
    {
        let _ = change_type;
        match self.draw_info {
            Some(_) => Ok(u32_to_le_bytes(self.threshold_bits)),
            None => Err(EffectError::PreconditionViolation),
        }
    }

    /// Topology-change notification. A single-input stage never rewires, so
    /// this is a deliberate no-op, implemented so the protocol is complete.
    pub fn set_graph(&self) -> (r: Result<(), EffectError>)
        ensures
            r == Ok::<(), EffectError>(()),
    {
        Ok(())
    }

    /// Store the parameter's bit pattern; always succeeds, in any state, and
    /// takes effect on the next render preparation. No range clamping: the
    /// declared schema range is advertised to hosts, never enforced here.
    pub fn set_threshold(&mut self, bits: u32) -> (r: Result<(), EffectError>)
        ensures
            r == Ok::<(), EffectError>(()),
            *final(self) == spec_set_threshold(*old(self), bits),
    {
        self.threshold_bits = bits;
        Ok(())
    }

    /// Read the parameter's bit pattern back, exactly as stored.
    pub fn get_threshold(&self) -> (bits: u32)
        ensures
            bits == spec_get_threshold(*self),
    {
        self.threshold_bits
    }

    /// Fill the graph's array of required input regions for a requested
    /// output region. The array's length is the input count the graph asks
    /// for: anything but exactly one is refused and the array left untouched.
    pub fn map_output_rect_to_input_rects(&self, output_rect: &Rect, input_rects: &mut Vec<Rect>) -> (r:
        Result<(), EffectError>)
        ensures
            old(input_rects)@.len() == 1 ==> r == Ok::<(), EffectError>(())
                && final(input_rects)@ == seq![spec_map_output_to_input(*output_rect)],
            old(input_rects)@.len() != 1 ==> r == Err::<(), EffectError>(EffectError::InvalidArgument)
                && final(input_rects)@ == old(input_rects)@,
    {
        if input_rects.len() != 1 {
            return Err(EffectError::InvalidArgument);
        }
        input_rects.set(0, *output_rect);
        proof {
            assert(input_rects@ =~= seq![spec_map_output_to_input(*output_rect)]);
        }
        Ok(())
    }

    /// Compute the output region and its opaque sub-region from the graph's
    /// array of input regions. Anything but exactly one input region is
    /// refused.
    pub fn map_input_rects_to_output_rect(&self, input_rects: &Vec<Rect>) -> (r: Result<
        (Rect, Rect),
        EffectError,
    >)
        ensures
            input_rects@.len() == 1 ==> r == Ok::<(Rect, Rect), EffectError>(
                spec_map_inputs_to_output(input_rects@[0]),
            ),
            input_rects@.len() != 1 ==> r == Err::<(Rect, Rect), EffectError>(
                EffectError::InvalidArgument,
            ),
    {
        if input_rects.len() != 1 {
            return Err(EffectError::InvalidArgument);
        }
        let input_rect = input_rects[0];
        Ok((input_rect, input_rect))
    }

    /// The invalidated output region when part of the input is invalidated:
    /// the identity mapping. The index names which input changed; with a
    /// single declared input it carries no further information.
    pub fn map_invalid_rect(&self, input_index: u32, invalid_input_rect: &Rect) -> (r: Result<
        Rect,
        EffectError,
    >)
        ensures
            r == Ok::<Rect, EffectError>(spec_map_invalid_rect(*invalid_input_rect)),
    {
        let _ = input_index;
        Ok(*invalid_input_rect)
    }

    /// The stage declares exactly one input.
    pub fn get_input_count(&self) -> (count: u32)
        ensures
            count == 1,
    {
        1
    }
}

/// Round-trip law of the region-mapping protocol: mapping any region to the
/// required input region and that input region back to an output region
/// returns the original region, and the opaque sub-region always equals the
/// output region. These two facts let the owning graph compute minimal redraw
/// regions.
pub proof fn lemma_region_round_trip(r: Rect)
    ensures
        spec_map_output_to_input(spec_map_inputs_to_output(r).0) == r,
        spec_map_inputs_to_output(r).1 == spec_map_inputs_to_output(r).0,
{
}

/// Symmetry of invalid-region propagation with the two region mappings: an
/// invalidated input region invalidates exactly the output region that
/// requires it.
pub proof fn lemma_invalid_rect_symmetric(r: Rect)
    ensures
        spec_map_invalid_rect(r) == spec_map_inputs_to_output(r).0,
        spec_map_invalid_rect(spec_map_output_to_input(r)) == r,
{
}

/// Parameter round-trip law: after storing any representable bit pattern,
/// the getter reads back exactly that pattern, whatever state the stage was
/// in. This holds for every 32-bit float, including values outside the
/// advertised schema range, which the setter never clamps.
pub proof fn lemma_threshold_round_trip(stage: ThresholdEffect, bits: u32)
    ensures
        spec_get_threshold(spec_set_threshold(stage, bits)) == bits,
        spec_set_threshold(stage, bits).initialized == stage.initialized,
        spec_set_threshold(stage, bits).draw_info == stage.draw_info,
{
}

} // verus!
