use vstd::prelude::*;

verus! {

/// Where an interpolation amount `t` falls: at or below 0, strictly between
/// 0 and 1, or at or above 1.
#[derive(Clone, Copy, Debug, PartialEq, Eq, Structural)]
pub enum BlendPosition {
    Start,
    Between,
    End,
}

/// Blend policy for a boolean field: the start value at the start, the end
/// value at the end, and enabled whenever either end is enabled in between.
pub open spec fn blend_bool(this: bool, other: bool, pos: BlendPosition) -> bool {
    match pos {
        BlendPosition::Start => this,
        BlendPosition::End => other,
        BlendPosition::Between => this || other,
    }
}

pub fn lerp_bool(this: bool, other: bool, pos: BlendPosition) -> (r: bool)
    ensures
        r == blend_bool(this, other, pos),
{
    match pos {
        BlendPosition::Start => this,
        BlendPosition::End => other,
        BlendPosition::Between => this || other,
    }
}

/// The boolean fields of a resolved outline record.
#[derive(Clone, Copy, Debug, PartialEq, Eq, Structural)]
pub struct OutlineFlags {
    pub stencil_enabled: bool,
    pub volume_visible: bool,
}

pub open spec fn blend_flags_spec(
    start: OutlineFlags,
    end: OutlineFlags,
    pos: BlendPosition,
) -> OutlineFlags {
    OutlineFlags {
        stencil_enabled: blend_bool(start.stencil_enabled, end.stencil_enabled, pos),
        volume_visible: blend_bool(start.volume_visible, end.volume_visible, pos),
    }
}

/// Blends the boolean fields of two resolved records.
pub fn blend_flags(start: OutlineFlags, end: OutlineFlags, pos: BlendPosition) -> (r:
    OutlineFlags)
    ensures
        r == blend_flags_spec(start, end, pos),
{
    OutlineFlags {
        stencil_enabled: lerp_bool(start.stencil_enabled, end.stencil_enabled, pos),
        volume_visible: lerp_bool(start.volume_visible, end.volume_visible, pos),
    }
}

/// Blending at the start yields exactly the start record, and at the end
/// exactly the end record.
pub proof fn lemma_blend_endpoints(start: OutlineFlags, end: OutlineFlags)
    ensures
        blend_flags_spec(start, end, BlendPosition::Start) == start,
        blend_flags_spec(start, end, BlendPosition::End) == end,
{
}

/// Strictly between the endpoints, a field that is disabled at one end and
/// enabled at the other is enabled.
pub proof fn lemma_blend_between_enabled(a: bool, b: bool)
    requires
        a != b,
    ensures
        blend_bool(a, b, BlendPosition::Between),
{
}

} // verus!
