use vstd::prelude::*;
use crate::queue::{PhaseItem, PhaseKind, Phases};

verus! {

/// Labels of the render graph nodes that draw outlines.
#[derive(Clone, Copy, Debug, PartialEq, Eq, Structural)]
pub enum NodeOutline {
    /// Writes back unsampled post-processing effects to the sampled attachment.
    MsaaExtraWritebackPass,
    /// Draws the outline phases.
    OutlinePass,
}

/// The render passes that the outline nodes are ordered against.
#[derive(Clone, Copy, Debug, PartialEq, Eq, Structural)]
pub enum PassLabel {
    Tonemapping,
    Outline(NodeOutline),
    EndMainPassPostProcessing,
    Fxaa,
    Smaa,
}

pub open spec fn outline_edges_spec() -> Seq<(PassLabel, PassLabel)> {
    seq![
        (PassLabel::Tonemapping, PassLabel::Outline(NodeOutline::MsaaExtraWritebackPass)),
        (
            PassLabel::Outline(NodeOutline::MsaaExtraWritebackPass),
            PassLabel::Outline(NodeOutline::OutlinePass),
        ),
        (PassLabel::Outline(NodeOutline::OutlinePass), PassLabel::EndMainPassPostProcessing),
        (PassLabel::Outline(NodeOutline::OutlinePass), PassLabel::Fxaa),
        (PassLabel::Outline(NodeOutline::OutlinePass), PassLabel::Smaa),
    ]
}

/// The ordering edges that place the outline nodes in the 3D graph: after
/// tone-mapping, write-back before the outline pass, and the outline pass
/// before the end of post-processing and before any anti-aliasing.
pub fn outline_graph_edges() -> (r: Vec<(PassLabel, PassLabel)>)
    ensures
        r@ == outline_edges_spec(),
{
    let mut r: Vec<(PassLabel, PassLabel)> = Vec::new();
    r.push((PassLabel::Tonemapping, PassLabel::Outline(NodeOutline::MsaaExtraWritebackPass)));
    r.push(
        (
            PassLabel::Outline(NodeOutline::MsaaExtraWritebackPass),
            PassLabel::Outline(NodeOutline::OutlinePass),
        ),
    );
    r.push((PassLabel::Outline(NodeOutline::OutlinePass), PassLabel::EndMainPassPostProcessing));
    r.push((PassLabel::Outline(NodeOutline::OutlinePass), PassLabel::Fxaa));
    r.push((PassLabel::Outline(NodeOutline::OutlinePass), PassLabel::Smaa));
    assert(r@ =~= outline_edges_spec());
    r
}

/// One draw issued by the outline pass.
#[derive(Clone, Copy, Debug, PartialEq, Eq, Structural)]
pub struct DrawCommand {
    pub phase: PhaseKind,
    pub entity: usize,
}

pub open spec fn commands_of(items: Seq<PhaseItem>, kind: PhaseKind) -> Seq<DrawCommand> {
    Seq::new(items.len(), |i: int| DrawCommand { phase: kind, entity: items[i].entity })
}

pub open spec fn draw_commands_spec(
    stencil: Seq<PhaseItem>,
    opaque: Seq<PhaseItem>,
    transparent: Seq<PhaseItem>,
) -> Seq<DrawCommand> {
    commands_of(stencil, PhaseKind::Stencil) + commands_of(opaque, PhaseKind::Opaque)
        + commands_of(transparent, PhaseKind::Transparent)
}

fn push_commands(out: &mut Vec<DrawCommand>, items: &Vec<PhaseItem>, kind: PhaseKind)
    ensures
        final(out)@ == old(out)@ + commands_of(items@, kind),
{
    let ghost start = out@;
    let mut i: usize = 0;
    while i < items.len()
        invariant
            0 <= i <= items@.len(),
            out@ == start + commands_of(items@, kind).take(i as int),
        decreases items@.len() - i,
    {
        out.push(DrawCommand { phase: kind, entity: items[i].entity });
        i = i + 1;
        assert(out@ =~= start + commands_of(items@, kind).take(i as int));
    }
    assert(commands_of(items@, kind).take(i as int) =~= commands_of(items@, kind));
}

/// The draws of the outline pass for one view: the stencil phase, then the
/// opaque phase, then the transparent phase, each in its sorted order.
pub fn draw_commands(p: &Phases) -> (r: Vec<DrawCommand>)
    ensures
        r@ == draw_commands_spec(p.stencil@, p.opaque@, p.transparent@),
{
    let mut r: Vec<DrawCommand> = Vec::new();
    push_commands(&mut r, &p.stencil, PhaseKind::Stencil);
    push_commands(&mut r, &p.opaque, PhaseKind::Opaque);
    push_commands(&mut r, &p.transparent, PhaseKind::Transparent);
    assert(r@ =~= draw_commands_spec(p.stencil@, p.opaque@, p.transparent@));
    r
}

/// Every stencil draw is issued before every opaque or transparent draw,
/// whatever the number of entities; with no entities there are no draws.
pub proof fn lemma_stencil_first(
    stencil: Seq<PhaseItem>,
    opaque: Seq<PhaseItem>,
    transparent: Seq<PhaseItem>,
)
    ensures
        forall|i: int, j: int|
            0 <= i < j < draw_commands_spec(stencil, opaque, transparent).len()
                && (#[trigger] draw_commands_spec(stencil, opaque, transparent)[j]).phase
                == PhaseKind::Stencil ==> (#[trigger] draw_commands_spec(
                stencil,
                opaque,
                transparent,
            )[i]).phase == PhaseKind::Stencil,
        stencil.len() + opaque.len() + transparent.len() == 0 ==> draw_commands_spec(
            stencil,
            opaque,
            transparent,
        ).len() == 0,
{
    let s = commands_of(stencil, PhaseKind::Stencil);
    let o = commands_of(opaque, PhaseKind::Opaque);
    let t = commands_of(transparent, PhaseKind::Transparent);
    let all = draw_commands_spec(stencil, opaque, transparent);
    assert forall|i: int, j: int|
        0 <= i < j < all.len() && (#[trigger] all[j]).phase == PhaseKind::Stencil implies (
    #[trigger] all[i]).phase == PhaseKind::Stencil by {
        if j >= s.len() {
            if j < s.len() + o.len() {
                assert(all[j] == o[j - s.len()]);
            } else {
                assert(all[j] == t[j - s.len() - o.len()]);
            }
        }
        assert(all[i] == s[i]);
    }
}

} // verus!
