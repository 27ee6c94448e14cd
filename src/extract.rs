use vstd::prelude::*;
use crate::resolve::{ComputedOutline, DepthMode, Sources};

verus! {

/// The per-frame render-side snapshot of one outlined entity.
#[derive(Clone, Copy, Debug, PartialEq, Eq, Structural)]
pub struct ExtractedOutline {
    pub entity: usize,
    pub stencil: bool,
    pub volume: bool,
    pub depth_mode: DepthMode,
    pub automatic_batching: bool,
    pub sources: Sources,
}

/// What the host knows of an entity this frame beside its resolved outline.
#[derive(Clone, Copy, Debug, PartialEq, Eq, Structural)]
pub struct FrameEntity {
    /// The entity has a world transform and a mesh.
    pub has_mesh: bool,
    /// The entity opts out of automatic batching.
    pub no_automatic_batching: bool,
}

/// An entity is render-visible when its resolved stencil is enabled or its
/// resolved volume is visible.
pub open spec fn visible_spec(c: ComputedOutline) -> bool {
    match c.0 {
        Some(r) => r.flags.stencil_enabled || r.flags.volume_visible,
        None => false,
    }
}

pub open spec fn extract_spec(c: ComputedOutline, entity: usize, no_automatic_batching: bool) -> Option<
    ExtractedOutline,
> {
    match c.0 {
        Some(r) => if r.flags.stencil_enabled || r.flags.volume_visible {
            Some(
                ExtractedOutline {
                    entity,
                    stencil: r.flags.stencil_enabled,
                    volume: r.flags.volume_visible,
                    depth_mode: r.depth_mode,
                    automatic_batching: !no_automatic_batching,
                    sources: r.sources,
                },
            )
        } else {
            None
        },
        None => None,
    }
}

impl ComputedOutline {
    pub fn is_visible(&self) -> (r: bool)
        ensures
            r == visible_spec(*self),
    {
        match self.0 {
            Some(r) => r.flags.stencil_enabled || r.flags.volume_visible,
            None => false,
        }
    }

    /// The snapshot of this record for `entity`; none when no outline applies.
    pub fn extract_component(&self, entity: usize, no_automatic_batching: bool) -> (r: Option<
        ExtractedOutline,
    >)
        ensures
            r == extract_spec(*self, entity, no_automatic_batching),
    {
        match self.0 {
            Some(res) => if res.flags.stencil_enabled || res.flags.volume_visible {
                Some(
                    ExtractedOutline {
                        entity,
                        stencil: res.flags.stencil_enabled,
                        volume: res.flags.volume_visible,
                        depth_mode: res.depth_mode,
                        automatic_batching: !no_automatic_batching,
                        sources: res.sources,
                    },
                )
            } else {
                None
            },
            None => None,
        }
    }
}

/// The visibility gate: one render-visibility flag per entity.
pub fn set_outline_visibility(computed: &Vec<ComputedOutline>) -> (r: Vec<bool>)
    ensures
        r@.len() == computed@.len(),
        forall|i: int| 0 <= i < r@.len() ==> r@[i] == visible_spec(computed@[i]),
{
    let mut r: Vec<bool> = Vec::new();
    let mut i: usize = 0;
    while i < computed.len()
        invariant
            0 <= i <= computed@.len(),
            r@.len() == i,
            forall|j: int| 0 <= j < i ==> r@[j] == visible_spec(computed@[j]),
        decreases computed@.len() - i,
    {
        r.push(computed[i].is_visible());
        i = i + 1;
    }
    r
}

/// The snapshots of the first `n` entities, in entity order: one for each
/// entity with a mesh whose record extracts.
pub open spec fn extracted_prefix(
    computed: Seq<ComputedOutline>,
    frame: Seq<FrameEntity>,
    n: int,
) -> Seq<ExtractedOutline>
    decreases n,
{
    if n <= 0 {
        Seq::empty()
    } else {
        let rest = extracted_prefix(computed, frame, n - 1);
        let f = frame[n - 1];
        if f.has_mesh {
            match extract_spec(computed[n - 1], (n - 1) as usize, f.no_automatic_batching) {
                Some(e) => rest.push(e),
                None => rest,
            }
        } else {
            rest
        }
    }
}

/// Builds the frame's snapshot set.
pub fn extract_outlines(computed: &Vec<ComputedOutline>, frame: &Vec<FrameEntity>) -> (r: Vec<
    ExtractedOutline,
>)
    requires
        frame@.len() == computed@.len(),
    ensures
        r@ == extracted_prefix(computed@, frame@, computed@.len() as int),
{
    let mut r: Vec<ExtractedOutline> = Vec::new();
    let mut i: usize = 0;
    while i < computed.len()
        invariant
            0 <= i <= computed@.len(),
            frame@.len() == computed@.len(),
            r@ == extracted_prefix(computed@, frame@, i as int),
        decreases computed@.len() - i,
    {
        let f = frame[i];
        if f.has_mesh {
            match computed[i].extract_component(i, f.no_automatic_batching) {
                Some(e) => r.push(e),
                None => {},
            }
        }
        i = i + 1;
    }
    r
}

/// Every snapshot of the first `n` entities comes from an earlier entity that
/// has a mesh and passes the visibility gate, and carries that entity's flags.
pub proof fn lemma_extracted_visible(
    computed: Seq<ComputedOutline>,
    frame: Seq<FrameEntity>,
    n: int,
    k: int,
)
    requires
        0 <= n <= computed.len(),
        n <= frame.len(),
        n <= usize::MAX + 1,
        0 <= k < extracted_prefix(computed, frame, n).len(),
    ensures
        ({
            let e = extracted_prefix(computed, frame, n)[k];
            &&& e.entity < n
            &&& frame[e.entity as int].has_mesh
            &&& visible_spec(computed[e.entity as int])
            &&& (e.stencil || e.volume)
        }),
    decreases n,
{
    let rest = extracted_prefix(computed, frame, n - 1);
    if k < rest.len() {
        lemma_extracted_visible(computed, frame, n - 1, k);
    }
}

/// The visibility gate holds of extraction: an entity that passes no
/// gate (neither stencil enabled nor volume visible) is never extracted,
/// whatever the other fields of its record hold.
pub proof fn lemma_hidden_never_extracted(
    computed: Seq<ComputedOutline>,
    frame: Seq<FrameEntity>,
    entity: usize,
)
    requires
        computed.len() == frame.len(),
        computed.len() <= usize::MAX,
        entity < computed.len(),
        !visible_spec(computed[entity as int]),
    ensures
        forall|k: int|
            0 <= k < extracted_prefix(computed, frame, computed.len() as int).len()
                ==> (#[trigger] extracted_prefix(computed, frame, computed.len() as int)[k]).entity
                != entity,
{
    assert forall|k: int|
        0 <= k < extracted_prefix(computed, frame, computed.len() as int).len() implies (
    #[trigger] extracted_prefix(computed, frame, computed.len() as int)[k]).entity
        != entity by {
        lemma_extracted_visible(computed, frame, computed.len() as int, k);
    }
}

} // verus!
