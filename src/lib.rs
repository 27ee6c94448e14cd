//! Outline rendering core: attribute resolution over a scene graph, the
//! visibility gate, per-frame extraction, phase queueing and draw ordering.
//!
//! Numeric attribute payloads (offsets, widths, colours) are carried by the
//! host; this library decides which entity supplies each attribute, whether an
//! entity is drawn, in which phases, and in which order.

pub mod blend;
pub mod extract;
pub mod graph;
pub mod queue;
pub mod resolve;

pub use blend::{blend_flags, lerp_bool, BlendPosition, OutlineFlags};
pub use extract::{extract_outlines, set_outline_visibility, ExtractedOutline, FrameEntity};
pub use graph::{draw_commands, outline_graph_edges, DrawCommand, NodeOutline, PassLabel};
pub use queue::{
    queue_outline_mesh, sort_order, sort_phase, sort_phases, PhaseItem, PhaseKind, Phases,
    SortOrder, ViewDepth,
};
pub use resolve::{
    resolve_all, Category, ComputedOutline, DepthMode, InheritOutline, OutlineResolver,
    OutlineScene, ResolvedOutline, SceneNode, Sources,
};
