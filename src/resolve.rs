use vstd::prelude::*;
use crate::blend::OutlineFlags;

verus! {

/// How outline extrusion is placed: flattened into a camera-facing plane, or
/// left in real model space.
#[derive(Clone, Copy, Debug, PartialEq, Eq, Structural)]
pub enum DepthMode {
    Flat,
    Real,
}

/// The four attribute categories that an entity may set or inherit.
#[derive(Clone, Copy, Debug, PartialEq, Eq, Structural)]
pub enum Category {
    Stencil,
    Volume,
    Mode,
    Layers,
}

/// Marker for entities that inherit their outline from their parent.
#[derive(Clone, Copy, Debug, PartialEq, Eq, Structural)]
pub struct InheritOutline;

/// One entity of the scene arena and the outline attributes it sets locally.
/// `stencil` holds the local stencil's `enabled` flag, `volume` the local
/// volume's `visible` flag and `mode` the local mode's depth mode; each is
/// `None` where the entity does not set that attribute.
#[derive(Clone, Copy, Debug, PartialEq, Eq, Structural)]
pub struct SceneNode {
    pub parent: Option<usize>,
    pub inherit: Option<InheritOutline>,
    pub stencil: Option<bool>,
    pub volume: Option<bool>,
    pub mode: Option<DepthMode>,
    pub has_layers: bool,
}

/// Which entity supplies each attribute category of a resolved record.
#[derive(Clone, Copy, Debug, PartialEq, Eq, Structural)]
pub struct Sources {
    pub stencil: Option<usize>,
    pub volume: Option<usize>,
    pub mode: Option<usize>,
    pub layers: Option<usize>,
}

pub open spec fn has_local(n: SceneNode, c: Category) -> bool {
    match c {
        Category::Stencil => n.stencil.is_some(),
        Category::Volume => n.volume.is_some(),
        Category::Mode => n.mode.is_some(),
        Category::Layers => n.has_layers,
    }
}

/// Every parent link points to an earlier entity, so index order visits
/// parents before children and no parent chain can loop.
pub open spec fn parents_first(nodes: Seq<SceneNode>) -> bool {
    forall|i: int|
        0 <= i < nodes.len() ==> match #[trigger] nodes[i].parent {
            Some(p) => p < i,
            None => true,
        }
}

/// The entity whose local value entity `i` uses for category `c`: its own
/// when set; otherwise, under the inheritance marker, its parent's resolved
/// source; otherwise none (the default applies).
pub open spec fn source_of(nodes: Seq<SceneNode>, i: int, c: Category) -> Option<usize>
    decreases i,
{
    if !(0 <= i < nodes.len()) {
        None
    } else if has_local(nodes[i], c) {
        Some(i as usize)
    } else if nodes[i].inherit.is_some() {
        match nodes[i].parent {
            Some(p) => if p < i {
                source_of(nodes, p as int, c)
            } else {
                None
            },
            None => None,
        }
    } else {
        None
    }
}

pub open spec fn sources_spec(nodes: Seq<SceneNode>, i: int) -> Sources {
    Sources {
        stencil: source_of(nodes, i, Category::Stencil),
        volume: source_of(nodes, i, Category::Volume),
        mode: source_of(nodes, i, Category::Mode),
        layers: source_of(nodes, i, Category::Layers),
    }
}

/// A resolved source is the entity itself or an earlier one, and sets the
/// category locally.
pub proof fn lemma_source_defines(nodes: Seq<SceneNode>, i: int, c: Category)
    requires
        nodes.len() <= usize::MAX,
    ensures
        match source_of(nodes, i, c) {
            Some(k) => k <= i && 0 <= k < nodes.len() && has_local(nodes[k as int], c),
            None => true,
        },
    decreases i,
{
    if 0 <= i < nodes.len() && !has_local(nodes[i], c) && nodes[i].inherit.is_some() {
        match nodes[i].parent {
            Some(p) => if p < i {
                lemma_source_defines(nodes, p as int, c);
            },
            None => {},
        }
    }
}

/// An entity with the inheritance marker and no local value for a category
/// resolves that category exactly as its parent does.
pub proof fn lemma_inherits_parent(nodes: Seq<SceneNode>, i: int, c: Category)
    requires
        parents_first(nodes),
        0 <= i < nodes.len(),
        nodes[i].inherit.is_some(),
        !has_local(nodes[i], c),
        nodes[i].parent.is_some(),
    ensures
        source_of(nodes, i, c) == source_of(nodes, nodes[i].parent.unwrap() as int, c),
{
    assert(nodes[i].parent.unwrap() < i);
}

/// `a` lies on the parent chain of `i` (or is `i`), and every entity from `i`
/// up to, but excluding, `a` carries the inheritance marker and leaves
/// category `c` unset.
pub open spec fn inherits_up_to(nodes: Seq<SceneNode>, i: int, a: int, c: Category) -> bool
    decreases i,
{
    if !(0 <= i < nodes.len()) {
        false
    } else if i == a {
        true
    } else {
        nodes[i].inherit.is_some() && !has_local(nodes[i], c) && match nodes[i].parent {
            Some(p) => p < i && inherits_up_to(nodes, p as int, a, c),
            None => false,
        }
    }
}

/// An entity that inherits category `c` through a chain of entities leaving
/// it unset resolves it to the nearest ancestor on that chain that sets it.
pub proof fn lemma_nearest_definer(nodes: Seq<SceneNode>, i: int, a: int, c: Category)
    requires
        nodes.len() <= usize::MAX,
        inherits_up_to(nodes, i, a, c),
        0 <= a < nodes.len(),
        has_local(nodes[a], c),
    ensures
        source_of(nodes, i, c) == Some(a as usize),
    decreases i,
{
    if i != a {
        let p = nodes[i].parent.unwrap();
        lemma_nearest_definer(nodes, p as int, a, c);
    }
}

/// A resolved outline: which entity supplies each category, the resolved
/// flags and the resolved depth mode.
#[derive(Clone, Copy, Debug, PartialEq, Eq, Structural)]
pub struct ResolvedOutline {
    pub sources: Sources,
    pub flags: OutlineFlags,
    pub depth_mode: DepthMode,
}

/// The cached resolution result of one entity; empty when no outline applies.
#[derive(Clone, Copy, Debug, PartialEq, Eq, Structural)]
pub struct ComputedOutline(pub Option<ResolvedOutline>);

pub open spec fn stencil_flag(nodes: Seq<SceneNode>, s: Option<usize>) -> bool {
    match s {
        Some(k) => nodes[k as int].stencil == Some(true),
        None => false,
    }
}

pub open spec fn volume_flag(nodes: Seq<SceneNode>, s: Option<usize>) -> bool {
    match s {
        Some(k) => nodes[k as int].volume == Some(true),
        None => false,
    }
}

/// An absent mode resolves to the default, flat extrusion.
pub open spec fn depth_mode_of(nodes: Seq<SceneNode>, s: Option<usize>) -> DepthMode {
    match s {
        Some(k) => match nodes[k as int].mode {
            Some(m) => m,
            None => DepthMode::Flat,
        },
        None => DepthMode::Flat,
    }
}

/// The resolution of entity `i`: non-empty exactly when its resolved stencil
/// is enabled or its resolved volume is visible.
pub open spec fn computed_spec(nodes: Seq<SceneNode>, i: int) -> ComputedOutline {
    let s = sources_spec(nodes, i);
    let flags = OutlineFlags {
        stencil_enabled: stencil_flag(nodes, s.stencil),
        volume_visible: volume_flag(nodes, s.volume),
    };
    if flags.stencil_enabled || flags.volume_visible {
        ComputedOutline(
            Some(ResolvedOutline { sources: s, flags, depth_mode: depth_mode_of(nodes, s.mode) }),
        )
    } else {
        ComputedOutline(None)
    }
}

pub open spec fn computed_all(nodes: Seq<SceneNode>) -> Seq<ComputedOutline> {
    Seq::new(nodes.len(), |i: int| computed_spec(nodes, i))
}

/// The scene graph as an arena: entities are indexed in insertion order and
/// each parent link points to an earlier entity.
pub struct OutlineScene {
    nodes: Vec<SceneNode>,
}

impl View for OutlineScene {
    type V = Seq<SceneNode>;

    closed spec fn view(&self) -> Seq<SceneNode> {
        self.nodes@
    }
}

pub open spec fn parent_ok(nodes: Seq<SceneNode>, node: SceneNode) -> bool {
    match node.parent {
        Some(p) => p < nodes.len(),
        None => true,
    }
}

impl OutlineScene {
    pub open spec fn wf(&self) -> bool {
        parents_first(self@)
    }

    pub fn new() -> (r: OutlineScene)
        ensures
            r@ == Seq::<SceneNode>::empty(),
            r.wf(),
    {
        let r = OutlineScene { nodes: Vec::new() };
        assert(r@ == Seq::<SceneNode>::empty());
        r
    }

    pub fn len(&self) -> (r: usize)
        ensures
            r == self@.len(),
    {
        self.nodes.len()
    }

    pub fn node(&self, i: usize) -> (r: SceneNode)
        requires
            i < self@.len(),
        ensures
            r == self@[i as int],
    {
        self.nodes[i]
    }

    /// Appends an entity and returns its index; refuses (and changes nothing)
    /// when its parent is not an existing entity.
    pub fn add_entity(&mut self, node: SceneNode) -> (r: Option<usize>)
        requires
            old(self).wf(),
        ensures
            final(self).wf(),
            parent_ok(old(self)@, node) ==> r == Some(old(self)@.len() as usize) && final(self)@
                == old(self)@.push(node),
            !parent_ok(old(self)@, node) ==> r.is_none() && final(self)@ == old(self)@,
    {
        let n = self.nodes.len();
        let ok = match node.parent {
            Some(p) => p < n,
            None => true,
        };
        if ok {
            self.nodes.push(node);
            assert(parents_first(self@)) by {
                assert forall|i: int| 0 <= i < self@.len() implies match #[trigger] self@[i].parent {
                    Some(p) => p < i,
                    None => true,
                } by {
                    if i < n {
                        assert(self@[i] == old(self)@[i]);
                    }
                }
            }
            Some(n)
        } else {
            None
        }
    }
}

/// Resolves every entity of the scene, parents before children.
pub fn resolve_all(scene: &OutlineScene) -> (r: Vec<ComputedOutline>)
    requires
        scene.wf(),
    ensures
        r@ == computed_all(scene@),
{
    let n = scene.len();
    let mut srcs: Vec<Sources> = Vec::new();
    let mut out: Vec<ComputedOutline> = Vec::new();
    let mut i: usize = 0;
    while i < n
        invariant
            0 <= i <= n,
            n == scene@.len(),
            scene.wf(),
            srcs@.len() == i,
            out@.len() == i,
            forall|j: int| 0 <= j < i ==> srcs@[j] == sources_spec(scene@, j),
            forall|j: int| 0 <= j < i ==> out@[j] == computed_spec(scene@, j),
        decreases n - i,
    {
        let node = scene.node(i);
        let up: Option<usize> = match node.inherit {
            Some(_) => node.parent,
            None => None,
        };
        proof {
            if up.is_some() {
                assert(scene@[i as int].parent.unwrap() < i);
            }
        }
        let s = Sources {
            stencil: if node.stencil.is_some() { Some(i) } else { match up {
                Some(p) => srcs[p].stencil,
                None => None,
            } },
            volume: if node.volume.is_some() { Some(i) } else { match up {
                Some(p) => srcs[p].volume,
                None => None,
            } },
            mode: if node.mode.is_some() { Some(i) } else { match up {
                Some(p) => srcs[p].mode,
                None => None,
            } },
            layers: if node.has_layers { Some(i) } else { match up {
                Some(p) => srcs[p].layers,
                None => None,
            } },
        };
        assert(s == sources_spec(scene@, i as int));
        proof {
            lemma_source_defines(scene@, i as int, Category::Stencil);
            lemma_source_defines(scene@, i as int, Category::Volume);
            lemma_source_defines(scene@, i as int, Category::Mode);
        }
        let stencil_enabled = match s.stencil {
            Some(k) => scene.node(k).stencil == Some(true),
            None => false,
        };
        let volume_visible = match s.volume {
            Some(k) => scene.node(k).volume == Some(true),
            None => false,
        };
        let depth_mode = match s.mode {
            Some(k) => match scene.node(k).mode {
                Some(m) => m,
                None => DepthMode::Flat,
            },
            None => DepthMode::Flat,
        };
        let flags = OutlineFlags { stencil_enabled, volume_visible };
        let c = if stencil_enabled || volume_visible {
            ComputedOutline(Some(ResolvedOutline { sources: s, flags, depth_mode }))
        } else {
            ComputedOutline(None)
        };
        srcs.push(s);
        out.push(c);
        i = i + 1;
    }
    assert(out@ =~= computed_all(scene@));
    out
}

/// The cache of resolved outlines, one per entity, recomputed on refresh.
pub struct OutlineResolver {
    computed: Vec<ComputedOutline>,
}

impl View for OutlineResolver {
    type V = Seq<ComputedOutline>;

    closed spec fn view(&self) -> Seq<ComputedOutline> {
        self.computed@
    }
}

impl OutlineResolver {
    pub fn new() -> (r: OutlineResolver)
        ensures
            r@ == Seq::<ComputedOutline>::empty(),
    {
        let r = OutlineResolver { computed: Vec::new() };
        assert(r@ == Seq::<ComputedOutline>::empty());
        r
    }

    pub fn computed(&self) -> (r: &Vec<ComputedOutline>)
        ensures
            r@ == self@,
    {
        &self.computed
    }

    /// Re-resolves the scene and returns whether any cached record changed.
    /// A refresh with unchanged inputs leaves the cache exactly as it was.
    pub fn refresh(&mut self, scene: &OutlineScene) -> (changed: bool)
        requires
            scene.wf(),
        ensures
            final(self)@ == computed_all(scene@),
            changed == (old(self)@ != final(self)@),
            old(self)@ == computed_all(scene@) ==> !changed && final(self)@ == old(self)@,
    {
        let fresh = resolve_all(scene);
        let mut same = fresh.len() == self.computed.len();
        let mut i: usize = 0;
        while same && i < fresh.len()
            invariant
                0 <= i <= fresh@.len(),
                same ==> fresh@.len() == self.computed@.len(),
                same ==> forall|j: int| 0 <= j < i ==> fresh@[j] == self.computed@[j],
                !same ==> fresh@ != self.computed@,
            decreases fresh@.len() - i,
        {
            if fresh[i] != self.computed[i] {
                same = false;
            }
            i = i + 1;
        }
        if same {
            assert(fresh@ =~= self.computed@);
        }
        self.computed = fresh;
        !same
    }
}

} // verus!
