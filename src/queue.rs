use vstd::prelude::*;
use crate::extract::ExtractedOutline;
use vstd::set_lib::{lemma_int_range, lemma_subset_equality, set_int_range};

verus! {

/// Sort direction of a phase over camera-space depth keys.
#[derive(Clone, Copy, Debug, PartialEq, Eq, Structural)]
pub enum SortOrder {
    FrontToBack,
    BackToFront,
}

pub open spec fn key_before(a: i64, b: i64, dir: SortOrder) -> bool {
    match dir {
        SortOrder::FrontToBack => a < b,
        SortOrder::BackToFront => a > b,
    }
}

fn key_precedes(a: i64, b: i64, dir: SortOrder) -> (r: bool)
    ensures
        r == key_before(a, b, dir),
{
    match dir {
        SortOrder::FrontToBack => a < b,
        SortOrder::BackToFront => a > b,
    }
}

/// Position `x` is drawn before position `y`: its key comes first in the
/// phase's direction, or the keys are equal and `x` was queued first.
pub open spec fn before(keys: Seq<i64>, x: usize, y: usize, dir: SortOrder) -> bool {
    key_before(keys[x as int], keys[y as int], dir) || (keys[x as int] == keys[y as int] && x < y)
}

/// `order` lists every position of `keys` exactly once, in draw order.
pub open spec fn is_stable_order(keys: Seq<i64>, order: Seq<usize>, dir: SortOrder) -> bool {
    &&& order.len() == keys.len()
    &&& forall|i: int| 0 <= i < order.len() ==> #[trigger] order[i] < keys.len()
    &&& forall|i: int, j: int|
        0 <= i < j < order.len() ==> order[i] != order[j] && before(
            keys,
            #[trigger] order[i],
            #[trigger] order[j],
            dir,
        )
}

/// The stable sort order of `keys`: positions sorted by key in the given
/// direction, equal keys kept in queue order.
pub fn sort_order(keys: &Vec<i64>, dir: SortOrder) -> (r: Vec<usize>)
    ensures
        is_stable_order(keys@, r@, dir),
{
    let n = keys.len();
    let mut out: Vec<usize> = Vec::new();
    let mut i: usize = 0;
    while i < n
        invariant
            0 <= i <= n,
            n == keys@.len(),
            out@.len() == i,
            forall|a: int| 0 <= a < out@.len() ==> #[trigger] out@[a] < i,
            forall|a: int, b: int|
                0 <= a < b < out@.len() ==> out@[a] != out@[b] && before(
                    keys@,
                    #[trigger] out@[a],
                    #[trigger] out@[b],
                    dir,
                ),
        decreases n - i,
    {
        let k = keys[i];
        let mut pos: usize = 0;
        while pos < out.len() && !key_precedes(k, keys[out[pos]], dir)
            invariant
                0 <= pos <= out@.len(),
                i < n,
                n == keys@.len(),
                k == keys@[i as int],
                forall|a: int| 0 <= a < out@.len() ==> #[trigger] out@[a] < i,
                forall|a: int| 0 <= a < pos ==> before(keys@, #[trigger] out@[a], i, dir),
            decreases out@.len() - pos,
        {
            pos = pos + 1;
        }
        proof {
            assert forall|a: int| pos <= a < out@.len() implies before(
                keys@,
                i,
                #[trigger] out@[a],
                dir,
            ) by {
                if a > pos {
                    assert(before(keys@, out@[pos as int], out@[a], dir));
                }
            }
        }
        let ghost prev = out@;
        out.insert(pos, i);
        proof {
            assert forall|a: int| 0 <= a < out@.len() implies #[trigger] out@[a] < i + 1 by {
                if a < pos {
                    assert(out@[a] == prev[a]);
                } else if a > pos {
                    assert(out@[a] == prev[a - 1]);
                }
            }
            assert forall|a: int, b: int| 0 <= a < b < out@.len() implies out@[a] != out@[b]
                && before(keys@, #[trigger] out@[a], #[trigger] out@[b], dir) by {
                if a < pos {
                    assert(out@[a] == prev[a]);
                    if b < pos {
                        assert(out@[b] == prev[b]);
                    } else if b > pos {
                        assert(out@[b] == prev[b - 1]);
                    }
                } else if a == pos {
                    assert(out@[b] == prev[b - 1]);
                } else {
                    assert(out@[a] == prev[a - 1]);
                    assert(out@[b] == prev[b - 1]);
                }
            }
        }
        i = i + 1;
    }
    out
}

/// One queued draw of an entity in a phase, with its depth sort key.
#[derive(Clone, Copy, Debug, PartialEq, Eq, Structural)]
pub struct PhaseItem {
    pub entity: usize,
    pub key: i64,
}

pub open spec fn keys_of(items: Seq<PhaseItem>) -> Seq<i64> {
    Seq::new(items.len(), |i: int| items[i].key)
}

/// `r` is `items` rearranged into a stable order for `dir`.
pub open spec fn is_sorted_phase(items: Seq<PhaseItem>, r: Seq<PhaseItem>, dir: SortOrder) -> bool {
    exists|order: Seq<usize>|
        is_stable_order(keys_of(items), order, dir) && r == Seq::new(
            order.len(),
            |i: int| items[order[i] as int],
        )
}

/// Sorts a phase's queued items stably by depth key in the given direction.
pub fn sort_phase(items: &Vec<PhaseItem>, dir: SortOrder) -> (r: Vec<PhaseItem>)
    ensures
        is_sorted_phase(items@, r@, dir),
{
    let mut keys: Vec<i64> = Vec::new();
    let mut i: usize = 0;
    while i < items.len()
        invariant
            0 <= i <= items@.len(),
            keys@ == keys_of(items@).take(i as int),
        decreases items@.len() - i,
    {
        keys.push(items[i].key);
        i = i + 1;
        assert(keys@ =~= keys_of(items@).take(i as int));
    }
    assert(keys@ =~= keys_of(items@));
    let order = sort_order(&keys, dir);
    let mut r: Vec<PhaseItem> = Vec::new();
    let mut j: usize = 0;
    while j < order.len()
        invariant
            0 <= j <= order@.len(),
            is_stable_order(keys_of(items@), order@, dir),
            r@ == Seq::new(j as nat, |a: int| items@[order@[a] as int]),
        decreases order@.len() - j,
    {
        assert(order@[j as int] < items@.len());
        r.push(items[order[j]]);
        j = j + 1;
        assert(r@ =~= Seq::new(j as nat, |a: int| items@[order@[a] as int]));
    }
    assert(r@ =~= Seq::new(order@.len(), |a: int| items@[order@[a] as int]));
    r
}

/// The three outline draw phases, in the order the outline pass draws them.
#[derive(Clone, Copy, Debug, PartialEq, Eq, Structural)]
pub enum PhaseKind {
    Stencil,
    Opaque,
    Transparent,
}

/// What the renderer knows of an extracted outline for the current view:
/// its camera-space depth as an order-preserving key, and whether its
/// material is transparent.
#[derive(Clone, Copy, Debug, PartialEq, Eq, Structural)]
pub struct ViewDepth {
    pub depth_key: i64,
    pub transparent: bool,
}

pub open spec fn in_phase(e: ExtractedOutline, d: ViewDepth, kind: PhaseKind) -> bool {
    match kind {
        PhaseKind::Stencil => e.stencil,
        PhaseKind::Opaque => e.volume && !d.transparent,
        PhaseKind::Transparent => e.volume && d.transparent,
    }
}

/// The items that the first `n` extracted outlines queue into phase `kind`,
/// in extraction order.
pub open spec fn queued_prefix(
    ex: Seq<ExtractedOutline>,
    depths: Seq<ViewDepth>,
    n: int,
    kind: PhaseKind,
) -> Seq<PhaseItem>
    decreases n,
{
    if n <= 0 {
        Seq::empty()
    } else {
        let rest = queued_prefix(ex, depths, n - 1, kind);
        if in_phase(ex[n - 1], depths[n - 1], kind) {
            rest.push(PhaseItem { entity: ex[n - 1].entity, key: depths[n - 1].depth_key })
        } else {
            rest
        }
    }
}

/// The draw lists of the three phases.
pub struct Phases {
    pub stencil: Vec<PhaseItem>,
    pub opaque: Vec<PhaseItem>,
    pub transparent: Vec<PhaseItem>,
}

/// Queues every extracted outline into its phases: the stencil phase when its
/// stencil is enabled, and the opaque or transparent phase (by material) when
/// its volume is visible. Each list keeps extraction order.
pub fn queue_outline_mesh(ex: &Vec<ExtractedOutline>, depths: &Vec<ViewDepth>) -> (r: Phases)
    requires
        depths@.len() == ex@.len(),
    ensures
        r.stencil@ == queued_prefix(ex@, depths@, ex@.len() as int, PhaseKind::Stencil),
        r.opaque@ == queued_prefix(ex@, depths@, ex@.len() as int, PhaseKind::Opaque),
        r.transparent@ == queued_prefix(ex@, depths@, ex@.len() as int, PhaseKind::Transparent),
{
    let mut r = Phases { stencil: Vec::new(), opaque: Vec::new(), transparent: Vec::new() };
    let mut i: usize = 0;
    while i < ex.len()
        invariant
            0 <= i <= ex@.len(),
            depths@.len() == ex@.len(),
            r.stencil@ == queued_prefix(ex@, depths@, i as int, PhaseKind::Stencil),
            r.opaque@ == queued_prefix(ex@, depths@, i as int, PhaseKind::Opaque),
            r.transparent@ == queued_prefix(ex@, depths@, i as int, PhaseKind::Transparent),
        decreases ex@.len() - i,
    {
        let e = ex[i];
        let d = depths[i];
        let item = PhaseItem { entity: e.entity, key: d.depth_key };
        if e.stencil {
            r.stencil.push(item);
        }
        if e.volume {
            if d.transparent {
                r.transparent.push(item);
            } else {
                r.opaque.push(item);
            }
        }
        i = i + 1;
    }
    r
}

/// Sorts the stencil and opaque phases front to back and the transparent
/// phase back to front.
pub fn sort_phases(p: &Phases) -> (r: Phases)
    ensures
        is_sorted_phase(p.stencil@, r.stencil@, SortOrder::FrontToBack),
        is_sorted_phase(p.opaque@, r.opaque@, SortOrder::FrontToBack),
        is_sorted_phase(p.transparent@, r.transparent@, SortOrder::BackToFront),
{
    Phases {
        stencil: sort_phase(&p.stencil, SortOrder::FrontToBack),
        opaque: sort_phase(&p.opaque, SortOrder::FrontToBack),
        transparent: sort_phase(&p.transparent, SortOrder::BackToFront),
    }
}

/// An extracted outline that belongs to a phase is queued in that phase.
pub proof fn lemma_queued_in_phase(
    ex: Seq<ExtractedOutline>,
    depths: Seq<ViewDepth>,
    n: int,
    k: int,
    kind: PhaseKind,
)
    requires
        0 <= k < n <= ex.len(),
        n <= depths.len(),
        in_phase(ex[k], depths[k], kind),
    ensures
        queued_prefix(ex, depths, n, kind).contains(
            PhaseItem { entity: ex[k].entity, key: depths[k].depth_key },
        ),
    decreases n,
{
    let item = PhaseItem { entity: ex[k].entity, key: depths[k].depth_key };
    let rest = queued_prefix(ex, depths, n - 1, kind);
    if k < n - 1 {
        lemma_queued_in_phase(ex, depths, n - 1, k, kind);
        let w = choose|w: int| 0 <= w < rest.len() && rest[w] == item;
        if in_phase(ex[n - 1], depths[n - 1], kind) {
            assert(queued_prefix(ex, depths, n, kind)[w] == item);
        }
    } else {
        assert(queued_prefix(ex, depths, n, kind)[rest.len() as int] == item);
    }
}

/// An outline with its stencil enabled and its volume visible is queued in
/// the stencil phase and in the opaque or the transparent phase of the same
/// frame.
pub proof fn lemma_dual_phase(ex: Seq<ExtractedOutline>, depths: Seq<ViewDepth>, k: int)
    requires
        depths.len() == ex.len(),
        0 <= k < ex.len(),
        ex[k].stencil,
        ex[k].volume,
    ensures
        ({
            let item = PhaseItem { entity: ex[k].entity, key: depths[k].depth_key };
            let n = ex.len() as int;
            &&& queued_prefix(ex, depths, n, PhaseKind::Stencil).contains(item)
            &&& (queued_prefix(ex, depths, n, PhaseKind::Opaque).contains(item)
                || queued_prefix(ex, depths, n, PhaseKind::Transparent).contains(item))
        }),
{
    lemma_queued_in_phase(ex, depths, ex.len() as int, k, PhaseKind::Stencil);
    if depths[k].transparent {
        lemma_queued_in_phase(ex, depths, ex.len() as int, k, PhaseKind::Transparent);
    } else {
        lemma_queued_in_phase(ex, depths, ex.len() as int, k, PhaseKind::Opaque);
    }
}

/// A stable order lists every position: each position of `keys` occurs in it.
pub proof fn lemma_stable_order_onto(keys: Seq<i64>, order: Seq<usize>, dir: SortOrder, x: int)
    requires
        is_stable_order(keys, order, dir),
        0 <= x < keys.len(),
    ensures
        exists|i: int| 0 <= i < order.len() && order[i] as int == x,
{
    let n = keys.len() as int;
    let ords = order.map_values(|u: usize| u as int);
    assert forall|a: int, b: int| 0 <= a < ords.len() && 0 <= b < ords.len() && a != b implies ords[a]
        != ords[b] by {
        if a < b {
            assert(order[a] != order[b]);
        } else {
            assert(order[b] != order[a]);
        }
    }
    assert(ords.no_duplicates());
    ords.unique_seq_to_set();
    lemma_int_range(0, n);
    assert(ords.to_set().subset_of(set_int_range(0, n))) by {
        assert forall|v: int| ords.to_set().contains(v) implies set_int_range(0, n).contains(v) by {
            let i = choose|i: int| 0 <= i < ords.len() && ords[i] == v;
            assert(order[i] < keys.len());
        }
    }
    lemma_subset_equality(ords.to_set(), set_int_range(0, n));
    assert(set_int_range(0, n).contains(x));
    assert(ords.to_set().contains(x));
    let i = choose|i: int| 0 <= i < ords.len() && ords[i] == x;
    assert(order[i] as int == x);
}

/// Sorting a phase keeps every queued item.
pub proof fn lemma_sorted_keeps_items(
    items: Seq<PhaseItem>,
    r: Seq<PhaseItem>,
    dir: SortOrder,
    x: PhaseItem,
)
    requires
        is_sorted_phase(items, r, dir),
        items.contains(x),
    ensures
        r.contains(x),
{
    let order = choose|order: Seq<usize>|
        is_stable_order(keys_of(items), order, dir) && r == Seq::new(
            order.len(),
            |i: int| items[order[i] as int],
        );
    let j = choose|j: int| 0 <= j < items.len() && items[j] == x;
    lemma_stable_order_onto(keys_of(items), order, dir, j);
    let i = choose|i: int| 0 <= i < order.len() && order[i] as int == j;
    assert(r[i] == x);
}

/// The dual-phase property holds of the sorted phases as well: an outline
/// with its stencil enabled and its volume visible is drawn in the stencil
/// phase and in the opaque or the transparent phase.
pub proof fn lemma_dual_phase_sorted(
    ex: Seq<ExtractedOutline>,
    depths: Seq<ViewDepth>,
    k: int,
    stencil: Seq<PhaseItem>,
    opaque: Seq<PhaseItem>,
    transparent: Seq<PhaseItem>,
)
    requires
        depths.len() == ex.len(),
        0 <= k < ex.len(),
        ex[k].stencil,
        ex[k].volume,
        is_sorted_phase(
            queued_prefix(ex, depths, ex.len() as int, PhaseKind::Stencil),
            stencil,
            SortOrder::FrontToBack,
        ),
        is_sorted_phase(
            queued_prefix(ex, depths, ex.len() as int, PhaseKind::Opaque),
            opaque,
            SortOrder::FrontToBack,
        ),
        is_sorted_phase(
            queued_prefix(ex, depths, ex.len() as int, PhaseKind::Transparent),
            transparent,
            SortOrder::BackToFront,
        ),
    ensures
        ({
            let item = PhaseItem { entity: ex[k].entity, key: depths[k].depth_key };
            stencil.contains(item) && (opaque.contains(item) || transparent.contains(item))
        }),
{
    let item = PhaseItem { entity: ex[k].entity, key: depths[k].depth_key };
    let n = ex.len() as int;
    lemma_dual_phase(ex, depths, k);
    lemma_sorted_keeps_items(
        queued_prefix(ex, depths, n, PhaseKind::Stencil),
        stencil,
        SortOrder::FrontToBack,
        item,
    );
    if queued_prefix(ex, depths, n, PhaseKind::Opaque).contains(item) {
        lemma_sorted_keeps_items(
            queued_prefix(ex, depths, n, PhaseKind::Opaque),
            opaque,
            SortOrder::FrontToBack,
            item,
        );
    } else {
        lemma_sorted_keeps_items(
            queued_prefix(ex, depths, n, PhaseKind::Transparent),
            transparent,
            SortOrder::BackToFront,
            item,
        );
    }
}

} // verus!
