use outline_core::{
    blend_flags, draw_commands, extract_outlines, lerp_bool, outline_graph_edges,
    queue_outline_mesh, resolve_all, set_outline_visibility, sort_order, sort_phase, sort_phases,
    BlendPosition, ComputedOutline, DepthMode, DrawCommand, ExtractedOutline, FrameEntity,
    InheritOutline, NodeOutline, OutlineFlags, OutlineResolver, OutlineScene, PassLabel,
    PhaseItem, PhaseKind, Phases, SceneNode, SortOrder, Sources, ViewDepth,
};

fn node(parent: Option<usize>, inherit: bool) -> SceneNode {
    SceneNode {
        parent,
        inherit: if inherit { Some(InheritOutline) } else { None },
        stencil: None,
        volume: None,
        mode: None,
        has_layers: false,
    }
}

fn outlined(parent: Option<usize>) -> SceneNode {
    SceneNode {
        stencil: Some(true),
        volume: Some(true),
        mode: Some(DepthMode::Real),
        has_layers: true,
        ..node(parent, false)
    }
}

fn extracted(entity: usize, stencil: bool, volume: bool) -> ExtractedOutline {
    ExtractedOutline {
        entity,
        stencil,
        volume,
        depth_mode: DepthMode::Flat,
        automatic_batching: true,
        sources: Sources { stencil: None, volume: None, mode: None, layers: None },
    }
}

fn entities(items: &[PhaseItem]) -> Vec<usize> {
    items.iter().map(|i| i.entity).collect()
}

#[test]
fn lerp_bool_endpoints() {
    for a in [false, true] {
        for b in [false, true] {
            assert_eq!(lerp_bool(a, b, BlendPosition::Start), a);
            assert_eq!(lerp_bool(a, b, BlendPosition::End), b);
        }
    }
}

#[test]
fn lerp_bool_between_is_or() {
    assert!(lerp_bool(false, true, BlendPosition::Between));
    assert!(lerp_bool(true, false, BlendPosition::Between));
    assert!(lerp_bool(true, true, BlendPosition::Between));
    assert!(!lerp_bool(false, false, BlendPosition::Between));
}

#[test]
fn blend_flags_endpoints_and_between() {
    let start = OutlineFlags { stencil_enabled: false, volume_visible: true };
    let end = OutlineFlags { stencil_enabled: true, volume_visible: false };
    assert_eq!(blend_flags(start, end, BlendPosition::Start), start);
    assert_eq!(blend_flags(start, end, BlendPosition::End), end);
    assert_eq!(
        blend_flags(start, end, BlendPosition::Between),
        OutlineFlags { stencil_enabled: true, volume_visible: true }
    );
}

#[test]
fn add_entity_rejects_missing_parent() {
    let mut scene = OutlineScene::new();
    assert_eq!(scene.add_entity(node(Some(0), false)), None);
    assert_eq!(scene.len(), 0);
    assert_eq!(scene.add_entity(node(None, false)), Some(0));
    assert_eq!(scene.add_entity(node(Some(0), true)), Some(1));
    assert_eq!(scene.add_entity(node(Some(5), true)), None);
    assert_eq!(scene.len(), 2);
}

#[test]
fn inheriting_child_matches_parent() {
    let mut scene = OutlineScene::new();
    scene.add_entity(outlined(None));
    scene.add_entity(node(Some(0), true));
    scene.add_entity(node(Some(1), true));
    let c = resolve_all(&scene);
    assert_eq!(c.len(), 3);
    let root = c[0].0.expect("root is outlined");
    assert_eq!(
        root.sources,
        Sources { stencil: Some(0), volume: Some(0), mode: Some(0), layers: Some(0) }
    );
    assert_eq!(root.depth_mode, DepthMode::Real);
    assert_eq!(c[1], c[0]);
    assert_eq!(c[2], c[0]);
}

#[test]
fn child_without_marker_is_empty() {
    let mut scene = OutlineScene::new();
    scene.add_entity(outlined(None));
    scene.add_entity(node(Some(0), false));
    let c = resolve_all(&scene);
    assert_eq!(c[1], ComputedOutline(None));
}

#[test]
fn local_override_wins_per_category() {
    let mut scene = OutlineScene::new();
    scene.add_entity(outlined(None));
    let mut child = node(Some(0), true);
    child.volume = Some(false);
    scene.add_entity(child);
    let c = resolve_all(&scene);
    let r = c[1].0.expect("stencil still inherited");
    assert_eq!(
        r.sources,
        Sources { stencil: Some(0), volume: Some(1), mode: Some(0), layers: Some(0) }
    );
    assert_eq!(r.flags, OutlineFlags { stencil_enabled: true, volume_visible: false });
}

#[test]
fn all_disabled_is_empty_and_default_mode_is_flat() {
    let mut scene = OutlineScene::new();
    let mut a = node(None, false);
    a.stencil = Some(false);
    a.volume = Some(false);
    scene.add_entity(a);
    let mut b = node(None, false);
    b.volume = Some(true);
    scene.add_entity(b);
    let c = resolve_all(&scene);
    assert_eq!(c[0], ComputedOutline(None));
    let r = c[1].0.expect("volume visible");
    assert_eq!(r.depth_mode, DepthMode::Flat);
    assert_eq!(r.sources.stencil, None);
}

#[test]
fn inherit_without_ancestor_definition_is_empty() {
    let mut scene = OutlineScene::new();
    scene.add_entity(node(None, true));
    scene.add_entity(node(Some(0), true));
    let c = resolve_all(&scene);
    assert_eq!(c, vec![ComputedOutline(None), ComputedOutline(None)]);
}

#[test]
fn refresh_is_idempotent() {
    let mut scene = OutlineScene::new();
    scene.add_entity(outlined(None));
    scene.add_entity(node(Some(0), true));
    let mut resolver = OutlineResolver::new();
    assert!(resolver.refresh(&scene));
    let first = resolver.computed().clone();
    assert!(!resolver.refresh(&scene));
    assert_eq!(resolver.computed(), &first);
    let mut leaf = node(Some(1), false);
    leaf.stencil = Some(true);
    scene.add_entity(leaf);
    assert!(resolver.refresh(&scene));
    assert_eq!(resolver.computed().len(), 3);
}

#[test]
fn visibility_gate_flags() {
    let mut scene = OutlineScene::new();
    scene.add_entity(outlined(None));
    scene.add_entity(node(None, false));
    let c = resolve_all(&scene);
    assert_eq!(set_outline_visibility(&c), vec![true, false]);
}

#[test]
fn hidden_entity_is_never_extracted() {
    let mut scene = OutlineScene::new();
    scene.add_entity(outlined(None));
    let mut hidden = node(None, false);
    hidden.stencil = Some(false);
    hidden.volume = Some(false);
    hidden.mode = Some(DepthMode::Real);
    hidden.has_layers = true;
    scene.add_entity(hidden);
    scene.add_entity(node(Some(0), true));
    let c = resolve_all(&scene);
    let frame = vec![
        FrameEntity { has_mesh: true, no_automatic_batching: false };
        3
    ];
    let ex = extract_outlines(&c, &frame);
    assert_eq!(ex.iter().map(|e| e.entity).collect::<Vec<_>>(), vec![0, 2]);
    assert!(ex.iter().all(|e| e.stencil && e.volume && e.automatic_batching));
}

#[test]
fn extraction_skips_entities_without_mesh() {
    let mut scene = OutlineScene::new();
    scene.add_entity(outlined(None));
    scene.add_entity(outlined(None));
    let c = resolve_all(&scene);
    let frame = vec![
        FrameEntity { has_mesh: false, no_automatic_batching: false },
        FrameEntity { has_mesh: true, no_automatic_batching: true },
    ];
    let ex = extract_outlines(&c, &frame);
    assert_eq!(ex.len(), 1);
    assert_eq!(ex[0].entity, 1);
    assert!(!ex[0].automatic_batching);
    assert_eq!(ex[0].depth_mode, DepthMode::Real);
}

#[test]
fn extract_component_of_empty_record() {
    assert_eq!(ComputedOutline(None).extract_component(3, false), None);
}

#[test]
fn opaque_phase_sorts_front_to_back() {
    let ex = vec![extracted(0, false, true), extracted(1, false, true), extracted(2, false, true)];
    let depths: Vec<ViewDepth> =
        [1000, 5000, 3000].iter().map(|&k| ViewDepth { depth_key: k, transparent: false }).collect();
    let sorted = sort_phases(&queue_outline_mesh(&ex, &depths));
    let keys: Vec<i64> = sorted.opaque.iter().map(|i| i.key).collect();
    assert_eq!(keys, vec![1000, 3000, 5000]);
    assert!(sorted.transparent.is_empty());
    assert!(sorted.stencil.is_empty());
}

#[test]
fn transparent_phase_sorts_back_to_front() {
    let ex = vec![extracted(0, false, true), extracted(1, false, true), extracted(2, false, true)];
    let depths: Vec<ViewDepth> =
        [1000, 5000, 3000].iter().map(|&k| ViewDepth { depth_key: k, transparent: true }).collect();
    let sorted = sort_phases(&queue_outline_mesh(&ex, &depths));
    let keys: Vec<i64> = sorted.transparent.iter().map(|i| i.key).collect();
    assert_eq!(keys, vec![5000, 3000, 1000]);
    assert!(sorted.opaque.is_empty());
}

#[test]
fn equal_depths_keep_queue_order() {
    let items = vec![
        PhaseItem { entity: 7, key: 2 },
        PhaseItem { entity: 3, key: 1 },
        PhaseItem { entity: 9, key: 2 },
        PhaseItem { entity: 4, key: 1 },
    ];
    assert_eq!(entities(&sort_phase(&items, SortOrder::FrontToBack)), vec![3, 4, 7, 9]);
    assert_eq!(entities(&sort_phase(&items, SortOrder::BackToFront)), vec![7, 9, 3, 4]);
    assert_eq!(sort_order(&vec![2, 1, 2, 1], SortOrder::FrontToBack), vec![1, 3, 0, 2]);
    assert_eq!(sort_order(&vec![], SortOrder::BackToFront), Vec::<usize>::new());
}

#[test]
fn sort_handles_extreme_keys() {
    let keys = vec![i64::MAX, i64::MIN, 0, i64::MIN];
    assert_eq!(sort_order(&keys, SortOrder::FrontToBack), vec![1, 3, 2, 0]);
    assert_eq!(sort_order(&keys, SortOrder::BackToFront), vec![0, 2, 1, 3]);
}

#[test]
fn dual_phase_entity_in_both_phases() {
    let ex = vec![extracted(4, true, true), extracted(5, true, false), extracted(6, false, true)];
    let depths = vec![
        ViewDepth { depth_key: 10, transparent: false },
        ViewDepth { depth_key: 20, transparent: false },
        ViewDepth { depth_key: 30, transparent: true },
    ];
    let p = queue_outline_mesh(&ex, &depths);
    assert_eq!(entities(&p.stencil), vec![4, 5]);
    assert_eq!(entities(&p.opaque), vec![4]);
    assert_eq!(entities(&p.transparent), vec![6]);
    let sorted = sort_phases(&p);
    assert_eq!(entities(&sorted.stencil), vec![4, 5]);
    assert_eq!(entities(&sorted.opaque), vec![4]);
}

#[test]
fn stencil_draws_come_first() {
    let p = Phases {
        stencil: vec![PhaseItem { entity: 1, key: 0 }],
        opaque: vec![PhaseItem { entity: 2, key: 0 }],
        transparent: vec![PhaseItem { entity: 3, key: 0 }, PhaseItem { entity: 1, key: 1 }],
    };
    assert_eq!(
        draw_commands(&p),
        vec![
            DrawCommand { phase: PhaseKind::Stencil, entity: 1 },
            DrawCommand { phase: PhaseKind::Opaque, entity: 2 },
            DrawCommand { phase: PhaseKind::Transparent, entity: 3 },
            DrawCommand { phase: PhaseKind::Transparent, entity: 1 },
        ]
    );
}

#[test]
fn no_entities_no_draws() {
    let p = Phases { stencil: vec![], opaque: vec![], transparent: vec![] };
    assert!(draw_commands(&p).is_empty());
    let q = queue_outline_mesh(&vec![], &vec![]);
    assert!(draw_commands(&sort_phases(&q)).is_empty());
}

#[test]
fn graph_edges_place_outline_after_tonemapping() {
    let msaa = PassLabel::Outline(NodeOutline::MsaaExtraWritebackPass);
    let pass = PassLabel::Outline(NodeOutline::OutlinePass);
    assert_eq!(
        outline_graph_edges(),
        vec![
            (PassLabel::Tonemapping, msaa),
            (msaa, pass),
            (pass, PassLabel::EndMainPassPostProcessing),
            (pass, PassLabel::Fxaa),
            (pass, PassLabel::Smaa),
        ]
    );
}
