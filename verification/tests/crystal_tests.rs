use lightborne::crystal::{
    crystal_color, crystal_from_cell, init_crystal_cache_groups, init_crystal_cache_tiles,
    invalidate_crystal_cache, is_crystal_active, on_crystal_changed, reset_crystals,
    toggle_crystal, toggle_crystal_group, Crystal, CrystalCache, CrystalColor, CrystalGroup,
    CrystalIdent, CrystalToggleEvent,
};

fn ident(color: CrystalColor) -> CrystalIdent {
    CrystalIdent { color, id: 0 }
}

fn group(level: u64, color: CrystalColor, active: bool) -> CrystalGroup {
    CrystalGroup {
        level,
        ident: ident(color),
        init_active: active,
        active,
        collider_enabled: active,
        occluder_enabled: active,
    }
}

#[test]
fn cell_values_map_to_colors_and_activity() {
    assert!(is_crystal_active(3));
    assert!(!is_crystal_active(4));
    assert!(is_crystal_active(9));
    assert!(!is_crystal_active(10));
    assert_eq!(crystal_color(3), CrystalColor::Pink);
    assert_eq!(crystal_color(4), CrystalColor::Pink);
    assert_eq!(crystal_color(5), CrystalColor::Red);
    assert_eq!(crystal_color(6), CrystalColor::Red);
    assert_eq!(crystal_color(7), CrystalColor::White);
    assert_eq!(crystal_color(8), CrystalColor::White);
    assert_eq!(crystal_color(9), CrystalColor::Blue);
    assert_eq!(crystal_color(10), CrystalColor::Blue);
}

#[test]
fn toggle_moves_texture_by_fixed_offset() {
    let mut c = crystal_from_cell(0, 3, 0, 12);
    assert!(c.active);
    toggle_crystal(&mut c);
    assert!(!c.active);
    assert_eq!(c.texture_index, 17);
    toggle_crystal(&mut c);
    assert!(c.active);
    assert_eq!(c.texture_index, 12);
}

#[test]
fn toggle_group_follows_collision_and_occlusion() {
    let mut g = group(0, CrystalColor::Blue, true);
    toggle_crystal_group(&mut g);
    assert!(!g.active);
    assert!(!g.collider_enabled);
    assert!(!g.occluder_enabled);
    toggle_crystal_group(&mut g);
    assert!(g.active);
    assert!(g.collider_enabled);
}

fn sample_world() -> (Vec<Crystal>, Vec<CrystalGroup>) {
    let crystals = vec![
        crystal_from_cell(1, 3, 0, 10),  // level 1, pink, active
        crystal_from_cell(1, 6, 0, 25),  // level 1, red, inactive
        crystal_from_cell(2, 3, 0, 10),  // level 2, pink, active
        crystal_from_cell(1, 4, 0, 15),  // level 1, pink, inactive
    ];
    let groups = vec![group(1, CrystalColor::Pink, true), group(2, CrystalColor::Red, false)];
    (crystals, groups)
}

fn built_cache(crystals: &Vec<Crystal>, groups: &Vec<CrystalGroup>) -> CrystalCache {
    let mut cache = CrystalCache::new();
    init_crystal_cache_tiles(&mut cache, 1, crystals);
    init_crystal_cache_groups(&mut cache, 1, groups);
    cache
}

#[test]
fn toggle_event_flips_exactly_the_matching_crystals() {
    let (mut crystals, mut groups) = sample_world();
    let cache = built_cache(&crystals, &groups);
    on_crystal_changed(
        &cache,
        1,
        CrystalToggleEvent { ident: ident(CrystalColor::Pink) },
        &mut crystals,
        &mut groups,
    );
    // Both pink crystals of level 1 flipped, whatever their direction.
    assert!(!crystals[0].active);
    assert!(crystals[3].active);
    // The red crystal of level 1 and the pink crystal of level 2 are
    // untouched.
    assert!(!crystals[1].active);
    assert!(crystals[2].active);
    // The pink group of level 1 flipped, the level 2 group is untouched.
    assert!(!groups[0].active);
    assert!(!groups[1].active);
}

#[test]
fn toggle_event_without_bucket_is_a_no_op() {
    let (mut crystals, mut groups) = sample_world();
    let cache = built_cache(&crystals, &groups);
    let before = crystals.clone();
    on_crystal_changed(
        &cache,
        1,
        CrystalToggleEvent { ident: CrystalIdent { color: CrystalColor::White, id: 3 } },
        &mut crystals,
        &mut groups,
    );
    assert_eq!(crystals, before);
}

#[test]
fn reset_restores_initial_state_after_any_number_of_toggles() {
    let (mut crystals, mut groups) = sample_world();
    let cache = built_cache(&crystals, &groups);
    let ev = CrystalToggleEvent { ident: ident(CrystalColor::Pink) };
    // Leave the crystals opposite to their spawn state.
    on_crystal_changed(&cache, 1, ev, &mut crystals, &mut groups);
    on_crystal_changed(&cache, 1, ev, &mut crystals, &mut groups);
    on_crystal_changed(&cache, 1, ev, &mut crystals, &mut groups);
    reset_crystals(&mut crystals, &mut groups);
    for c in &crystals {
        assert_eq!(c.active, c.init_active);
    }
    for g in &groups {
        assert_eq!(g.active, g.init_active);
        assert_eq!(g.collider_enabled, g.active);
    }
    // The texture index also returns to its spawn value.
    assert_eq!(crystals[0].texture_index, 10);
    assert_eq!(crystals[3].texture_index, 15);
}

#[test]
fn invalidate_empties_only_the_levels_buckets() {
    let (crystals, groups) = sample_world();
    let mut cache = built_cache(&crystals, &groups);
    // Also build the second level's buckets.
    init_crystal_cache_tiles(&mut cache, 2, &crystals);
    init_crystal_cache_groups(&mut cache, 2, &groups);

    invalidate_crystal_cache(&mut cache, 1);
    for e in &cache.entries {
        if e.level == 1 {
            assert!(e.tiles.is_empty());
            assert!(e.groups.is_empty());
        } else {
            assert!(!e.tiles.is_empty() || !e.groups.is_empty());
        }
    }
}

#[test]
fn rebuilding_after_invalidate_dispatches_again() {
    let (mut crystals, mut groups) = sample_world();
    let mut cache = built_cache(&crystals, &groups);
    invalidate_crystal_cache(&mut cache, 1);
    init_crystal_cache_tiles(&mut cache, 1, &crystals);
    init_crystal_cache_groups(&mut cache, 1, &groups);
    on_crystal_changed(
        &cache,
        1,
        CrystalToggleEvent { ident: ident(CrystalColor::Red) },
        &mut crystals,
        &mut groups,
    );
    assert!(crystals[1].active);
    assert!(crystals[0].active);
}
