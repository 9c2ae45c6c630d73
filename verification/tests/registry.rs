use kashimo::registry::IDLE_MILLIS;
use kashimo::BlockPos;
use kashimo::BlockState;
use kashimo::BlockUpdate;
use kashimo::Crop;
use kashimo::CropRegistry;
use kashimo::CropSpecies;
use kashimo::FacingCardinal;
use kashimo::HarvestRegistry;
use kashimo::UpdateOutcome;

fn unripe(pos: BlockPos, species: CropSpecies) -> Crop {
    Crop { pos, species, harvest_position: None, identifier: 0 }
}

fn ripe(pos: BlockPos, species: CropSpecies) -> Crop {
    Crop { pos, species, harvest_position: Some(pos), identifier: 0 }
}

fn wheat_update(pos: BlockPos, age: u8) -> BlockUpdate {
    BlockUpdate { pos, block_state: BlockState { wheat_age: Some(age), ..BlockState::new() } }
}

fn cane_update(pos: BlockPos) -> BlockUpdate {
    BlockUpdate { pos, block_state: BlockState { sugar_cane_age: Some(0), ..BlockState::new() } }
}

fn cane() -> Option<BlockState> {
    Some(BlockState { sugar_cane_age: Some(0), ..BlockState::new() })
}

fn air_update(pos: BlockPos) -> BlockUpdate {
    BlockUpdate { pos, block_state: BlockState::empty() }
}

#[test]
fn new_registry_is_empty() {
    let registry = CropRegistry::new();
    assert_eq!(registry.size(), 0);
    assert_eq!(registry.harvest_size(), 0);
    assert_eq!(registry.crop_at(BlockPos::new(0, 0, 0)), None);
    let excludes = HarvestRegistry::new();
    assert_eq!(registry.nearest_harvest(BlockPos::new(0, 0, 0), i32::MAX, &excludes), None);
}

#[test]
fn first_sight_of_a_position_hands_out_the_next_identifier() {
    let mut registry = CropRegistry::new();
    let a = BlockPos::new(1, 64, 1);
    let b = BlockPos::new(2, 64, 1);
    let c = BlockPos::new(3, 64, 1);
    registry.handle_crop_update(unripe(a, CropSpecies::Wheat));
    registry.handle_crop_update(ripe(b, CropSpecies::Carrot));
    registry.handle_crop_update(unripe(c, CropSpecies::Potato));
    assert_eq!(registry.crop_at(a).unwrap().identifier, 0);
    assert_eq!(registry.crop_at(b).unwrap().identifier, 1);
    assert_eq!(registry.crop_at(c).unwrap().identifier, 2);
    assert_eq!(registry.size(), 3);
    assert_eq!(registry.harvest_size(), 1);
}

#[test]
fn identifier_of_the_update_is_not_read() {
    let mut registry = CropRegistry::new();
    let pos = BlockPos::new(1, 64, 1);
    registry.handle_crop_update(Crop { identifier: 77, ..ripe(pos, CropSpecies::Wheat) });
    assert_eq!(registry.crop_at(pos), Some(Crop { identifier: 0, ..ripe(pos, CropSpecies::Wheat) }));
}

#[test]
fn wheat_keeps_its_identifier_when_it_ripens() {
    let mut registry = CropRegistry::new();
    let other = BlockPos::new(9, 64, 9);
    let pos = BlockPos::new(3, 64, -8);
    registry.handle_block_update(&wheat_update(other, 2), None, None);
    for age in 0..7u8 {
        let outcome = registry.handle_block_update(&wheat_update(pos, age), None, None);
        assert_eq!(outcome, UpdateOutcome::Filed);
        let crop = registry.crop_at(pos).unwrap();
        assert_eq!(crop.identifier, 1);
        assert_eq!(crop.harvest_position, None);
        assert_eq!(registry.harvest_size(), 0);
    }
    registry.handle_block_update(&wheat_update(pos, 7), None, None);
    let crop = registry.crop_at(pos).unwrap();
    assert_eq!(crop.identifier, 1);
    assert_eq!(crop.harvest_position, Some(pos));
    assert_eq!(crop.species, CropSpecies::Wheat);
    assert_eq!(registry.harvest_size(), 1);
    assert_eq!(registry.size(), 2);
    registry.handle_block_update(&wheat_update(pos, 3), None, None);
    let crop = registry.crop_at(pos).unwrap();
    assert_eq!(crop.identifier, 1);
    assert_eq!(crop.harvest_position, None);
    assert_eq!(registry.harvest_size(), 0);
}

#[test]
fn ready_count_moves_only_when_ripeness_changes() {
    let mut registry = CropRegistry::new();
    let pos = BlockPos::new(0, 64, 0);
    registry.handle_crop_update(unripe(pos, CropSpecies::Wheat));
    assert_eq!(registry.harvest_size(), 0);
    registry.handle_crop_update(unripe(pos, CropSpecies::Wheat));
    assert_eq!(registry.harvest_size(), 0);
    registry.handle_crop_update(ripe(pos, CropSpecies::Wheat));
    assert_eq!(registry.harvest_size(), 1);
    registry.handle_crop_update(ripe(pos, CropSpecies::Wheat));
    assert_eq!(registry.harvest_size(), 1);
    registry.handle_crop_update(unripe(pos, CropSpecies::Wheat));
    assert_eq!(registry.harvest_size(), 0);
    assert_eq!(registry.size(), 1);
}

#[test]
fn first_sight_of_a_ripe_crop_counts_it() {
    let mut registry = CropRegistry::new();
    registry.handle_crop_update(ripe(BlockPos::new(0, 64, 0), CropSpecies::Beetroot));
    registry.handle_crop_update(ripe(BlockPos::new(1, 64, 0), CropSpecies::Beetroot));
    registry.handle_crop_update(unripe(BlockPos::new(2, 64, 0), CropSpecies::Beetroot));
    assert_eq!(registry.harvest_size(), 2);
    assert_eq!(registry.size(), 3);
}

#[test]
fn update_replaces_the_crop_at_its_position() {
    let mut registry = CropRegistry::new();
    let pos = BlockPos::new(5, 64, 5);
    registry.handle_crop_update(unripe(pos, CropSpecies::PumpkinStem));
    let fruit = BlockPos::new(5, 64, 6);
    registry.handle_crop_update(Crop {
        pos,
        species: CropSpecies::MelonStem,
        harvest_position: Some(fruit),
        identifier: 0,
    });
    assert_eq!(
        registry.crop_at(pos),
        Some(Crop {
            pos,
            species: CropSpecies::MelonStem,
            harvest_position: Some(fruit),
            identifier: 0,
        })
    );
    assert_eq!(registry.crop_at(fruit), None);
    assert_eq!(registry.size(), 1);
}

#[test]
fn removal_forgets_the_crop() {
    let mut registry = CropRegistry::new();
    let a = BlockPos::new(1, 64, 1);
    let b = BlockPos::new(2, 64, 1);
    registry.handle_crop_update(ripe(a, CropSpecies::Wheat));
    registry.handle_crop_update(unripe(b, CropSpecies::Wheat));
    registry.handle_block_removal(a);
    assert_eq!(registry.crop_at(a), None);
    assert_eq!(registry.size(), 1);
    assert_eq!(registry.harvest_size(), 0);
    registry.handle_block_removal(b);
    assert_eq!(registry.crop_at(b), None);
    assert_eq!(registry.size(), 0);
    assert_eq!(registry.harvest_size(), 0);
}

#[test]
fn removal_of_an_unripe_crop_keeps_the_ready_count() {
    let mut registry = CropRegistry::new();
    let a = BlockPos::new(1, 64, 1);
    let b = BlockPos::new(2, 64, 1);
    registry.handle_crop_update(ripe(a, CropSpecies::Wheat));
    registry.handle_crop_update(unripe(b, CropSpecies::Wheat));
    registry.handle_block_removal(b);
    assert_eq!(registry.size(), 1);
    assert_eq!(registry.harvest_size(), 1);
    assert_eq!(registry.crop_at(a).unwrap().identifier, 0);
}

#[test]
fn removal_of_an_unknown_position_changes_nothing() {
    let mut registry = CropRegistry::new();
    let a = BlockPos::new(1, 64, 1);
    registry.handle_crop_update(ripe(a, CropSpecies::Wheat));
    registry.handle_block_removal(BlockPos::new(1, 66, 1));
    registry.handle_block_removal(BlockPos::new(1, 63, 1));
    registry.handle_block_removal(BlockPos::new(0, i32::MIN, 0));
    assert_eq!(registry.crop_at(a), Some(ripe(a, CropSpecies::Wheat)));
    assert_eq!(registry.size(), 1);
    assert_eq!(registry.harvest_size(), 1);
}

#[test]
fn removal_above_a_crop_that_is_not_cane_changes_nothing() {
    let mut registry = CropRegistry::new();
    let a = BlockPos::new(1, 64, 1);
    registry.handle_crop_update(ripe(a, CropSpecies::Wheat));
    registry.handle_block_removal(BlockPos::new(1, 65, 1));
    assert_eq!(registry.crop_at(a), Some(ripe(a, CropSpecies::Wheat)));
    assert_eq!(registry.harvest_size(), 1);
}

#[test]
fn identifier_is_not_handed_out_twice() {
    let mut registry = CropRegistry::new();
    let a = BlockPos::new(1, 64, 1);
    let b = BlockPos::new(2, 64, 1);
    registry.handle_crop_update(ripe(a, CropSpecies::Wheat));
    registry.handle_crop_update(ripe(b, CropSpecies::Wheat));
    registry.handle_block_removal(a);
    registry.handle_crop_update(ripe(a, CropSpecies::Wheat));
    assert_eq!(registry.crop_at(a).unwrap().identifier, 2);
    assert_eq!(registry.crop_at(b).unwrap().identifier, 1);
    assert_eq!(registry.size(), 2);
    assert_eq!(registry.harvest_size(), 2);
}

#[test]
fn cut_cane_stays_until_its_base_goes() {
    let mut registry = CropRegistry::new();
    let top = BlockPos::new(0, 12, 0);
    let base = BlockPos::new(0, 11, 0);
    let outcome = registry.handle_block_update(&cane_update(top), cane(), cane());
    assert_eq!(outcome, UpdateOutcome::Filed);
    assert_eq!(registry.harvest_size(), 1);
    assert_eq!(
        registry.crop_at(base),
        Some(Crop {
            pos: base,
            species: CropSpecies::SugarCane,
            harvest_position: Some(top),
            identifier: 0,
        })
    );
    registry.handle_block_removal(top);
    assert_eq!(
        registry.crop_at(base),
        Some(Crop { pos: base, species: CropSpecies::SugarCane, harvest_position: None, identifier: 0 })
    );
    assert_eq!(registry.size(), 1);
    assert_eq!(registry.harvest_size(), 0);
    registry.handle_block_removal(base);
    assert_eq!(registry.crop_at(base), None);
    assert_eq!(registry.size(), 0);
    assert_eq!(registry.harvest_size(), 0);
}

#[test]
fn cane_that_is_not_ripe_loses_nothing_with_its_top() {
    let mut registry = CropRegistry::new();
    let base = BlockPos::new(0, 9, 0);
    let other = BlockPos::new(4, 9, 4);
    registry.handle_block_update(&cane_update(BlockPos::new(0, 10, 0)), Some(BlockState::new()), None);
    registry.handle_crop_update(ripe(other, CropSpecies::Wheat));
    assert_eq!(registry.crop_at(base).unwrap().harvest_position, None);
    assert_eq!(registry.harvest_size(), 1);
    registry.handle_block_removal(BlockPos::new(0, 10, 0));
    assert_eq!(registry.crop_at(base), Some(unripe(base, CropSpecies::SugarCane)));
    assert_eq!(registry.harvest_size(), 1);
    assert_eq!(registry.size(), 2);
}

#[test]
fn cane_column_keeps_one_identifier_while_it_regrows() {
    let mut registry = CropRegistry::new();
    let top = BlockPos::new(0, 12, 0);
    let base = BlockPos::new(0, 11, 0);
    registry.handle_block_update(&cane_update(top), cane(), cane());
    registry.handle_block_update(&air_update(top), None, None);
    assert_eq!(registry.crop_at(base).unwrap().harvest_position, None);
    registry.handle_block_update(&cane_update(top), cane(), cane());
    let crop = registry.crop_at(base).unwrap();
    assert_eq!(crop.identifier, 0);
    assert_eq!(crop.harvest_position, Some(top));
    assert_eq!(registry.harvest_size(), 1);
    assert_eq!(registry.size(), 1);
}

#[test]
fn cane_updates_without_support_are_ignored() {
    let mut registry = CropRegistry::new();
    let first = cane_update(BlockPos::new(0, 10, 0));
    assert_eq!(registry.handle_block_update(&first, None, None), UpdateOutcome::Ignored);
    assert_eq!(registry.size(), 0);
    let second = cane_update(BlockPos::new(0, 11, 0));
    assert_eq!(
        registry.handle_block_update(&second, cane(), Some(BlockState::new())),
        UpdateOutcome::Ignored
    );
    assert_eq!(registry.size(), 0);
}

#[test]
fn block_update_is_routed_by_its_state() {
    let mut registry = CropRegistry::new();
    let pos = BlockPos::new(3, 64, 3);
    assert_eq!(registry.handle_block_update(&wheat_update(pos, 7), None, None), UpdateOutcome::Filed);
    assert_eq!(registry.size(), 1);
    let stone = BlockUpdate { pos: BlockPos::new(4, 64, 3), block_state: BlockState::new() };
    assert_eq!(registry.handle_block_update(&stone, None, None), UpdateOutcome::Ignored);
    assert_eq!(registry.size(), 1);
    let far = wheat_update(BlockPos::new(i32::MAX, 64, 3), 7);
    assert_eq!(registry.handle_block_update(&far, None, None), UpdateOutcome::Filed);
    assert_eq!(registry.size(), 2);
    assert_eq!(registry.crop_at(far.pos).unwrap().identifier, 1);
    assert_eq!(registry.handle_block_update(&air_update(pos), None, None), UpdateOutcome::Removal);
    assert_eq!(registry.size(), 1);
    assert_eq!(registry.harvest_size(), 1);
    assert_eq!(
        registry.handle_block_update(&air_update(BlockPos::new(8, 8, 8)), None, None),
        UpdateOutcome::Removal
    );
}

#[test]
fn air_with_a_growth_property_is_still_a_removal() {
    let mut registry = CropRegistry::new();
    let pos = BlockPos::new(3, 64, 3);
    registry.handle_block_update(&wheat_update(pos, 7), None, None);
    let odd = BlockUpdate {
        pos,
        block_state: BlockState { wheat_age: Some(7), ..BlockState::empty() },
    };
    assert_eq!(registry.handle_block_update(&odd, None, None), UpdateOutcome::Removal);
    assert_eq!(registry.crop_at(pos), None);
}

#[test]
fn idle_pause_lasts_while_nothing_is_ripe() {
    let mut registry = CropRegistry::new();
    assert_eq!(IDLE_MILLIS, 1000);
    assert_eq!(registry.idle_pause(), Some(1000));
    let pos = BlockPos::new(3, 64, 3);
    registry.handle_crop_update(unripe(pos, CropSpecies::Wheat));
    assert_eq!(registry.idle_pause(), Some(1000));
    registry.handle_crop_update(ripe(pos, CropSpecies::Wheat));
    assert_eq!(registry.idle_pause(), None);
    registry.handle_block_removal(pos);
    assert_eq!(registry.idle_pause(), Some(1000));
}

#[test]
fn nearest_of_two_ripe_crops_is_the_closer_one() {
    let mut registry = CropRegistry::new();
    let origin = BlockPos::new(10, 64, 10);
    let near = BlockPos::new(11, 64, 12);
    let far = BlockPos::new(6, 65, 8);
    registry.handle_crop_update(ripe(far, CropSpecies::Wheat));
    registry.handle_crop_update(ripe(near, CropSpecies::Wheat));
    let mut excludes = HarvestRegistry::new();
    assert_eq!(registry.nearest_harvest(origin, 10, &excludes), Some(near));
    excludes.block_broken(near);
    assert_eq!(registry.nearest_harvest(origin, 10, &excludes), Some(far));
    excludes.block_broken(far);
    assert_eq!(registry.nearest_harvest(origin, 10, &excludes), None);
    excludes.block_settled(near);
    assert_eq!(registry.nearest_harvest(origin, 10, &excludes), Some(near));
}

#[test]
fn nearest_reaches_as_far_as_the_radius() {
    let mut registry = CropRegistry::new();
    let origin = BlockPos::new(0, 0, 0);
    let pos = BlockPos::new(2, -3, 2);
    registry.handle_crop_update(ripe(pos, CropSpecies::Wheat));
    let excludes = HarvestRegistry::new();
    assert_eq!(registry.nearest_harvest(origin, 7, &excludes), Some(pos));
    assert_eq!(registry.nearest_harvest(origin, 6, &excludes), None);
    assert_eq!(registry.nearest_harvest(origin, 0, &excludes), None);
    assert_eq!(registry.nearest_harvest(origin, -1, &excludes), None);
    assert_eq!(registry.nearest_harvest(pos, 0, &excludes), Some(pos));
    assert_eq!(registry.nearest_harvest(pos, -1, &excludes), None);
    assert_eq!(registry.nearest_harvest(origin, i32::MAX, &excludes), Some(pos));
}

#[test]
fn nearest_measures_manhattan_distance() {
    let mut registry = CropRegistry::new();
    let origin = BlockPos::new(0, 0, 0);
    let straight = BlockPos::new(0, 0, 5);
    let diagonal = BlockPos::new(2, 2, 2);
    registry.handle_crop_update(ripe(straight, CropSpecies::Wheat));
    registry.handle_crop_update(ripe(diagonal, CropSpecies::Wheat));
    let excludes = HarvestRegistry::new();
    assert_eq!(registry.nearest_harvest(origin, 100, &excludes), Some(straight));
}

#[test]
fn nearest_passes_over_crops_that_are_not_ripe() {
    let mut registry = CropRegistry::new();
    let origin = BlockPos::new(0, 64, 0);
    let near = BlockPos::new(1, 64, 0);
    let far = BlockPos::new(5, 64, 0);
    registry.handle_crop_update(unripe(near, CropSpecies::Wheat));
    registry.handle_crop_update(ripe(far, CropSpecies::Wheat));
    let excludes = HarvestRegistry::new();
    assert_eq!(registry.nearest_harvest(origin, 10, &excludes), Some(far));
    registry.handle_crop_update(unripe(far, CropSpecies::Wheat));
    assert_eq!(registry.nearest_harvest(origin, 10, &excludes), None);
    registry.handle_crop_update(ripe(near, CropSpecies::Wheat));
    assert_eq!(registry.nearest_harvest(origin, 10, &excludes), Some(near));
}

#[test]
fn nearest_forgets_a_removed_crop() {
    let mut registry = CropRegistry::new();
    let origin = BlockPos::new(0, 64, 0);
    let near = BlockPos::new(1, 64, 0);
    let far = BlockPos::new(5, 64, 0);
    registry.handle_crop_update(ripe(near, CropSpecies::Wheat));
    registry.handle_crop_update(ripe(far, CropSpecies::Wheat));
    let excludes = HarvestRegistry::new();
    assert_eq!(registry.nearest_harvest(origin, 10, &excludes), Some(near));
    registry.handle_block_removal(near);
    assert_eq!(registry.nearest_harvest(origin, 10, &excludes), Some(far));
    registry.handle_block_removal(far);
    assert_eq!(registry.nearest_harvest(origin, 10, &excludes), None);
}

#[test]
fn nearest_returns_the_harvest_position_and_measures_to_the_crop() {
    let mut registry = CropRegistry::new();
    let origin = BlockPos::new(0, 64, 0);
    let stem = BlockPos::new(0, 64, 4);
    let update = BlockUpdate {
        pos: stem,
        block_state: BlockState {
            pumpkin_stem_age: Some(7),
            facing: Some(FacingCardinal::South),
            ..BlockState::new()
        },
    };
    registry.handle_block_update(&update, None, None);
    let mut excludes = HarvestRegistry::new();
    assert_eq!(registry.nearest_harvest(origin, 4, &excludes), Some(BlockPos::new(0, 64, 5)));
    assert_eq!(registry.nearest_harvest(origin, 3, &excludes), None);
    excludes.block_broken(stem);
    assert_eq!(registry.nearest_harvest(origin, 4, &excludes), Some(BlockPos::new(0, 64, 5)));
    excludes.block_broken(BlockPos::new(0, 64, 5));
    assert_eq!(registry.nearest_harvest(origin, 4, &excludes), None);
}

#[test]
fn registry_has_identifiers_left_when_new() {
    let mut registry = CropRegistry::new();
    assert!(registry.identifiers_left());
    registry.handle_crop_update(ripe(BlockPos::new(0, 0, 0), CropSpecies::Wheat));
    assert!(registry.identifiers_left());
}

#[test]
fn registry_tracks_a_row_of_any_length() {
    let mut registry = CropRegistry::new();
    let excludes = HarvestRegistry::new();
    for z in 0..100 {
        let pos = BlockPos::new(7, 64, z);
        registry.handle_crop_update(ripe(pos, CropSpecies::Wheat));
        assert_eq!(registry.crop_at(pos), Some(Crop { identifier: z as u32, ..ripe(pos, CropSpecies::Wheat) }));
    }
    assert_eq!(registry.size(), 100);
    assert_eq!(registry.harvest_size(), 100);
    for z in 0..100 {
        let pos = BlockPos::new(7, 64, z);
        assert_eq!(registry.nearest_harvest(pos, 0, &excludes), Some(pos));
        assert_eq!(registry.nearest_harvest(BlockPos::new(9, 65, z), 3, &excludes), Some(pos));
    }
    for z in (0..100).step_by(2) {
        registry.handle_block_removal(BlockPos::new(7, 64, z));
    }
    assert_eq!(registry.size(), 50);
    assert_eq!(registry.harvest_size(), 50);
    for z in 0..100 {
        let pos = BlockPos::new(7, 64, z);
        let expected = if z % 2 == 1 { Some(pos) } else { None };
        assert_eq!(registry.nearest_harvest(pos, 0, &excludes), expected);
        assert_eq!(registry.crop_at(pos).is_some(), z % 2 == 1);
    }
    assert_eq!(registry.nearest_harvest(BlockPos::new(7, 64, 0), 1, &excludes), Some(BlockPos::new(7, 64, 1)));
    registry.handle_crop_update(ripe(BlockPos::new(7, 64, 0), CropSpecies::Wheat));
    assert_eq!(registry.crop_at(BlockPos::new(7, 64, 0)).unwrap().identifier, 100);
    assert_eq!(registry.nearest_harvest(BlockPos::new(7, 64, 0), 1, &excludes), Some(BlockPos::new(7, 64, 0)));
}

#[test]
fn registry_tracks_a_flat_field() {
    let mut registry = CropRegistry::new();
    let excludes = HarvestRegistry::new();
    for x in 0..20 {
        for z in 0..20 {
            let pos = BlockPos::new(x, 64, z);
            let crop = if (x + z) % 3 == 0 { ripe(pos, CropSpecies::Carrot) } else { unripe(pos, CropSpecies::Carrot) };
            registry.handle_crop_update(crop);
        }
    }
    assert_eq!(registry.size(), 400);
    assert_eq!(registry.harvest_size(), 133);
    for x in 0..20 {
        for z in 0..20 {
            let pos = BlockPos::new(x, 64, z);
            let found = registry.nearest_harvest(pos, 0, &excludes);
            assert_eq!(found, if (x + z) % 3 == 0 { Some(pos) } else { None });
            assert!(registry.nearest_harvest(pos, 2, &excludes).is_some());
        }
    }
    for x in 0..20 {
        for z in 0..20 {
            registry.handle_block_removal(BlockPos::new(x, 64, z));
        }
    }
    assert_eq!(registry.size(), 0);
    assert_eq!(registry.harvest_size(), 0);
    assert_eq!(registry.nearest_harvest(BlockPos::new(3, 64, 3), i32::MAX, &excludes), None);
}

#[test]
fn registry_tracks_cells_at_the_edge_of_the_coordinate_space() {
    let mut registry = CropRegistry::new();
    let excludes = HarvestRegistry::new();
    let limit = 1 << 30;
    let edge = BlockPos::new(i32::MAX, 0, i32::MIN);
    let beyond = BlockPos::new(limit, 0, 0);
    let corner = BlockPos::new(limit - 1, -limit, limit - 1);
    let opposite = BlockPos::new(-limit, limit - 1, -limit);
    registry.handle_crop_update(ripe(edge, CropSpecies::Wheat));
    registry.handle_crop_update(ripe(beyond, CropSpecies::Wheat));
    registry.handle_crop_update(ripe(corner, CropSpecies::Wheat));
    registry.handle_crop_update(ripe(opposite, CropSpecies::Wheat));
    assert_eq!(registry.size(), 4);
    assert_eq!(registry.harvest_size(), 4);
    assert_eq!(registry.crop_at(edge).unwrap().identifier, 0);
    assert_eq!(registry.crop_at(beyond).unwrap().identifier, 1);
    let origin = BlockPos::new(limit - 1, 0, 0);
    assert_eq!(registry.nearest_harvest(origin, 1, &excludes), Some(beyond));
    assert_eq!(registry.nearest_harvest(origin, 0, &excludes), None);
    assert_eq!(registry.nearest_harvest(corner, i32::MAX - 1, &excludes), Some(corner));
    assert_eq!(registry.nearest_harvest(opposite, 0, &excludes), Some(opposite));
    registry.handle_block_removal(beyond);
    registry.handle_block_removal(corner);
    assert_eq!(registry.nearest_harvest(corner, i32::MAX - 1, &excludes), None);
    let far = registry.nearest_harvest(corner, i32::MAX, &excludes);
    assert!(far == Some(edge) || far == Some(opposite));
    registry.handle_block_removal(opposite);
    assert_eq!(registry.nearest_harvest(corner, i32::MAX, &excludes), Some(edge));
    registry.handle_block_removal(edge);
    assert_eq!(registry.nearest_harvest(corner, i32::MAX, &excludes), None);
    assert_eq!(registry.size(), 0);
}

#[test]
fn nearest_weighs_the_index_against_the_list() {
    let mut registry = CropRegistry::new();
    let mut excludes = HarvestRegistry::new();
    for z in 0..40 {
        registry.handle_crop_update(ripe(BlockPos::new(0, 64, z * 10), CropSpecies::Wheat));
    }
    for z in 0..40 {
        let origin = BlockPos::new(2, 64, z * 10 + 1);
        assert_eq!(registry.nearest_harvest(origin, 500, &excludes), Some(BlockPos::new(0, 64, z * 10)));
    }
    excludes.block_broken(BlockPos::new(0, 64, 200));
    assert_eq!(
        registry.nearest_harvest(BlockPos::new(0, 64, 201), 500, &excludes),
        Some(BlockPos::new(0, 64, 210))
    );
    excludes.block_broken(BlockPos::new(0, 64, 210));
    assert_eq!(
        registry.nearest_harvest(BlockPos::new(0, 64, 201), 500, &excludes),
        Some(BlockPos::new(0, 64, 190))
    );
    assert_eq!(registry.nearest_harvest(BlockPos::new(0, 64, 201), 10, &excludes), None);
}

fn manhattan(a: BlockPos, b: BlockPos) -> i64 {
    (a.x as i64 - b.x as i64).abs() + (a.y as i64 - b.y as i64).abs() + (a.z as i64 - b.z as i64).abs()
}

fn scan_nearest(
    model: &[Crop],
    origin: BlockPos,
    radius: i32,
    excludes: &HarvestRegistry,
) -> Option<i64> {
    model
        .iter()
        .filter(|crop| match crop.harvest_position {
            Some(target) => !excludes.contains(target),
            None => false,
        })
        .map(|crop| manhattan(origin, crop.pos))
        .filter(|distance| *distance <= radius as i64)
        .min()
}

fn check_against_scan(registry: &CropRegistry, model: &[Crop], excludes: &HarvestRegistry) {
    assert_eq!(registry.size(), model.len());
    let ready = model.iter().filter(|crop| crop.harvest_position.is_some()).count();
    assert_eq!(registry.harvest_size(), ready);
    for crop in model {
        assert_eq!(registry.crop_at(crop.pos), Some(*crop));
    }
    for i in 0..model.len() {
        for j in 0..i {
            assert!(model[i].pos != model[j].pos);
            assert!(model[i].identifier != model[j].identifier);
        }
    }
    let origins = [BlockPos::new(0, 0, 0), BlockPos::new(3, 1, 2), BlockPos::new(-4, 2, 7)];
    for origin in origins {
        for radius in [0, 1, 2, 3, 5, 8, 40] {
            let expected = scan_nearest(model, origin, radius, excludes);
            let found = registry.nearest_harvest(origin, radius, excludes);
            match (expected, found) {
                (None, None) => {}
                (Some(distance), Some(target)) => {
                    assert!(!excludes.contains(target));
                    let crop = model.iter().find(|crop| crop.harvest_position == Some(target)).unwrap();
                    assert_eq!(manhattan(origin, crop.pos), distance);
                }
                _ => panic!("the search and the scan disagree"),
            }
        }
    }
}

#[test]
fn registry_agrees_with_a_scan_after_every_operation() {
    let mut registry = CropRegistry::new();
    let mut excludes = HarvestRegistry::new();
    let mut model: Vec<Crop> = Vec::new();
    let mut next_identifier = 0u32;
    let mut seed = 12345u64;
    for step in 0..600 {
        seed = seed.wrapping_mul(6364136223846793005).wrapping_add(1442695040888963407);
        let draw = (seed >> 33) as i32;
        let pos = BlockPos::new(draw % 4, (draw / 4) % 4, (draw / 16) % 4);
        let choice = (draw / 64) % 8;
        if choice < 5 {
            let harvest_position = if choice % 2 == 0 { Some(pos) } else { None };
            let crop = Crop { pos, species: CropSpecies::Wheat, harvest_position, identifier: 0 };
            registry.handle_crop_update(crop);
            match model.iter_mut().find(|known| known.pos == pos) {
                Some(known) => known.harvest_position = harvest_position,
                None => {
                    model.push(Crop { identifier: next_identifier, ..crop });
                    next_identifier += 1;
                }
            }
        } else if choice < 7 {
            registry.handle_block_removal(pos);
            model.retain(|known| known.pos != pos);
        } else if excludes.contains(pos) {
            excludes.block_settled(pos);
        } else {
            excludes.block_broken(pos);
        }
        if step % 7 == 0 || step > 560 {
            check_against_scan(&registry, &model, &excludes);
        }
    }
    check_against_scan(&registry, &model, &excludes);
}

#[test]
fn registry_holds_a_full_cube() {
    let mut registry = CropRegistry::new();
    let excludes = HarvestRegistry::new();
    let mut model: Vec<Crop> = Vec::new();
    for x in 0..4 {
        for y in 0..4 {
            for z in 0..4 {
                let pos = BlockPos::new(x * 3, 60 + y, z * 5);
                let crop = ripe(pos, CropSpecies::Carrot);
                registry.handle_crop_update(crop);
                model.push(Crop { identifier: model.len() as u32, ..crop });
            }
        }
    }
    assert_eq!(registry.size(), 64);
    assert_eq!(registry.harvest_size(), 64);
    for crop in &model {
        assert_eq!(registry.crop_at(crop.pos), Some(*crop));
        assert_eq!(registry.nearest_harvest(crop.pos, 0, &excludes), Some(crop.pos));
    }
    assert_eq!(
        registry.nearest_harvest(BlockPos::new(10, 64, 16), 100, &excludes),
        Some(BlockPos::new(9, 63, 15))
    );
    for crop in &model {
        registry.handle_block_removal(crop.pos);
        assert_eq!(registry.nearest_harvest(crop.pos, 0, &excludes), None);
    }
    assert_eq!(registry.size(), 0);
    assert_eq!(registry.harvest_size(), 0);
    assert_eq!(registry.nearest_harvest(BlockPos::new(0, 60, 0), i32::MAX, &excludes), None);
}

#[test]
fn registry_agrees_with_a_scan_on_a_crowded_field() {
    let mut registry = CropRegistry::new();
    let excludes = HarvestRegistry::new();
    let mut model: Vec<Crop> = Vec::new();
    let mut next_identifier = 0u32;
    let mut seed = 99u64;
    for step in 0..3000 {
        seed = seed.wrapping_mul(6364136223846793005).wrapping_add(1442695040888963407);
        let draw = (seed >> 33) as i32;
        let pos = BlockPos::new(draw % 5 - 2, 60 + (draw / 5) % 3, (draw / 15) % 40 - 20);
        let choice = (draw / 600) % 8;
        if choice < 6 {
            let harvest_position = if choice % 2 == 0 { Some(pos) } else { None };
            let crop = Crop { pos, species: CropSpecies::Potato, harvest_position, identifier: 0 };
            registry.handle_crop_update(crop);
            match model.iter_mut().find(|other| other.pos == pos) {
                Some(known) => known.harvest_position = harvest_position,
                None => {
                    model.push(Crop { identifier: next_identifier, ..crop });
                    next_identifier += 1;
                }
            }
        } else {
            registry.handle_block_removal(pos);
            model.retain(|other| other.pos != pos);
        }
        if step % 97 == 0 {
            check_against_scan(&registry, &model, &excludes);
        }
    }
    check_against_scan(&registry, &model, &excludes);
    assert!(model.iter().filter(|crop| crop.pos.y == 60).count() > 16);
    assert!(model.len() > 100);
}
