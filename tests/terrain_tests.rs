use platformer::components::{BodyKind, Shape};
use platformer::factory::{slab_record, tile_record, winning_zone_record};
use platformer::floor::{add_colliders, max_height, FloorSegment};
use platformer::terrain::{
    add_enemies, create_world, enemy_for_roll, get_next_height, get_random_height_delta,
    height_delta, heights_from_rolls, next_height, should_add_enemy, SAFE_COLUMNS, WORLD_WIDTH,
};

fn assert_valid_profile(h: &[usize]) {
    assert_eq!(h[0], 1);
    for w in h.windows(2) {
        assert!(w[0] >= 1 && w[1] >= 1);
        let d = w[1] as i64 - w[0] as i64;
        assert!((-1..=2).contains(&d), "step {} out of range", d);
    }
}

#[test]
fn height_delta_follows_the_table() {
    assert_eq!(height_delta(0), 0);
    assert_eq!(height_delta(75), 0);
    assert_eq!(height_delta(76), -1);
    assert_eq!(height_delta(81), -1);
    assert_eq!(height_delta(82), 1);
    assert_eq!(height_delta(95), 1);
    assert_eq!(height_delta(96), 2);
    assert_eq!(height_delta(99), 2);
}

#[test]
fn next_height_never_goes_below_one() {
    assert_eq!(next_height(1, -1), 1);
    assert_eq!(next_height(3, -1), 2);
    assert_eq!(next_height(5, 2), 7);
    assert_eq!(next_height(4, 0), 4);
}

#[test]
fn heights_from_rolls_walks_the_table() {
    let rolls = vec![0, 76, 82, 96, 50];
    assert_eq!(heights_from_rolls(&rolls), vec![1, 1, 1, 2, 4]);
    assert_eq!(heights_from_rolls(&vec![]), Vec::<usize>::new());
}

#[test]
fn random_steps_stay_in_the_table() {
    for _ in 0..500 {
        let d = get_random_height_delta();
        assert!((-1..=2).contains(&d));
        let h = get_next_height(1);
        assert!((1..=3).contains(&h));
    }
}

#[test]
fn generated_profiles_are_valid() {
    for _ in 0..50 {
        let h = create_world(WORLD_WIDTH);
        assert_eq!(h.len(), WORLD_WIDTH);
        assert_valid_profile(&h);
    }
    assert!(create_world(0).is_empty());
}

#[test]
fn no_monster_on_the_first_columns() {
    for x in 0..SAFE_COLUMNS {
        assert!(!enemy_for_roll(x, 99));
        for _ in 0..50 {
            assert!(!should_add_enemy(x));
        }
    }
    assert!(enemy_for_roll(6, 91));
    assert!(!enemy_for_roll(6, 90));
    for _ in 0..50 {
        let h = create_world(WORLD_WIDTH);
        let cols = add_enemies(&h);
        for w in cols.windows(2) {
            assert!(w[0] < w[1]);
        }
        for c in cols {
            assert!(c >= SAFE_COLUMNS && c < WORLD_WIDTH);
        }
    }
}

#[test]
fn floor_segments_of_a_small_profile() {
    let h = vec![1, 2, 2, 1, 3];
    let segs = add_colliders(&h);
    let s = |level, start, end| FloorSegment { level, start, end };
    assert_eq!(
        segs,
        vec![s(1, 0, 5), s(2, 1, 3), s(2, 4, 5), s(3, 4, 5)]
    );
    assert_eq!(max_height(&h), 3);
}

#[test]
fn floor_of_a_flat_profile_is_one_slab() {
    let h = vec![1; 150];
    assert_eq!(
        add_colliders(&h),
        vec![FloorSegment { level: 1, start: 0, end: 150 }]
    );
}

#[test]
fn floor_segments_cover_exactly_and_do_not_overlap() {
    for _ in 0..30 {
        let h = create_world(WORLD_WIDTH);
        let segs = add_colliders(&h);
        let max = *h.iter().max().unwrap();
        for level in 1..=max + 1 {
            for x in 0..h.len() {
                let n = segs
                    .iter()
                    .filter(|s| s.level == level && s.start <= x && x < s.end)
                    .count();
                assert_eq!(n, if h[x] >= level { 1 } else { 0 });
            }
        }
        for s in &segs {
            assert!(s.start < s.end && s.level >= 1 && s.level <= max);
        }
    }
}

#[test]
fn slab_and_tile_geometry() {
    let slab = slab_record(&FloorSegment { level: 2, start: 1, end: 3 });
    assert_eq!((slab.position.x, slab.position.y), (1500, 2000));
    let body = slab.body.unwrap();
    assert_eq!(body.shape, Shape::Cuboid { half_width: 1000, half_height: 500 });
    assert_eq!(body.kind, BodyKind::Static);
    assert!(!body.contact_events);
    let tile = tile_record(3, 2);
    assert_eq!((tile.position.x, tile.position.y), (3000, 1500));
    assert_eq!(tile.tile.unwrap().height, 2);
    assert_eq!(tile.body, None);
    let zone = winning_zone_record(150);
    assert_eq!((zone.position.x, zone.position.y), (150000, 0));
    assert!(zone.winning_zone.is_some());
    let zone_body = zone.body.unwrap();
    assert_eq!(zone_body.shape, Shape::Cuboid { half_width: 500, half_height: 400000 });
    assert_eq!(zone_body.kind, BodyKind::Static);
}

#[test]
fn draws_are_spread_over_the_roll_range() {
    let placed = (0..400).filter(|_| should_add_enemy(10)).count();
    assert!(placed > 0 && placed < 400);
    let jumps = (0..500).filter(|_| platformer::monster_ai::should_jump()).count();
    assert!(jumps > 0 && jumps < 500);
    let flat = (0..400).filter(|_| get_random_height_delta() == 0).count();
    assert!(flat > 0 && flat < 400);
}
