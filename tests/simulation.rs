use falling_sand::pixel::PixelType;
use falling_sand::pixel_grid::{Chunk, ChunkGrid, ChunkPosition, GridMovement, GridQuery};
use falling_sand::{CHUNK_HEIGHT, CHUNK_WIDTH};
use macroquad::rand::RandGenerator;

fn seeded(seed: u64) -> RandGenerator {
    let rng = RandGenerator::new();
    rng.srand(seed);
    rng
}

fn grid(seed: u64) -> ChunkGrid {
    ChunkGrid::new(seed, seeded(seed))
}

fn cell(grid: &ChunkGrid, world: (i32, i32)) -> Option<PixelType> {
    let p = ChunkPosition::from_world_position(world);
    grid.grid()
        .iter()
        .find(|c| c.key() == p.chunk_key)
        .and_then(|c| c.get(p.chunk_coordinate.0, p.chunk_coordinate.1).copied())
}

fn count(grid: &ChunkGrid, m: PixelType) -> usize {
    grid.grid()
        .iter()
        .map(|c| c.chunk().iter().filter(|p| **p == m).count())
        .sum()
}

#[test]
fn sand_falls_straight_down() {
    let mut g = grid(1);
    g.set_pixel((0, 0), PixelType::Sand);
    g.update();
    assert_eq!(cell(&g, (0, 1)), Some(PixelType::Sand));
    assert_eq!(cell(&g, (0, 0)), Some(PixelType::Air));
    assert_eq!(g.get_total_pixels(), 1);
}

#[test]
fn blocked_sand_slides_to_exactly_one_diagonal() {
    for seed in 0..20u64 {
        let mut g = grid(seed);
        g.set_pixel((5, 5), PixelType::Sand);
        g.set_pixel((5, 6), PixelType::Stone);
        g.update();
        let left = cell(&g, (4, 6)) == Some(PixelType::Sand);
        let right = cell(&g, (6, 6)) == Some(PixelType::Sand);
        assert!(left != right, "seed {seed}: left {left}, right {right}");
        assert_eq!(cell(&g, (5, 5)), Some(PixelType::Air));
        assert_eq!(cell(&g, (5, 6)), Some(PixelType::Stone));
    }
}

#[test]
fn both_diagonals_are_taken_over_many_seeds() {
    let mut seen_left = false;
    let mut seen_right = false;
    for seed in 0..64u64 {
        let mut g = grid(seed);
        g.set_pixel((5, 5), PixelType::Sand);
        g.set_pixel((5, 6), PixelType::Stone);
        g.update();
        seen_left |= cell(&g, (4, 6)) == Some(PixelType::Sand);
        seen_right |= cell(&g, (6, 6)) == Some(PixelType::Sand);
    }
    assert!(seen_left && seen_right);
}

#[test]
fn movement_past_the_world_edge_is_dropped() {
    let corner = (2 * CHUNK_WIDTH - 1, 2 * CHUNK_HEIGHT - 1);
    for seed in 0..10u64 {
        let mut g = grid(seed);
        g.set_pixel(corner, PixelType::Sand);
        g.update();
        assert_eq!(cell(&g, corner), Some(PixelType::Sand));
        assert_eq!(g.get_total_pixels(), 1);
    }
}

#[test]
fn two_sand_cells_compete_for_one_free_cell() {
    for seed in 0..20u64 {
        let mut g = grid(seed);
        for x in [0, 1, 3, 4] {
            g.set_pixel((x, 1), PixelType::Stone);
        }
        g.set_pixel((1, 0), PixelType::Sand);
        g.set_pixel((3, 0), PixelType::Sand);
        g.update();
        assert_eq!(cell(&g, (2, 1)), Some(PixelType::Sand));
        let stayed_left = cell(&g, (1, 0)) == Some(PixelType::Sand);
        let stayed_right = cell(&g, (3, 0)) == Some(PixelType::Sand);
        assert!(stayed_left != stayed_right, "seed {seed}");
        assert_eq!(count(&g, PixelType::Sand), 2);
    }
}

#[test]
fn sand_crosses_into_the_chunk_below() {
    let mut g = grid(3);
    g.set_pixel((5, CHUNK_HEIGHT - 1), PixelType::Sand);
    g.update();
    assert_eq!(cell(&g, (5, CHUNK_HEIGHT)), Some(PixelType::Sand));
    assert_eq!(cell(&g, (5, CHUNK_HEIGHT - 1)), Some(PixelType::Air));
}

#[test]
fn crossing_into_an_occupied_cell_is_dropped() {
    let mut g = grid(4);
    g.set_pixel((5, CHUNK_HEIGHT - 1), PixelType::Sand);
    g.set_pixel((5, CHUNK_HEIGHT), PixelType::Stone);
    g.set_pixel((4, CHUNK_HEIGHT), PixelType::Stone);
    g.set_pixel((6, CHUNK_HEIGHT), PixelType::Stone);
    g.update();
    assert_eq!(cell(&g, (5, CHUNK_HEIGHT - 1)), Some(PixelType::Sand));
    assert_eq!(g.get_total_pixels(), 4);
}

#[test]
fn water_spreads_sideways_when_it_cannot_fall() {
    for seed in 0..10u64 {
        let mut g = grid(seed);
        for x in 9..=11 {
            g.set_pixel((x, 11), PixelType::Stone);
        }
        g.set_pixel((10, 10), PixelType::Water);
        g.update();
        let left = cell(&g, (9, 10)) == Some(PixelType::Water);
        let right = cell(&g, (11, 10)) == Some(PixelType::Water);
        assert!(left != right);
        assert_eq!(cell(&g, (10, 10)), Some(PixelType::Air));
    }
}

#[test]
fn sand_does_not_spread_sideways() {
    let mut g = grid(5);
    for x in 9..=11 {
        g.set_pixel((x, 11), PixelType::Stone);
    }
    g.set_pixel((10, 10), PixelType::Sand);
    g.update();
    assert_eq!(cell(&g, (10, 10)), Some(PixelType::Sand));
}

#[test]
fn ticks_keep_every_material_count() {
    let mut g = grid(42);
    let materials = [PixelType::Sand, PixelType::Water, PixelType::Stone, PixelType::Dirt];
    let mut k = 0usize;
    for y in (0..2 * CHUNK_HEIGHT).step_by(3) {
        for x in (0..2 * CHUNK_WIDTH).step_by(2) {
            g.set_pixel((x, y), materials[k % materials.len()]);
            k += 1;
        }
    }
    let before: Vec<usize> = materials.iter().map(|m| count(&g, *m)).collect();
    let total = g.get_total_pixels();
    for _ in 0..30 {
        g.update();
        let after: Vec<usize> = materials.iter().map(|m| count(&g, *m)).collect();
        assert_eq!(after, before);
        assert_eq!(g.get_total_pixels(), total);
    }
}

#[test]
fn clear_then_update_leaves_only_air() {
    let mut g = grid(7);
    g.set_pixel((10, 10), PixelType::Sand);
    g.set_pixel((200, 100), PixelType::Water);
    g.clear();
    assert_eq!(g.get_total_pixels(), 0);
    g.update();
    assert_eq!(g.get_total_pixels(), 0);
    assert_eq!(count(&g, PixelType::Air), 4 * (CHUNK_WIDTH * CHUNK_HEIGHT) as usize);
}

#[test]
fn an_air_chunk_proposes_nothing() {
    let mut c = Chunk::new((CHUNK_WIDTH as usize, CHUNK_HEIGHT as usize), 0, (0, 0));
    let rng = seeded(9);
    let cross = c.update(&rng);
    assert!(cross.is_empty());
    assert!(c.chunk().iter().all(|p| *p == PixelType::Air));
}

#[test]
fn set_pixel_outside_every_chunk_changes_nothing() {
    let mut g = grid(8);
    g.set_pixel((-5, -5), PixelType::Sand);
    g.set_pixel((2 * CHUNK_WIDTH, 0), PixelType::Sand);
    assert_eq!(g.get_total_pixels(), 0);
}

#[test]
fn world_positions_split_with_floor_division() {
    let p = ChunkPosition::from_world_position((-1, -1));
    assert_eq!(p.chunk_key, (-1, -1));
    assert_eq!(p.chunk_coordinate, (CHUNK_WIDTH - 1, CHUNK_HEIGHT - 1));
    let p = ChunkPosition::from_world_position((CHUNK_WIDTH + 3, 2 * CHUNK_HEIGHT + 5));
    assert_eq!(p.chunk_key, (1, 2));
    assert_eq!(p.chunk_coordinate, (3, 5));
    let p = ChunkPosition::from_world_position((-CHUNK_WIDTH, 0));
    assert_eq!(p, ChunkPosition::new((-1, 0), (0, 0)));
}

#[test]
fn world_positions_round_trip() {
    let samples = [
        (0, 0),
        (-1, -1),
        (159, 89),
        (160, 90),
        (-161, -91),
        (i32::MIN, i32::MAX),
        (i32::MAX, i32::MIN),
        (12345, -6789),
    ];
    for (wx, wy) in samples {
        let p = ChunkPosition::from_world_position((wx, wy));
        assert!(0 <= p.chunk_coordinate.0 && p.chunk_coordinate.0 < CHUNK_WIDTH);
        assert!(0 <= p.chunk_coordinate.1 && p.chunk_coordinate.1 < CHUNK_HEIGHT);
        let back_x = p.chunk_key.0 as i64 * CHUNK_WIDTH as i64 + p.chunk_coordinate.0 as i64;
        let back_y = p.chunk_key.1 as i64 * CHUNK_HEIGHT as i64 + p.chunk_coordinate.1 as i64;
        assert_eq!((back_x, back_y), (wx as i64, wy as i64));
    }
}

#[test]
fn first_claim_wins_in_a_local_pass() {
    let mut c = Chunk::new((CHUNK_WIDTH as usize, CHUNK_HEIGHT as usize), 0, (0, 0));
    c.set(1, 0, PixelType::Sand);
    c.set(3, 0, PixelType::Sand);
    let first = GridMovement::new((3, 0), (2, 1), PixelType::Sand);
    let second = GridMovement::new((1, 0), (2, 1), PixelType::Sand);
    let cross = c.apply_movements(vec![first, second]);
    assert!(cross.is_empty());
    assert_eq!(c.get(2, 1), Some(&PixelType::Sand));
    assert_eq!(c.get(3, 0), Some(&PixelType::Air));
    assert_eq!(c.get(1, 0), Some(&PixelType::Sand));
}

#[test]
fn local_pass_hands_on_movements_that_leave() {
    let mut c = Chunk::new((CHUNK_WIDTH as usize, CHUNK_HEIGHT as usize), 0, (2, 3));
    c.set(0, 0, PixelType::Sand);
    let out = GridMovement::new((0, 0), (-1, 1), PixelType::Sand);
    let cross = c.apply_movements(vec![out]);
    assert_eq!(cross.len(), 1);
    assert_eq!(cross[0].old_chunk, Some((2, 3)));
    assert_eq!(cross[0].new_chunk, Some((1, 3)));
    assert_eq!(cross[0].new_position, (CHUNK_WIDTH - 1, 1));
    assert_eq!(c.get(0, 0), Some(&PixelType::Sand));
}

#[test]
fn local_pass_drops_a_movement_onto_a_material() {
    let mut c = Chunk::new((CHUNK_WIDTH as usize, CHUNK_HEIGHT as usize), 0, (0, 0));
    c.set(4, 4, PixelType::Sand);
    c.set(4, 5, PixelType::Stone);
    let cross = c.apply_movements(vec![GridMovement::new((4, 4), (4, 5), PixelType::Sand)]);
    assert!(cross.is_empty());
    assert_eq!(c.get(4, 4), Some(&PixelType::Sand));
    assert_eq!(c.get(4, 5), Some(&PixelType::Stone));
}

#[test]
fn cross_movement_reports_whether_it_went_ahead() {
    let mut g = grid(11);
    g.set_pixel((5, CHUNK_HEIGHT - 1), PixelType::Sand);
    let mut mv = GridMovement::new((5, CHUNK_HEIGHT - 1), (5, CHUNK_HEIGHT), PixelType::Sand);
    mv.set_chunk_keys((0, 0));
    assert!(g.is_free(&mv));
    assert!(g.get_chunk_if_free(&mv).is_some());
    assert!(g.apply_cross_movement(&mv));
    assert_eq!(cell(&g, (5, CHUNK_HEIGHT)), Some(PixelType::Sand));
    assert_eq!(cell(&g, (5, CHUNK_HEIGHT - 1)), Some(PixelType::Air));
    assert!(!g.is_free(&mv));
    assert!(g.get_chunk_if_free(&mv).is_none());
    assert!(!g.apply_cross_movement(&mv));
    assert_eq!(g.get_total_pixels(), 1);
}

#[test]
fn nothing_is_free_beyond_the_existing_chunks() {
    let g = grid(12);
    let mut mv = GridMovement::new((0, 0), (-1, 0), PixelType::Sand);
    mv.set_chunk_keys((0, 0));
    assert_eq!(mv.new_chunk, Some((-1, 0)));
    assert!(!g.is_free(&mv));
    let unresolved = GridMovement::new((0, 0), (0, 1), PixelType::Sand);
    assert!(!g.is_free(&unresolved));
}

#[test]
fn chunk_keys_resolve_one_step_per_axis() {
    let mut mv = GridMovement::new((159, 89), (160, 90), PixelType::Sand);
    assert!(mv.out_of_bounds());
    mv.set_chunk_keys((4, -2));
    assert_eq!(mv.old_chunk, Some((4, -2)));
    assert_eq!(mv.new_chunk, Some((5, -1)));
    assert_eq!(mv.new_position, (0, 0));
    let mut inside = GridMovement::new((3, 3), (3, 4), PixelType::Water);
    assert!(!inside.out_of_bounds());
    inside.set_chunk_keys((1, 1));
    assert_eq!(inside.new_chunk, Some((1, 1)));
    assert_eq!(inside.new_position, (3, 4));
}

#[test]
fn chunk_queries_report_bounds_air_and_material() {
    let mut c = Chunk::new((CHUNK_WIDTH as usize, CHUNK_HEIGHT as usize), 0, (0, 0));
    c.set(2, 3, PixelType::Dirt);
    assert_eq!(c.query(2, 3), GridQuery::Hit(PixelType::Dirt));
    assert_eq!(c.query(3, 3), GridQuery::Free);
    assert_eq!(c.query(-1, 3), GridQuery::OutOfBounds);
    assert_eq!(c.query(2, CHUNK_HEIGHT), GridQuery::OutOfBounds);
    assert!(!c.query(2, 3).is_free());
    assert!(c.query(3, 3).is_free());
    assert!(c.query(CHUNK_WIDTH, 0).is_free());
    assert_eq!(c.get(CHUNK_WIDTH, 0), None);
    assert_eq!(Chunk::index(2, 3), (3 * CHUNK_WIDTH + 2) as usize);
    assert_eq!(c.remove(2, 3), PixelType::Dirt);
    assert_eq!(c.get(2, 3), Some(&PixelType::Air));
    c.set(7, 7, PixelType::Grass);
    c.clear();
    assert!(c.chunk().iter().all(|p| *p == PixelType::Air));
    assert_eq!((c.width(), c.height()), (CHUNK_WIDTH, CHUNK_HEIGHT));
}

#[test]
fn the_shuffled_order_decides_which_competitor_wins() {
    // The generator's shuffle draws each swap partner strictly below the
    // current index, so two proposals always trade places: the cell later in
    // raster order is applied first and wins.
    for seed in 0..32u64 {
        let mut g = grid(seed);
        for x in [0, 1, 3, 4] {
            g.set_pixel((x, 1), PixelType::Stone);
        }
        g.set_pixel((1, 0), PixelType::Sand);
        g.set_pixel((3, 0), PixelType::Sand);
        g.update();
        assert_eq!(cell(&g, (3, 0)), Some(PixelType::Air), "seed {seed}");
        assert_eq!(cell(&g, (1, 0)), Some(PixelType::Sand), "seed {seed}");
    }
}

#[test]
fn a_falling_column_refills_a_cell_vacated_across_a_chunk_border() {
    let mut g = grid(13);
    g.set_pixel((5, CHUNK_HEIGHT - 1), PixelType::Sand);
    g.set_pixel((5, CHUNK_HEIGHT), PixelType::Sand);
    g.update();
    assert_eq!(cell(&g, (5, CHUNK_HEIGHT + 1)), Some(PixelType::Sand));
    assert_eq!(cell(&g, (5, CHUNK_HEIGHT)), Some(PixelType::Sand));
    assert_eq!(cell(&g, (5, CHUNK_HEIGHT - 1)), Some(PixelType::Air));
}

#[test]
fn cross_movements_settle_in_order_and_first_wins() {
    let mut g = grid(14);
    g.set_pixel((CHUNK_WIDTH - 1, 5), PixelType::Sand);
    g.set_pixel((CHUNK_WIDTH + 1, 5), PixelType::Water);
    let mut from_left = GridMovement::new((CHUNK_WIDTH - 1, 5), (CHUNK_WIDTH, 6), PixelType::Sand);
    from_left.set_chunk_keys((0, 0));
    let mut from_right = GridMovement::new((1, 5), (0, 6), PixelType::Water);
    from_right.set_chunk_keys((1, 0));
    assert_eq!(from_right.new_chunk, Some((1, 0)));
    from_right.new_position = (0, 6);
    g.apply_cross_movements(&vec![from_left, from_right]);
    assert_eq!(cell(&g, (CHUNK_WIDTH, 6)), Some(PixelType::Sand));
    assert_eq!(cell(&g, (CHUNK_WIDTH - 1, 5)), Some(PixelType::Air));
    assert_eq!(cell(&g, (CHUNK_WIDTH + 1, 5)), Some(PixelType::Water));
    assert_eq!(g.get_total_pixels(), 2);
}

#[test]
fn cells_can_be_written_through_direct_access() {
    let mut c = Chunk::new((CHUNK_WIDTH as usize, CHUNK_HEIGHT as usize), 0, (0, 0));
    c.chunk_mut()[Chunk::index(4, 2)] = PixelType::Grass;
    assert_eq!(c.get(4, 2), Some(&PixelType::Grass));
    assert_eq!(c.query(4, 2), GridQuery::Hit(PixelType::Grass));
    assert_eq!(c.chunk().len(), (CHUNK_WIDTH * CHUNK_HEIGHT) as usize);
}
