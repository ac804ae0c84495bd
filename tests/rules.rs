use falling_sand::brush::BrushType;
use falling_sand::pixel::{update_sand, update_water, PixelType};
use falling_sand::pixel_grid::{Chunk, GridMovement};
use falling_sand::{CHUNK_HEIGHT, CHUNK_WIDTH};
use macroquad::rand::RandGenerator;

fn chunk() -> Chunk {
    Chunk::new((CHUNK_WIDTH as usize, CHUNK_HEIGHT as usize), 0, (0, 0))
}

fn seeded(seed: u64) -> RandGenerator {
    let rng = RandGenerator::new();
    rng.srand(seed);
    rng
}

#[test]
fn sand_proposes_straight_down_when_free() {
    let mut c = chunk();
    c.set(5, 5, PixelType::Sand);
    let mv = PixelType::Sand.propose(&c, 5, 5, 1).unwrap();
    assert_eq!(mv.old_position, (5, 5));
    assert_eq!(mv.new_position, (5, 6));
    assert_eq!(mv.pixel_type, PixelType::Sand);
    assert_eq!(mv.old_chunk, None);
}

#[test]
fn the_bias_picks_the_diagonal_tried_first() {
    let mut c = chunk();
    c.set(5, 5, PixelType::Sand);
    c.set(5, 6, PixelType::Stone);
    assert_eq!(PixelType::Sand.propose(&c, 5, 5, 0).unwrap().new_position, (6, 6));
    assert_eq!(PixelType::Sand.propose(&c, 5, 5, 1).unwrap().new_position, (4, 6));
    c.set(6, 6, PixelType::Stone);
    assert_eq!(PixelType::Sand.propose(&c, 5, 5, 0).unwrap().new_position, (4, 6));
    c.set(4, 6, PixelType::Stone);
    assert!(PixelType::Sand.propose(&c, 5, 5, 0).is_none());
    assert!(PixelType::Sand.propose(&c, 5, 5, 1).is_none());
}

#[test]
fn water_settles_sideways_by_the_bias() {
    let mut c = chunk();
    for x in 4..=6 {
        c.set(x, 6, PixelType::Stone);
    }
    c.set(5, 5, PixelType::Water);
    assert_eq!(PixelType::Water.propose(&c, 5, 5, 0).unwrap().new_position, (6, 5));
    assert_eq!(PixelType::Water.propose(&c, 5, 5, 1).unwrap().new_position, (4, 5));
    c.set(4, 5, PixelType::Stone);
    c.set(6, 5, PixelType::Stone);
    assert!(PixelType::Water.propose(&c, 5, 5, 0).is_none());
}

#[test]
fn passive_materials_propose_nothing() {
    let c = chunk();
    for m in [PixelType::Air, PixelType::Stone, PixelType::Dirt, PixelType::Grass] {
        assert!(m.propose(&c, 5, 5, 0).is_none());
        assert!(m.update(&c, 5, 5, &seeded(1)).is_none());
    }
}

#[test]
fn positions_beyond_the_chunk_count_as_free() {
    let mut c = chunk();
    c.set(3, CHUNK_HEIGHT - 1, PixelType::Sand);
    let mv = PixelType::Sand.propose(&c, 3, CHUNK_HEIGHT - 1, 0).unwrap();
    assert_eq!(mv.new_position, (3, CHUNK_HEIGHT));
}

#[test]
fn coin_flip_picks_one_of_the_two_diagonals() {
    let mut c = chunk();
    c.set(5, 5, PixelType::Sand);
    c.set(5, 6, PixelType::Stone);
    let mut seen = [false, false];
    for seed in 0..64u64 {
        let rng = seeded(seed);
        let mv = update_sand(&c, 5, 5, &rng).unwrap();
        match mv.new_position {
            (4, 6) => seen[1] = true,
            (6, 6) => seen[0] = true,
            other => panic!("unexpected destination {other:?}"),
        }
    }
    assert!(seen[0] && seen[1]);
}

#[test]
fn water_rule_goes_down_first() {
    let mut c = chunk();
    c.set(7, 7, PixelType::Water);
    let mv = update_water(&c, 7, 7, &seeded(2)).unwrap();
    assert_eq!(mv.new_position, (7, 8));
    let mv2 = PixelType::Water.update(&c, 7, 7, &seeded(3)).unwrap();
    assert_eq!(mv2.new_position, (7, 8));
}

#[test]
fn gravity_fall_and_settle_report_success() {
    let mut c = chunk();
    c.set(5, 6, PixelType::Stone);
    let mut mv = GridMovement::new((5, 5), (5, 5), PixelType::Sand);
    assert!(!PixelType::Sand.apply_gravity(&c, &mut mv));
    assert_eq!(mv.new_position, (5, 5));
    assert!(PixelType::Sand.fall(&c, &mut mv, 0));
    assert_eq!(mv.new_position, (6, 6));
    let mut side = GridMovement::new((5, 5), (5, 5), PixelType::Water);
    assert!(PixelType::Water.settle(&c, &mut side, 1));
    assert_eq!(side.new_position, (4, 5));
}

#[test]
fn materials_cycle_forwards_and_backwards() {
    let mut m = PixelType::Sand;
    let mut names = vec![];
    for _ in 0..5 {
        m.next();
        names.push(m.get().to_string());
    }
    assert_eq!(names, ["Water", "Dirt", "Stone", "Grass", "Sand"]);
    m.previous();
    assert_eq!(m, PixelType::Grass);
    let mut air = PixelType::Air;
    air.next();
    assert_eq!(air, PixelType::Air);
    assert_eq!(air.get(), "Air");
}

#[test]
fn brush_types_cycle() {
    let mut b = BrushType::Pixel;
    assert_eq!(b.as_str(), "Pixel");
    b.next();
    assert_eq!(b, BrushType::Circle);
    assert_eq!(b.as_str(), "Circle");
    b.next();
    assert_eq!(b, BrushType::Pixel);
    b.previous();
    assert_eq!(b, BrushType::Circle);
}
