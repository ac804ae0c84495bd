//! Materials and the movement rules that each of them follows.
use vstd::prelude::*;

use crate::chunk::{query_cells, Chunk};
use crate::movement::{in_chunk, GridMovement};
use crate::random::coin_flip;
use macroquad::rand::RandGenerator;

verus! {

/// A movement may go to `(x, y)` as far as the chunk with cells `cells` can
/// tell: the cell holds air, or it lies beyond the chunk.
pub open spec fn free_at(cells: Seq<PixelType>, x: int, y: int) -> bool {
    query_cells(cells, x, y).spec_is_free()
}

/// The first of `a` and `b` that is free.
pub open spec fn first_free(cells: Seq<PixelType>, a: (int, int), b: (int, int)) -> Option<
    (int, int),
> {
    if free_at(cells, a.0, a.1) {
        Some(a)
    } else if free_at(cells, b.0, b.1) {
        Some(b)
    } else {
        None
    }
}

/// `a`, or `b` where `a` is `None`.
pub open spec fn or_else(a: Option<(int, int)>, b: Option<(int, int)>) -> Option<(int, int)> {
    if a is Some {
        a
    } else {
        b
    }
}

/// Straight down, if that cell is free.
pub open spec fn gravity_target(cells: Seq<PixelType>, x: int, y: int) -> Option<(int, int)> {
    if free_at(cells, x, y + 1) {
        Some((x, y + 1))
    } else {
        None
    }
}

/// The free diagonal below: with bias 0 down-right is tried first, with any
/// other bias down-left.
pub open spec fn fall_target(cells: Seq<PixelType>, x: int, y: int, direction: int) -> Option<
    (int, int),
> {
    if direction == 0 {
        first_free(cells, (x + 1, y + 1), (x - 1, y + 1))
    } else {
        first_free(cells, (x - 1, y + 1), (x + 1, y + 1))
    }
}

/// The free side: with bias 0 right is tried first, with any other bias left.
pub open spec fn settle_target(cells: Seq<PixelType>, x: int, y: int, direction: int) -> Option<
    (int, int),
> {
    if direction == 0 {
        first_free(cells, (x + 1, y), (x - 1, y))
    } else {
        first_free(cells, (x - 1, y), (x + 1, y))
    }
}

/// Where the rule of material `m` sends the cell at `(x, y)` under bias
/// `direction`: sand falls, then slides diagonally; water does the same and
/// then spreads sideways; the other materials stay.
pub open spec fn rule_target(
    m: PixelType,
    cells: Seq<PixelType>,
    x: int,
    y: int,
    direction: int,
) -> Option<(int, int)> {
    match m {
        PixelType::Sand => or_else(
            gravity_target(cells, x, y),
            fall_target(cells, x, y, direction),
        ),
        PixelType::Water => or_else(
            gravity_target(cells, x, y),
            or_else(fall_target(cells, x, y, direction), settle_target(cells, x, y, direction)),
        ),
        _ => None,
    }
}

/// `mv` sent to `target`.
pub open spec fn moved_to(mv: GridMovement, target: (int, int)) -> GridMovement {
    GridMovement { new_position: (target.0 as i32, target.1 as i32), ..mv }
}

/// Horizontal coordinate of the source of `mv`.
pub open spec fn source_x(mv: GridMovement) -> int {
    mv.old_position.0 as int
}

/// Vertical coordinate of the source of `mv`.
pub open spec fn source_y(mv: GridMovement) -> int {
    mv.old_position.1 as int
}

/// A rule step that found `target` sent the movement there and reported
/// success; one that found nothing left it alone and reported failure.
pub open spec fn rule_step(
    before: GridMovement,
    after: GridMovement,
    r: bool,
    target: Option<(int, int)>,
) -> bool {
    match target {
        Some(t) => r && after == moved_to(before, t),
        None => !r && after == before,
    }
}

/// The movement that the rule of `m` proposes for the cell at `(x, y)`.
pub open spec fn proposal(
    m: PixelType,
    cells: Seq<PixelType>,
    x: i32,
    y: i32,
    direction: int,
) -> Option<GridMovement> {
    match rule_target(m, cells, x as int, y as int, direction) {
        Some(t) => Some(
            GridMovement {
                old_position: (x, y),
                new_position: (t.0 as i32, t.1 as i32),
                old_chunk: None,
                new_chunk: None,
                pixel_type: m,
            },
        ),
        None => None,
    }
}

/// Whether a cell moves does not depend on the bias: only which way it goes.
pub proof fn lemma_moves_whatever_direction(
    m: PixelType,
    cells: Seq<PixelType>,
    x: int,
    y: int,
    direction: int,
)
    ensures
        rule_target(m, cells, x, y, direction) is Some <==> rule_target(m, cells, x, y, 0) is Some,
{
}

/// The material held by one cell. `Air` is the free value: a cell is never
/// empty, only filled with air.
#[derive(Clone, Copy, Debug, PartialEq, Eq, Structural)]
pub enum PixelType {
    Sand,
    Water,
    Air,
    Dirt,
    Stone,
    Grass,
}

impl PixelType {
    /// The material that the brush selects after `self`; air is not in the cycle.
    pub open spec fn spec_next(self) -> PixelType {
        match self {
            PixelType::Sand => PixelType::Water,
            PixelType::Water => PixelType::Dirt,
            PixelType::Dirt => PixelType::Stone,
            PixelType::Stone => PixelType::Grass,
            PixelType::Grass => PixelType::Sand,
            PixelType::Air => PixelType::Air,
        }
    }

    /// The material that the brush selects before `self`; air is not in the cycle.
    pub open spec fn spec_previous(self) -> PixelType {
        match self {
            PixelType::Sand => PixelType::Grass,
            PixelType::Grass => PixelType::Stone,
            PixelType::Stone => PixelType::Dirt,
            PixelType::Dirt => PixelType::Water,
            PixelType::Water => PixelType::Sand,
            PixelType::Air => PixelType::Air,
        }
    }

    /// The display name of the material.
    pub open spec fn spec_name(self) -> Seq<char> {
        match self {
            PixelType::Sand => "Sand"@,
            PixelType::Water => "Water"@,
            PixelType::Dirt => "Dirt"@,
            PixelType::Stone => "Stone"@,
            PixelType::Grass => "Grass"@,
            PixelType::Air => "Air"@,
        }
    }

    pub fn next(&mut self)
        ensures
            *final(self) == old(self).spec_next(),
    {
        match *self {
            PixelType::Sand => *self = PixelType::Water,
            PixelType::Water => *self = PixelType::Dirt,
            PixelType::Dirt => *self = PixelType::Stone,
            PixelType::Stone => *self = PixelType::Grass,
            PixelType::Grass => *self = PixelType::Sand,
            PixelType::Air => (),
        }
    }

    pub fn previous(&mut self)
        ensures
            *final(self) == old(self).spec_previous(),
    {
        match *self {
            PixelType::Sand => *self = PixelType::Grass,
            PixelType::Grass => *self = PixelType::Stone,
            PixelType::Stone => *self = PixelType::Dirt,
            PixelType::Dirt => *self = PixelType::Water,
            PixelType::Water => *self = PixelType::Sand,
            PixelType::Air => (),
        }
    }

    /// The display name of the material.
    pub fn get(&self) -> (r: &str)
        ensures
            r@ == self.spec_name(),
    {
        match self {
            PixelType::Sand => "Sand",
            PixelType::Water => "Water",
            PixelType::Dirt => "Dirt",
            PixelType::Stone => "Stone",
            PixelType::Grass => "Grass",
            PixelType::Air => "Air",
        }
    }

    /// Proposes the movement of this material at `(x, y)`, drawing the bias
    /// from `rng` only when the cell cannot fall straight down.
    pub fn update(&self, chunk: &Chunk, x: i32, y: i32, rng: &RandGenerator) -> (r: Option<
        GridMovement,
    >)
        requires
            chunk.wf(),
            in_chunk(x as int, y as int),
        ensures
            exists|d: int| 0 <= d < 2 && r == proposal(*self, chunk@, x, y, d),
    {
        match self {
            PixelType::Sand => update_sand(chunk, x, y, rng),
            PixelType::Water => update_water(chunk, x, y, rng),
            _ => {
                assert(proposal(*self, chunk@, x, y, 0) is None);
                None
            },
        }
    }

    /// Proposes the movement of this material at `(x, y)` under the given bias.
    pub fn propose(&self, chunk: &Chunk, x: i32, y: i32, direction: i8) -> (r: Option<
        GridMovement,
    >)
        requires
            chunk.wf(),
            in_chunk(x as int, y as int),
        ensures
            r == proposal(*self, chunk@, x, y, direction as int),
    {
        match self {
            PixelType::Sand | PixelType::Water => {
                let mut grid_movement = GridMovement::new((x, y), (x, y), *self);
                if self.apply_gravity(chunk, &mut grid_movement) {
                    return Some(grid_movement);
                }
                if self.fall(chunk, &mut grid_movement, direction) {
                    return Some(grid_movement);
                }
                if *self == PixelType::Water && self.settle(chunk, &mut grid_movement, direction) {
                    return Some(grid_movement);
                }
                None
            },
            _ => None,
        }
    }

    /// Sends the movement straight down if that cell is free; reports whether
    /// it did.
    pub fn apply_gravity(&self, pixel_grid: &Chunk, grid_movement: &mut GridMovement) -> (r: bool)
        requires
            pixel_grid.wf(),
            in_chunk(source_x(*old(grid_movement)), source_y(*old(grid_movement))),
        ensures
            rule_step(
                *old(grid_movement),
                *final(grid_movement),
                r,
                gravity_target(
                    pixel_grid@,
                    source_x(*old(grid_movement)),
                    source_y(*old(grid_movement)),
                ),
            ),
    {
        let check_position = (grid_movement.old_position.0, grid_movement.old_position.1 + 1);
        if pixel_grid.query(check_position.0, check_position.1).is_free() {
            grid_movement.new_position = check_position;
            return true;
        }
        false
    }

    /// Sends the movement to a free cell diagonally below, trying first the
    /// side that `direction` picks; reports whether it did.
    pub fn fall(&self, pixel_grid: &Chunk, grid_movement: &mut GridMovement, direction: i8) -> (r:
        bool)
        requires
            pixel_grid.wf(),
            in_chunk(source_x(*old(grid_movement)), source_y(*old(grid_movement))),
        ensures
            rule_step(
                *old(grid_movement),
                *final(grid_movement),
                r,
                fall_target(
                    pixel_grid@,
                    source_x(*old(grid_movement)),
                    source_y(*old(grid_movement)),
                    direction as int,
                ),
            ),
    {
        let (x, y) = grid_movement.old_position;
        let (first, second) = if direction == 0 {
            ((x + 1, y + 1), (x - 1, y + 1))
        } else {
            ((x - 1, y + 1), (x + 1, y + 1))
        };
        if pixel_grid.query(first.0, first.1).is_free() {
            grid_movement.new_position = first;
            return true;
        }
        if pixel_grid.query(second.0, second.1).is_free() {
            grid_movement.new_position = second;
            return true;
        }
        false
    }

    /// Sends the movement to a free cell beside it, trying first the side that
    /// `direction` picks; reports whether it did.
    pub fn settle(&self, pixel_grid: &Chunk, grid_movement: &mut GridMovement, direction: i8) -> (r:
        bool)
        requires
            pixel_grid.wf(),
            in_chunk(source_x(*old(grid_movement)), source_y(*old(grid_movement))),
        ensures
            rule_step(
                *old(grid_movement),
                *final(grid_movement),
                r,
                settle_target(
                    pixel_grid@,
                    source_x(*old(grid_movement)),
                    source_y(*old(grid_movement)),
                    direction as int,
                ),
            ),
    {
        let (x, y) = grid_movement.old_position;
        let (first, second) = if direction == 0 {
            ((x + 1, y), (x - 1, y))
        } else {
            ((x - 1, y), (x + 1, y))
        };
        if pixel_grid.query(first.0, first.1).is_free() {
            grid_movement.new_position = first;
            return true;
        }
        if pixel_grid.query(second.0, second.1).is_free() {
            grid_movement.new_position = second;
            return true;
        }
        false
    }
}

/// The sand rule at `(x, y)`: straight down if free, else a free diagonal
/// below, the side picked first by a coin flip.
pub fn update_sand(pixel_grid: &Chunk, x: i32, y: i32, rng: &RandGenerator) -> (r: Option<
    GridMovement,
>)
    requires
        pixel_grid.wf(),
        in_chunk(x as int, y as int),
    ensures
        exists|d: int| 0 <= d < 2 && r == proposal(PixelType::Sand, pixel_grid@, x, y, d),
{
    let pixel_type = PixelType::Sand;
    let mut grid_movement = GridMovement::new((x, y), (x, y), pixel_type);
    if pixel_type.apply_gravity(pixel_grid, &mut grid_movement) {
        assert(proposed_under(Some(grid_movement), pixel_type, pixel_grid@, x, y, 0));
        return Some(grid_movement);
    }
    let direction = coin_flip(rng);
    if pixel_type.fall(pixel_grid, &mut grid_movement, direction) {
        let ghost d = direction as int;
        assert(proposed_under(Some(grid_movement), pixel_type, pixel_grid@, x, y, d));
        return Some(grid_movement);
    }
    assert(proposed_under(None, pixel_type, pixel_grid@, x, y, direction as int));
    None
}

/// The water rule at `(x, y)`: as sand, and failing that a free cell beside
/// it, with the same coin flip picking the side tried first.
pub fn update_water(pixel_grid: &Chunk, x: i32, y: i32, rng: &RandGenerator) -> (r: Option<
    GridMovement,
>)
    requires
        pixel_grid.wf(),
        in_chunk(x as int, y as int),
    ensures
        exists|d: int| 0 <= d < 2 && r == proposal(PixelType::Water, pixel_grid@, x, y, d),
{
    let pixel_type = PixelType::Water;
    let mut grid_movement = GridMovement::new((x, y), (x, y), pixel_type);
    if pixel_type.apply_gravity(pixel_grid, &mut grid_movement) {
        assert(proposed_under(Some(grid_movement), pixel_type, pixel_grid@, x, y, 0));
        return Some(grid_movement);
    }
    let direction = coin_flip(rng);
    if pixel_type.fall(pixel_grid, &mut grid_movement, direction) {
        let ghost d = direction as int;
        assert(proposed_under(Some(grid_movement), pixel_type, pixel_grid@, x, y, d));
        return Some(grid_movement);
    }
    if pixel_type.settle(pixel_grid, &mut grid_movement, direction) {
        let ghost d = direction as int;
        assert(proposed_under(Some(grid_movement), pixel_type, pixel_grid@, x, y, d));
        return Some(grid_movement);
    }
    assert(proposed_under(None, pixel_type, pixel_grid@, x, y, direction as int));
    None
}

/// `r` is the proposal of the rule of `m` at `(x, y)` under bias `d`, a coin value.
spec fn proposed_under(
    r: Option<GridMovement>,
    m: PixelType,
    cells: Seq<PixelType>,
    x: i32,
    y: i32,
    d: int,
) -> bool {
    0 <= d < 2 && r == proposal(m, cells, x, y, d)
}

} // verus!
