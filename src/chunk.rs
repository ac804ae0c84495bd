//! A chunk: one fixed-size tile of the world, and its local tick.
use vstd::prelude::*;

use crate::count::{
    air_cells, all_air, count_material, lemma_count_update, lemma_occupied_is_non_air, occupied,
};
use crate::movement::{cell_index, in_chunk, key_in_range, GridMovement};
use crate::pixel::{lemma_moves_whatever_direction, proposal, rule_target, PixelType};
use crate::random::shuffle_movements;
use crate::{CHUNK_CELLS, CHUNK_HEIGHT, CHUNK_WIDTH};
use macroquad::rand::RandGenerator;
use vstd::arithmetic::div_mod::{lemma_div_is_ordered, lemma_fundamental_div_mod};

verus! {

/// What a chunk holds at a local position.
#[derive(Clone, Copy, Debug, PartialEq, Eq, Structural)]
pub enum GridQuery {
    /// The position lies outside the chunk.
    OutOfBounds,
    /// The cell holds this material, which is not air.
    Hit(PixelType),
    /// The cell holds air.
    Free,
}

impl GridQuery {
    /// A movement may go there: the cell holds air, or it lies beyond this
    /// chunk and is left for the grid to settle.
    pub open spec fn spec_is_free(self) -> bool {
        !(self is Hit)
    }

    pub fn is_free(&self) -> (r: bool)
        ensures
            r == self.spec_is_free(),
    {
        match self {
            GridQuery::OutOfBounds => true,
            GridQuery::Hit(_) => false,
            GridQuery::Free => true,
        }
    }
}

/// The answer of a query at `(x, y)` on the cells `cells`.
pub open spec fn query_cells(cells: Seq<PixelType>, x: int, y: int) -> GridQuery {
    if !in_chunk(x, y) {
        GridQuery::OutOfBounds
    } else if cells[cell_index(x, y)] == PixelType::Air {
        GridQuery::Free
    } else {
        GridQuery::Hit(cells[cell_index(x, y)])
    }
}

/// The state of a chunk during its local pass: its cells, its claimed
/// destinations, and the movements handed on to the grid so far.
pub type PassState = (Seq<PixelType>, Seq<bool>, Seq<GridMovement>);

/// Storage position of the source of `mv`.
pub open spec fn source_index(mv: GridMovement) -> int {
    cell_index(mv.old_position.0 as int, mv.old_position.1 as int)
}

/// Storage position of the destination of `mv`.
pub open spec fn destination_index(mv: GridMovement) -> int {
    cell_index(mv.new_position.0 as int, mv.new_position.1 as int)
}

/// An in-chunk movement goes ahead: its destination has not been claimed
/// this tick and holds air, and its source still holds the moving material.
pub open spec fn local_move_applies(s: PassState, mv: GridMovement) -> bool {
    &&& in_chunk(mv.new_position.0 as int, mv.new_position.1 as int)
    &&& !s.1[destination_index(mv)]
    &&& in_chunk(mv.old_position.0 as int, mv.old_position.1 as int)
    &&& mv.pixel_type != PixelType::Air
    &&& s.0[source_index(mv)] == mv.pixel_type
    &&& s.0[destination_index(mv)] == PixelType::Air
}

/// One movement of the local pass of the chunk at `key`: one that leaves
/// the chunk is handed on with its keys resolved; one that goes ahead clears
/// its source, fills and claims its destination; any other is dropped.
pub open spec fn local_step(s: PassState, mv: GridMovement, key: (i32, i32)) -> PassState {
    if mv.spec_out_of_bounds() {
        (s.0, s.1, s.2.push(mv.with_chunk_keys(key)))
    } else if local_move_applies(s, mv) {
        (
            s.0.update(source_index(mv), PixelType::Air).update(
                destination_index(mv),
                mv.pixel_type,
            ),
            s.1.update(destination_index(mv), true),
            s.2,
        )
    } else {
        s
    }
}

/// The local pass over `moves`, in order, from state `s`.
pub open spec fn local_pass(s: PassState, moves: Seq<GridMovement>, key: (i32, i32)) -> PassState
    decreases moves.len(),
{
    if moves.len() == 0 {
        s
    } else {
        local_step(local_pass(s, moves.drop_last(), key), moves.last(), key)
    }
}

/// The movements of a local pass that went ahead, in order.
pub open spec fn applied_moves(s: PassState, moves: Seq<GridMovement>, key: (i32, i32)) -> Seq<
    GridMovement,
>
    decreases moves.len(),
{
    if moves.len() == 0 {
        seq![]
    } else {
        let before = local_pass(s, moves.drop_last(), key);
        let earlier = applied_moves(s, moves.drop_last(), key);
        if !moves.last().spec_out_of_bounds() && local_move_applies(before, moves.last()) {
            earlier.push(moves.last())
        } else {
            earlier
        }
    }
}

/// Storage position `i` is a cell whose rule proposes a movement.
pub open spec fn cell_moves(cells: Seq<PixelType>, i: int) -> bool {
    rule_target(cells[i], cells, i % CHUNK_WIDTH as int, i / CHUNK_WIDTH as int, 0) is Some
}

/// The storage positions below `n` whose cells propose a movement, in order.
pub open spec fn moving_cells(cells: Seq<PixelType>, n: int) -> Seq<int>
    decreases n,
{
    if n <= 0 {
        seq![]
    } else if cell_moves(cells, n - 1) {
        moving_cells(cells, n - 1).push(n - 1)
    } else {
        moving_cells(cells, n - 1)
    }
}

/// `mv` is what the rule of the cell at storage position `i` proposes under
/// some bias.
pub open spec fn proposed_for(cells: Seq<PixelType>, i: int, mv: GridMovement) -> bool {
    exists|d: int|
        0 <= d < 2 && Some(mv) == #[trigger] proposal(
            cells[i],
            cells,
            (i % CHUNK_WIDTH as int) as i32,
            (i / CHUNK_WIDTH as int) as i32,
            d,
        )
}

/// The movements proposed for the cells `cells`, in raster order: the `k`th
/// comes from the `k`th cell that moves.
pub open spec fn proposals_of(cells: Seq<PixelType>, r: Seq<GridMovement>) -> bool {
    let sources = moving_cells(cells, CHUNK_CELLS as int);
    &&& r.len() == sources.len()
    &&& forall|k: int| 0 <= k < r.len() ==> proposed_for(cells, sources[k], #[trigger] r[k])
}

/// A local pass keeps the count of every material, and hands on only
/// movements whose keys it has resolved from its own.
pub proof fn lemma_local_pass_conserves(s: PassState, moves: Seq<GridMovement>, key: (i32, i32))
    requires
        s.0.len() == CHUNK_CELLS,
        s.1.len() == CHUNK_CELLS,
    ensures
        ({
            let e = local_pass(s, moves, key);
            &&& e.0.len() == CHUNK_CELLS
            &&& e.1.len() == CHUNK_CELLS
            &&& forall|m: PixelType| count_material(e.0, m) == count_material(s.0, m)
            &&& forall|k: int|
                s.2.len() <= k < e.2.len() ==> (#[trigger] e.2[k]).old_chunk == Some(key)
                    && e.2[k].new_chunk is Some
            &&& e.2.len() >= s.2.len()
        }),
    decreases moves.len(),
{
    if moves.len() > 0 {
        lemma_local_pass_conserves(s, moves.drop_last(), key);
        let b = local_pass(s, moves.drop_last(), key);
        let mv = moves.last();
        let e = local_step(b, mv, key);
        if !mv.spec_out_of_bounds() && local_move_applies(b, mv) {
            let c1 = b.0.update(source_index(mv), PixelType::Air);
            assert forall|m: PixelType| count_material(e.0, m) == count_material(s.0, m) by {
                lemma_count_update(b.0, source_index(mv), PixelType::Air, m);
                lemma_count_update(c1, destination_index(mv), mv.pixel_type, m);
            }
        }
        if mv.spec_out_of_bounds() {
            assert forall|k: int| s.2.len() <= k < e.2.len() implies (#[trigger] e.2[k]).old_chunk
                == Some(key) && e.2[k].new_chunk is Some by {
                if k < b.2.len() {
                    assert(e.2[k] == b.2[k]);
                }
            }
        }
    }
}

/// Within one local pass, at most one movement claims a destination: the
/// movements that go ahead have pairwise distinct destinations, each of them
/// unclaimed before the pass and claimed after it.
pub proof fn lemma_one_claim_per_destination(
    s: PassState,
    moves: Seq<GridMovement>,
    key: (i32, i32),
)
    requires
        s.0.len() == CHUNK_CELLS,
        s.1.len() == CHUNK_CELLS,
    ensures
        ({
            let a = applied_moves(s, moves, key);
            let e = local_pass(s, moves, key);
            &&& forall|i: int, j: int|
                0 <= i < j < a.len() ==> (#[trigger] a[i]).new_position
                    != (#[trigger] a[j]).new_position
            &&& forall|i: int|
                0 <= i < a.len() ==> in_chunk(
                    (#[trigger] a[i]).new_position.0 as int,
                    a[i].new_position.1 as int,
                ) && !s.1[destination_index(a[i])] && e.1[destination_index(a[i])]
        }),
    decreases moves.len(),
{
    lemma_local_pass_conserves(s, moves, key);
    if moves.len() > 0 {
        let prev = moves.drop_last();
        lemma_one_claim_per_destination(s, prev, key);
        lemma_claims_only_grow(s, prev, key);
        lemma_local_pass_conserves(s, prev, key);
        let b = local_pass(s, prev, key);
        let a0 = applied_moves(s, prev, key);
        let mv = moves.last();
        if !mv.spec_out_of_bounds() && local_move_applies(b, mv) {
            let a = a0.push(mv);
            assert forall|i: int|
                0 <= i < a0.len() implies a0[i].new_position != mv.new_position by {
                assert(b.1[destination_index(a0[i])]);
            }
            assert forall|i: int, j: int|
                0 <= i < j < a.len() implies (#[trigger] a[i]).new_position
                != (#[trigger] a[j]).new_position by {
                if j < a0.len() {
                    assert(a[i] == a0[i] && a[j] == a0[j]);
                } else {
                    assert(a[i] == a0[i]);
                }
            }
        }
    }
}

/// A pass never releases a claim.
pub proof fn lemma_claims_only_grow(s: PassState, moves: Seq<GridMovement>, key: (i32, i32))
    requires
        s.0.len() == CHUNK_CELLS,
        s.1.len() == CHUNK_CELLS,
    ensures
        forall|i: int| 0 <= i < CHUNK_CELLS && s.1[i] ==> #[trigger] local_pass(s, moves, key).1[i],
    decreases moves.len(),
{
    if moves.len() > 0 {
        lemma_claims_only_grow(s, moves.drop_last(), key);
        lemma_local_pass_conserves(s, moves.drop_last(), key);
    }
}

/// Within a chunk, a movement's source is cleared exactly when its
/// destination is written: for a movement whose source holds the moving
/// material, the source ends up air if and only if the movement goes ahead,
/// and then its destination holds the material.
pub proof fn lemma_local_source_cleared_iff_written(
    s: PassState,
    mv: GridMovement,
    key: (i32, i32),
)
    requires
        s.0.len() == CHUNK_CELLS,
        s.1.len() == CHUNK_CELLS,
        in_chunk(mv.old_position.0 as int, mv.old_position.1 as int),
        mv.pixel_type != PixelType::Air,
        s.0[source_index(mv)] == mv.pixel_type,
    ensures
        ({
            let e = local_step(s, mv, key);
            let written = !mv.spec_out_of_bounds() && local_move_applies(s, mv);
            &&& e.0[source_index(mv)] == PixelType::Air <==> written
            &&& written ==> e.0[destination_index(mv)] == mv.pixel_type
        }),
{
}

/// No destination claimed yet.
pub open spec fn no_claims() -> Seq<bool> {
    Seq::new(CHUNK_CELLS as nat, |i: int| false)
}

/// One local tick of the chunk at `key` with cells `cells` may end with
/// cells `after`, handing on `cross`: the cells' proposals, in some order,
/// make a local pass from no claims to that outcome.
pub open spec fn local_tick(
    cells: Seq<PixelType>,
    key: (i32, i32),
    after: Seq<PixelType>,
    cross: Seq<GridMovement>,
) -> bool {
    exists|proposed: Seq<GridMovement>, order: Seq<GridMovement>|
        #[trigger] proposals_of(cells, proposed) && order.to_multiset() == proposed.to_multiset()
            && (after, cross) == #[trigger] pass_outcome(
            local_pass((cells, no_claims(), seq![]), order, key),
        )
}

/// The cells and the handed-on movements of a pass state.
pub open spec fn pass_outcome(s: PassState) -> (Seq<PixelType>, Seq<GridMovement>) {
    (s.0, s.2)
}

/// A chunk of air proposes no movement at all.
pub proof fn lemma_air_proposes_nothing(cells: Seq<PixelType>, n: int)
    requires
        all_air(cells),
        n <= cells.len(),
    ensures
        moving_cells(cells, n).len() == 0,
    decreases n,
{
    if n > 0 {
        lemma_air_proposes_nothing(cells, n - 1);
    }
}

/// A tile of `CHUNK_WIDTH` by `CHUNK_HEIGHT` cells at a key of the chunk
/// lattice, with the set of destinations claimed during the current tick.
pub struct Chunk {
    key: (i32, i32),
    chunk: Vec<PixelType>,
    last_updates: Vec<bool>,
}

impl View for Chunk {
    type V = Seq<PixelType>;

    /// The cells, row after row.
    closed spec fn view(&self) -> Seq<PixelType> {
        self.chunk@
    }
}

impl Chunk {
    /// The chunk's key in the lattice.
    pub closed spec fn spec_key(&self) -> (i32, i32) {
        self.key
    }

    /// For each cell, whether a movement has claimed it as its destination
    /// during the current tick.
    pub closed spec fn claims(&self) -> Seq<bool> {
        self.last_updates@
    }

    pub open spec fn wf(&self) -> bool {
        &&& self@.len() == CHUNK_CELLS
        &&& self.claims().len() == CHUNK_CELLS
        &&& key_in_range(self.spec_key())
    }

    /// Creates an all-air chunk at `key`. Every chunk of the lattice has the
    /// same size, so `size` must be `(CHUNK_WIDTH, CHUNK_HEIGHT)`.
    pub fn new(size: (usize, usize), _seed: u64, key: (i32, i32)) -> (r: Self)
        requires
            size.0 == CHUNK_WIDTH,
            size.1 == CHUNK_HEIGHT,
            key_in_range(key),
        ensures
            r.wf(),
            r@ == air_cells(CHUNK_CELLS as nat),
            r.spec_key() == key,
            forall|i: int| 0 <= i < CHUNK_CELLS ==> !r.claims()[i],
    {
        let chunk = vec![PixelType::Air; CHUNK_CELLS];
        let last_updates = vec![false; CHUNK_CELLS];
        let r = Self { key, chunk, last_updates };
        assert(r@ =~= air_cells(CHUNK_CELLS as nat));
        r
    }

    pub fn key(&self) -> (r: (i32, i32))
        ensures
            r == self.spec_key(),
    {
        self.key
    }

    pub fn chunk(&self) -> (r: &Vec<PixelType>)
        ensures
            r@ == self@,
    {
        &self.chunk
    }

    /// Direct access to the cells; a caller that changes their number leaves
    /// the chunk ill-formed.
    pub fn chunk_mut(&mut self) -> (r: &mut Vec<PixelType>)
        ensures
            r@ == old(self)@,
            final(self)@ == final(r)@,
            final(self).spec_key() == old(self).spec_key(),
            final(self).claims() == old(self).claims(),
    {
        &mut self.chunk
    }

    pub fn width(&self) -> (r: i32)
        ensures
            r == CHUNK_WIDTH,
    {
        CHUNK_WIDTH
    }

    pub fn height(&self) -> (r: i32)
        ensures
            r == CHUNK_HEIGHT,
    {
        CHUNK_HEIGHT
    }

    /// Reports whether `(x, y)` is outside this chunk, holds air, or holds a
    /// material.
    pub fn query(&self, x: i32, y: i32) -> (r: GridQuery)
        requires
            self.wf(),
        ensures
            r == query_cells(self@, x as int, y as int),
    {
        if y >= CHUNK_HEIGHT || y < 0 {
            return GridQuery::OutOfBounds;
        }
        if x >= CHUNK_WIDTH || x < 0 {
            return GridQuery::OutOfBounds;
        }
        let pixel_type = self.chunk[Chunk::index(x, y)];
        if pixel_type == PixelType::Air {
            GridQuery::Free
        } else {
            GridQuery::Hit(pixel_type)
        }
    }

    /// Position of local cell `(x, y)` in the storage.
    pub fn index(x: i32, y: i32) -> (r: usize)
        requires
            in_chunk(x as int, y as int),
        ensures
            r == cell_index(x as int, y as int),
            r < CHUNK_CELLS,
    {
        (y * CHUNK_WIDTH + x) as usize
    }

    /// The material at `(x, y)`, or `None` outside the chunk.
    pub fn get(&self, x: i32, y: i32) -> (r: Option<&PixelType>)
        requires
            self.wf(),
        ensures
            in_chunk(x as int, y as int) ==> r == Some(&self@[cell_index(x as int, y as int)]),
            !in_chunk(x as int, y as int) ==> r is None,
    {
        if x < 0 || x >= CHUNK_WIDTH || y < 0 || y >= CHUNK_HEIGHT {
            return None;
        }
        Some(&self.chunk[Chunk::index(x, y)])
    }

    pub fn set(&mut self, x: i32, y: i32, pixel: PixelType)
        requires
            old(self).wf(),
            in_chunk(x as int, y as int),
        ensures
            final(self)@ == old(self)@.update(cell_index(x as int, y as int), pixel),
            final(self).spec_key() == old(self).spec_key(),
            final(self).claims() == old(self).claims(),
            final(self).wf(),
    {
        let index = Chunk::index(x, y);
        self.chunk.set(index, pixel);
    }

    /// Resets the cell at `(x, y)` to air and returns what it held.
    pub fn remove(&mut self, x: i32, y: i32) -> (r: PixelType)
        requires
            old(self).wf(),
            in_chunk(x as int, y as int),
        ensures
            r == old(self)@[cell_index(x as int, y as int)],
            final(self)@ == old(self)@.update(cell_index(x as int, y as int), PixelType::Air),
            final(self).spec_key() == old(self).spec_key(),
            final(self).claims() == old(self).claims(),
            final(self).wf(),
    {
        let index = Chunk::index(x, y);
        let old = self.chunk[index];
        self.chunk.set(index, PixelType::Air);
        old
    }

    /// Resets every cell to air.
    pub fn clear(&mut self)
        requires
            old(self).wf(),
        ensures
            final(self)@ == air_cells(CHUNK_CELLS as nat),
            final(self).spec_key() == old(self).spec_key(),
            final(self).claims() == old(self).claims(),
            final(self).wf(),
    {
        self.chunk = vec![PixelType::Air; CHUNK_CELLS];
        assert(self@ =~= air_cells(CHUNK_CELLS as nat));
    }

    /// Runs the local tick: every cell proposes under its material's rule,
    /// the proposals are applied in random order, and the ones that leave the
    /// chunk are returned, with their keys resolved, for the grid to settle.
    pub fn update(&mut self, rng: &RandGenerator) -> (r: Vec<GridMovement>)
        requires
            old(self).wf(),
        ensures
            final(self).wf(),
            final(self).spec_key() == old(self).spec_key(),
            forall|m: PixelType| count_material(final(self)@, m) == count_material(old(self)@, m),
            occupied(final(self)@) == occupied(old(self)@),
            forall|k: int|
                0 <= k < r@.len() ==> (#[trigger] r@[k]).old_chunk == Some(old(self).spec_key())
                    && r@[k].new_chunk is Some,
            all_air(old(self)@) ==> final(self)@ == old(self)@ && r@.len() == 0,
            local_tick(old(self)@, old(self).spec_key(), final(self)@, r@),
    {
        self.last_updates = vec![false; CHUNK_CELLS];
        assert(self.claims() =~= no_claims());
        let mut changes = self.proposals(rng);
        proof {
            if all_air(self@) {
                lemma_air_proposes_nothing(self@, CHUNK_CELLS as int);
            }
        }
        let ghost proposed = changes@;
        shuffle_movements(&mut changes, rng);
        let ghost start: PassState = (self@, self.claims(), seq![]);
        proof {
            broadcast use vstd::seq_lib::group_to_multiset_ensures;

            assert(changes@.len() == proposed.len()) by {
                assert(changes@.to_multiset().len() == changes@.len());
                assert(proposed.to_multiset().len() == proposed.len());
            }
            if all_air(self@) {
                assert(changes@ =~= Seq::<GridMovement>::empty());
            }
        }
        let r = self.apply_movements(changes);
        proof {
            assert(proposals_of(old(self)@, proposed));
            assert((self@, r@) == pass_outcome(local_pass(start, changes@, self.key)));
            lemma_local_pass_conserves(start, changes@, self.key);
            lemma_occupied_is_non_air(old(self)@);
            lemma_occupied_is_non_air(self@);
        }
        r
    }

    /// The movements that the cells propose, in raster order.
    fn proposals(&self, rng: &RandGenerator) -> (r: Vec<GridMovement>)
        requires
            self.wf(),
        ensures
            proposals_of(self@, r@),
    {
        let mut changes: Vec<GridMovement> = Vec::new();
        let mut i: usize = 0;
        while i < CHUNK_CELLS
            invariant
                self.wf(),
                i <= CHUNK_CELLS,
                changes@.len() == moving_cells(self@, i as int).len(),
                forall|k: int|
                    0 <= k < changes@.len() ==> proposed_for(
                        self@,
                        moving_cells(self@, i as int)[k],
                        #[trigger] changes@[k],
                    ),
            decreases CHUNK_CELLS - i,
        {
            let x = (i % (CHUNK_WIDTH as usize)) as i32;
            let y = (i / (CHUNK_WIDTH as usize)) as i32;
            proof {
                lemma_fundamental_div_mod(i as int, CHUNK_WIDTH as int);
                lemma_div_is_ordered(i as int, CHUNK_CELLS as int, CHUNK_WIDTH as int);
                assert(in_chunk(x as int, y as int));
            }
            let pixel_type = self.chunk[i];
            let proposed = pixel_type.update(self, x, y, rng);
            proof {
                assert(cell_index(x as int, y as int) == i);
                lemma_moves_whatever_direction(pixel_type, self@, x as int, y as int, 0);
                let d = choose|d: int|
                    0 <= d < 2 && proposed == proposal(pixel_type, self@, x, y, d);
                lemma_moves_whatever_direction(pixel_type, self@, x as int, y as int, d);
            }
            match proposed {
                Some(movement) => {
                    changes.push(movement);
                },
                None => {},
            }
            i = i + 1;
        }
        changes
    }

    /// Applies `changes` in order to this chunk: the local pass.
    pub fn apply_movements(&mut self, changes: Vec<GridMovement>) -> (r: Vec<GridMovement>)
        requires
            old(self).wf(),
        ensures
            final(self).wf(),
            final(self).spec_key() == old(self).spec_key(),
            (final(self)@, final(self).claims(), r@) == local_pass(
                (old(self)@, old(self).claims(), seq![]),
                changes@,
                old(self).spec_key(),
            ),
    {
        let ghost start: PassState = (self@, self.claims(), seq![]);
        let mut cross_chunk_movements: Vec<GridMovement> = Vec::new();
        let n = changes.len();
        let mut k: usize = 0;
        while k < n
            invariant
                self.wf(),
                self.spec_key() == old(self).spec_key(),
                start == (old(self)@, old(self).claims(), Seq::<GridMovement>::empty()),
                start.0.len() == CHUNK_CELLS,
                start.1.len() == CHUNK_CELLS,
                n == changes@.len(),
                k <= n,
                (self@, self.claims(), cross_chunk_movements@) == local_pass(
                    start,
                    changes@.take(k as int),
                    self.key,
                ),
            decreases n - k,
        {
            let mut movement = changes[k];
            proof {
                assert(changes@.take(k as int + 1).drop_last() =~= changes@.take(k as int));
                assert(changes@.take(k as int + 1).last() == movement);
                lemma_local_pass_conserves(start, changes@.take(k as int), self.key);
            }
            if movement.out_of_bounds() {
                movement.set_chunk_keys(self.key);
                cross_chunk_movements.push(movement);
            } else {
                let (nx, ny) = movement.new_position;
                let destination = Chunk::index(nx, ny);
                if !self.last_updates[destination] {
                    let (ox, oy) = movement.old_position;
                    if 0 <= ox && ox < CHUNK_WIDTH && 0 <= oy && oy < CHUNK_HEIGHT
                        && movement.pixel_type != PixelType::Air {
                        let source = Chunk::index(ox, oy);
                        if self.chunk[source] == movement.pixel_type && self.chunk[destination]
                            == PixelType::Air {
                            self.remove(ox, oy);
                            self.set(nx, ny, movement.pixel_type);
                            self.last_updates.set(destination, true);
                        }
                    }
                }
            }
            k = k + 1;
        }
        proof {
            assert(changes@.take(n as int) =~= changes@);
        }
        cross_chunk_movements
    }
}

} // verus!
