//! The chunk lattice: world coordinates, the grid of chunks, and the
//! two-phase tick that settles movements across chunk borders.
use vstd::prelude::*;

pub use crate::chunk::{Chunk, GridQuery};
pub use crate::movement::GridMovement;

use crate::chunk::{destination_index, local_tick, query_cells, source_index};
use crate::count::{
    air_cells, all_air, count_material, count_occupied, lemma_count_update,
    lemma_occupied_bounded, lemma_occupied_is_non_air, lemma_occupied_zero, occupied,
};
use crate::movement::{cell_index, in_chunk};
use crate::pixel::PixelType;
use crate::{CHUNK_CELLS, CHUNK_HEIGHT, CHUNK_WIDTH};
use macroquad::rand::RandGenerator;
use vstd::arithmetic::div_mod::lemma_fundamental_div_mod;

verus! {

/// A world position split into the key of its chunk and its position in it.
#[derive(Clone, Copy, Debug, PartialEq, Eq)]
pub struct ChunkPosition {
    pub chunk_key: (i32, i32),
    pub chunk_coordinate: (i32, i32),
}

/// The chunk position of world position `(wx, wy)`: floor division and
/// Euclidean remainder by the chunk size, so that negative coordinates fall
/// into the chunks at negative keys.
pub open spec fn world_to_chunk_position(world_position: (i32, i32)) -> ChunkPosition {
    let (wx, wy) = (world_position.0 as int, world_position.1 as int);
    ChunkPosition {
        chunk_key: ((wx / CHUNK_WIDTH as int) as i32, (wy / CHUNK_HEIGHT as int) as i32),
        chunk_coordinate: ((wx % CHUNK_WIDTH as int) as i32, (wy % CHUNK_HEIGHT as int) as i32),
    }
}

/// The world position of a chunk position.
pub open spec fn local_to_world(p: ChunkPosition) -> (int, int) {
    (
        p.chunk_key.0 * CHUNK_WIDTH + p.chunk_coordinate.0,
        p.chunk_key.1 * CHUNK_HEIGHT + p.chunk_coordinate.1,
    )
}

/// Splitting a world position into chunk and local coordinates and joining
/// them again gives the position back, negative coordinates included; the
/// local coordinates lie inside the chunk.
pub proof fn lemma_world_round_trip(p: (i32, i32))
    ensures
        local_to_world(world_to_chunk_position(p)) == (p.0 as int, p.1 as int),
        in_chunk(
            world_to_chunk_position(p).chunk_coordinate.0 as int,
            world_to_chunk_position(p).chunk_coordinate.1 as int,
        ),
{
    lemma_fundamental_div_mod(p.0 as int, CHUNK_WIDTH as int);
    lemma_fundamental_div_mod(p.1 as int, CHUNK_HEIGHT as int);
    lemma_key_range(p);
}

/// The key of any world position has neighbours on every side within `i32`.
proof fn lemma_key_range(p: (i32, i32))
    ensures
        -13421773 <= p.0 as int / CHUNK_WIDTH as int <= 13421772,
        -23860930 <= p.1 as int / CHUNK_HEIGHT as int <= 23860929,
{
    vstd::arithmetic::div_mod::lemma_div_is_ordered(-2147483648, p.0 as int, CHUNK_WIDTH as int);
    vstd::arithmetic::div_mod::lemma_div_is_ordered(p.0 as int, 2147483647, CHUNK_WIDTH as int);
    vstd::arithmetic::div_mod::lemma_div_is_ordered(-2147483648, p.1 as int, CHUNK_HEIGHT as int);
    vstd::arithmetic::div_mod::lemma_div_is_ordered(p.1 as int, 2147483647, CHUNK_HEIGHT as int);
}

impl ChunkPosition {
    pub fn new(chunk_key: (i32, i32), chunk_coordinate: (i32, i32)) -> (r: Self)
        ensures
            r == (ChunkPosition { chunk_key, chunk_coordinate }),
    {
        Self { chunk_key, chunk_coordinate }
    }

    /// Splits a world position into its chunk key and local coordinate.
    pub fn from_world_position(world_position: (i32, i32)) -> (r: ChunkPosition)
        ensures
            r == world_to_chunk_position(world_position),
    {
        proof {
            lemma_world_round_trip(world_position);
        }
        let (wx, wy) = world_position;
        let cx = wx.checked_div_euclid(CHUNK_WIDTH).unwrap();
        let cy = wy.checked_div_euclid(CHUNK_HEIGHT).unwrap();
        let lx = wx.checked_rem_euclid(CHUNK_WIDTH).unwrap();
        let ly = wy.checked_rem_euclid(CHUNK_HEIGHT).unwrap();
        Self { chunk_key: (cx, cy), chunk_coordinate: (lx, ly) }
    }
}

/// Most chunks a grid may hold; it keeps the total cell count within `u32`.
pub const MAX_CHUNKS: usize = 1024;

/// The keys of `chunks`, in order.
pub open spec fn chunk_keys(chunks: Seq<Chunk>) -> Seq<(i32, i32)> {
    chunks.map_values(|c: Chunk| c.spec_key())
}

/// The cells of each of `chunks`, in order.
pub open spec fn chunk_views(chunks: Seq<Chunk>) -> Seq<Seq<PixelType>> {
    chunks.map_values(|c: Chunk| c@)
}

/// No key occurs twice in `keys`.
pub open spec fn keys_unique(keys: Seq<(i32, i32)>) -> bool {
    forall|i: int, j: int|
        0 <= i < keys.len() && 0 <= j < keys.len() && i != j ==> keys[i] != keys[j]
}

/// `key` occurs in `keys`.
pub open spec fn has_key(keys: Seq<(i32, i32)>, key: (i32, i32)) -> bool {
    exists|i: int| 0 <= i < keys.len() && keys[i] == key
}

/// The position of `key` in `keys`, where it occurs.
pub open spec fn index_of(keys: Seq<(i32, i32)>, key: (i32, i32)) -> int {
    choose|i: int| 0 <= i < keys.len() && keys[i] == key
}

/// Number of cells holding material `m` over all the chunks' cells `views`.
pub open spec fn total_count(views: Seq<Seq<PixelType>>, m: PixelType) -> nat
    decreases views.len(),
{
    if views.len() == 0 {
        0
    } else {
        total_count(views.drop_last(), m) + count_material(views.last(), m)
    }
}

/// Number of cells holding anything but air over all the chunks' cells `views`.
pub open spec fn total_occupied(views: Seq<Seq<PixelType>>) -> nat
    decreases views.len(),
{
    if views.len() == 0 {
        0
    } else {
        total_occupied(views.drop_last()) + occupied(views.last())
    }
}

/// A cross-chunk movement goes ahead on the chunks with keys `keys` and
/// cells `views`: both its chunks exist, its source still holds the moving
/// material, and its destination holds air.
pub open spec fn cross_move_applies(
    keys: Seq<(i32, i32)>,
    views: Seq<Seq<PixelType>>,
    mv: GridMovement,
) -> bool {
    &&& mv.old_chunk is Some
    &&& mv.new_chunk is Some
    &&& has_key(keys, mv.old_chunk->0)
    &&& has_key(keys, mv.new_chunk->0)
    &&& in_chunk(mv.old_position.0 as int, mv.old_position.1 as int)
    &&& in_chunk(mv.new_position.0 as int, mv.new_position.1 as int)
    &&& mv.pixel_type != PixelType::Air
    &&& views[index_of(keys, mv.old_chunk->0)][source_index(mv)] == mv.pixel_type
    &&& views[index_of(keys, mv.new_chunk->0)][destination_index(mv)] == PixelType::Air
}

/// The cells of the `i`th chunk once `mv` has gone ahead: its source
/// cleared, then its destination filled.
pub open spec fn cells_after_cross(
    keys: Seq<(i32, i32)>,
    views: Seq<Seq<PixelType>>,
    mv: GridMovement,
    i: int,
) -> Seq<PixelType> {
    let c = views[i];
    let c1 = if i == index_of(keys, mv.old_chunk->0) {
        c.update(source_index(mv), PixelType::Air)
    } else {
        c
    };
    if i == index_of(keys, mv.new_chunk->0) {
        c1.update(destination_index(mv), mv.pixel_type)
    } else {
        c1
    }
}

/// One cross-chunk movement settled: carried out if it goes ahead, else
/// dropped.
pub open spec fn cross_step(
    keys: Seq<(i32, i32)>,
    views: Seq<Seq<PixelType>>,
    mv: GridMovement,
) -> Seq<Seq<PixelType>> {
    if cross_move_applies(keys, views, mv) {
        Seq::new(views.len(), |i: int| cells_after_cross(keys, views, mv, i))
    } else {
        views
    }
}

/// The movements `moves` settled one after another.
pub open spec fn cross_pass(
    keys: Seq<(i32, i32)>,
    views: Seq<Seq<PixelType>>,
    moves: Seq<GridMovement>,
) -> Seq<Seq<PixelType>>
    decreases moves.len(),
{
    if moves.len() == 0 {
        views
    } else {
        cross_step(keys, cross_pass(keys, views, moves.drop_last()), moves.last())
    }
}

/// The lists of movements `lists` settled one list after another.
pub open spec fn cross_pass_lists(
    keys: Seq<(i32, i32)>,
    views: Seq<Seq<PixelType>>,
    lists: Seq<Seq<GridMovement>>,
) -> Seq<Seq<PixelType>>
    decreases lists.len(),
{
    if lists.len() == 0 {
        views
    } else {
        cross_pass(keys, cross_pass_lists(keys, views, lists.drop_last()), lists.last())
    }
}

/// Every one of `views` holds a whole chunk.
pub open spec fn full_chunks(views: Seq<Seq<PixelType>>) -> bool {
    forall|i: int| 0 <= i < views.len() ==> (#[trigger] views[i]).len() == CHUNK_CELLS
}

/// Replacing the cells of the `i`th chunk changes a total count by the
/// difference of the two counts.
pub proof fn lemma_total_count_update(
    views: Seq<Seq<PixelType>>,
    i: int,
    c: Seq<PixelType>,
    m: PixelType,
)
    requires
        0 <= i < views.len(),
    ensures
        total_count(views.update(i, c), m) as int == total_count(views, m) as int
            - count_material(views[i], m) as int + count_material(c, m) as int,
    decreases views.len(),
{
    let t = views.update(i, c);
    if i == views.len() - 1 {
        assert(t.drop_last() =~= views.drop_last());
    } else {
        assert(t.drop_last() =~= views.drop_last().update(i, c));
        lemma_total_count_update(views.drop_last(), i, c, m);
    }
}

/// A cross-chunk movement keeps the count of every material.
pub proof fn lemma_cross_step_conserves(
    keys: Seq<(i32, i32)>,
    views: Seq<Seq<PixelType>>,
    mv: GridMovement,
)
    requires
        keys.len() == views.len(),
        full_chunks(views),
    ensures
        full_chunks(cross_step(keys, views, mv)),
        cross_step(keys, views, mv).len() == views.len(),
        forall|m: PixelType| total_count(cross_step(keys, views, mv), m) == total_count(views, m),
{
    if cross_move_applies(keys, views, mv) {
        let s = index_of(keys, mv.old_chunk->0);
        let d = index_of(keys, mv.new_chunk->0);
        let after = cross_step(keys, views, mv);
        let v1 = views.update(s, views[s].update(source_index(mv), PixelType::Air));
        let v2 = v1.update(d, v1[d].update(destination_index(mv), mv.pixel_type));
        assert(after =~= v2);
        assert forall|m: PixelType| total_count(after, m) == total_count(views, m) by {
            lemma_total_count_update(views, s, v1[s], m);
            lemma_total_count_update(v1, d, v2[d], m);
            lemma_count_update(views[s], source_index(mv), PixelType::Air, m);
            lemma_count_update(v1[d], destination_index(mv), mv.pixel_type, m);
        }
    }
}

/// Settling a list of movements keeps the count of every material.
pub proof fn lemma_cross_pass_conserves(
    keys: Seq<(i32, i32)>,
    views: Seq<Seq<PixelType>>,
    moves: Seq<GridMovement>,
)
    requires
        keys.len() == views.len(),
        full_chunks(views),
    ensures
        full_chunks(cross_pass(keys, views, moves)),
        cross_pass(keys, views, moves).len() == views.len(),
        forall|m: PixelType|
            total_count(cross_pass(keys, views, moves), m) == total_count(views, m),
    decreases moves.len(),
{
    if moves.len() > 0 {
        lemma_cross_pass_conserves(keys, views, moves.drop_last());
        lemma_cross_step_conserves(keys, cross_pass(keys, views, moves.drop_last()), moves.last());
    }
}

/// The occupied total is the number of cells less the cells of air.
pub proof fn lemma_total_occupied_is_non_air(views: Seq<Seq<PixelType>>)
    requires
        full_chunks(views),
    ensures
        total_occupied(views) + total_count(views, PixelType::Air) == views.len() * CHUNK_CELLS,
        total_occupied(views) <= views.len() * CHUNK_CELLS,
    decreases views.len(),
{
    if views.len() > 0 {
        lemma_total_occupied_is_non_air(views.drop_last());
        lemma_occupied_is_non_air(views.last());
    }
}

/// No cell is occupied exactly when every chunk is all air.
pub proof fn lemma_total_occupied_zero(views: Seq<Seq<PixelType>>)
    ensures
        total_occupied(views) == 0 <==> forall|i: int|
            0 <= i < views.len() ==> all_air(#[trigger] views[i]),
    decreases views.len(),
{
    if views.len() > 0 {
        lemma_total_occupied_zero(views.drop_last());
        lemma_occupied_zero(views.last());
        if forall|i: int| 0 <= i < views.len() ==> all_air(#[trigger] views[i]) {
            assert forall|i: int| 0 <= i < views.drop_last().len() implies all_air(
                #[trigger] views.drop_last()[i],
            ) by {
                assert(all_air(views[i]));
            }
            assert(all_air(views[views.len() - 1]));
        }
        if total_occupied(views) == 0 {
            assert forall|i: int| 0 <= i < views.len() implies all_air(#[trigger] views[i]) by {
                if i < views.len() - 1 {
                    assert(views.drop_last()[i] == views[i]);
                }
            }
        }
    }
}

/// Across chunks, a movement's source is cleared exactly when its
/// destination is written: for a movement whose source holds the moving
/// material, the source ends up air if and only if the movement goes ahead,
/// and then its destination holds the material.
pub proof fn lemma_cross_source_cleared_iff_written(
    keys: Seq<(i32, i32)>,
    views: Seq<Seq<PixelType>>,
    mv: GridMovement,
)
    requires
        keys.len() == views.len(),
        full_chunks(views),
        mv.old_chunk is Some,
        has_key(keys, mv.old_chunk->0),
        in_chunk(mv.old_position.0 as int, mv.old_position.1 as int),
        mv.pixel_type != PixelType::Air,
        views[index_of(keys, mv.old_chunk->0)][source_index(mv)] == mv.pixel_type,
    ensures
        ({
            let written = cross_move_applies(keys, views, mv);
            let after = cross_step(keys, views, mv);
            &&& after[index_of(keys, mv.old_chunk->0)][source_index(mv)] == PixelType::Air
                <==> written
            &&& written ==> after[index_of(keys, mv.new_chunk->0)][destination_index(mv)]
                == mv.pixel_type
        }),
{
}

/// The world: a set of chunks at distinct keys of the lattice, and the
/// random source that breaks movement ties.
pub struct ChunkGrid {
    grid: Vec<Chunk>,
    _seed: u64,
    rng: RandGenerator,
}

impl ChunkGrid {
    /// The chunks, in the order in which the tick visits them.
    pub closed spec fn chunks(&self) -> Seq<Chunk> {
        self.grid@
    }

    /// The chunks' keys, in tick order.
    pub open spec fn keys(&self) -> Seq<(i32, i32)> {
        chunk_keys(self.chunks())
    }

    /// The chunks' cells, in tick order.
    pub open spec fn views(&self) -> Seq<Seq<PixelType>> {
        chunk_views(self.chunks())
    }

    pub open spec fn wf(&self) -> bool {
        &&& self.chunks().len() <= MAX_CHUNKS
        &&& forall|i: int| 0 <= i < self.chunks().len() ==> (#[trigger] self.chunks()[i]).wf()
        &&& keys_unique(self.keys())
    }

    /// After the `i`th chunk was changed in place, the keys and cells are
    /// those of the old grid with that chunk replaced.
    proof fn lemma_replaced(&self, before: Seq<Chunk>, i: int)
        requires
            0 <= i < before.len(),
            self.chunks() == before.update(i, self.chunks()[i]),
        ensures
            self.views() == chunk_views(before).update(i, self.chunks()[i]@),
            self.chunks()[i].spec_key() == before[i].spec_key() ==> self.keys() == chunk_keys(
                before,
            ),
    {
        assert(self.views() =~= chunk_views(before).update(i, self.chunks()[i]@));
        if self.chunks()[i].spec_key() == before[i].spec_key() {
            assert(self.keys() =~= chunk_keys(before));
        }
    }

    /// The grid of the four all-air chunks at keys `(0, 0)`, `(0, 1)`,
    /// `(1, 0)` and `(1, 1)`.
    pub fn new(_seed: u64, rng: RandGenerator) -> (r: Self)
        ensures
            r.wf(),
            r.keys() == seq![(0i32, 0i32), (0i32, 1i32), (1i32, 0i32), (1i32, 1i32)],
            r.views() == Seq::new(4, |i: int| air_cells(CHUNK_CELLS as nat)),
    {
        let size = (CHUNK_WIDTH as usize, CHUNK_HEIGHT as usize);
        let mut grid: Vec<Chunk> = Vec::new();
        grid.push(Chunk::new(size, _seed, (0, 0)));
        grid.push(Chunk::new(size, _seed, (0, 1)));
        grid.push(Chunk::new(size, _seed, (1, 0)));
        grid.push(Chunk::new(size, _seed, (1, 1)));
        let r = Self { grid, _seed, rng };
        assert(r.keys() =~= seq![(0i32, 0i32), (0i32, 1i32), (1i32, 0i32), (1i32, 1i32)]);
        assert(r.views() =~= Seq::new(4, |i: int| air_cells(CHUNK_CELLS as nat)));
        r
    }

    /// The chunks of the grid.
    pub fn grid(&self) -> (r: &Vec<Chunk>)
        ensures
            r@ == self.chunks(),
    {
        &self.grid
    }

    /// The position of the chunk with key `key`, if there is one.
    fn find_chunk(&self, key: (i32, i32)) -> (r: Option<usize>)
        requires
            self.wf(),
        ensures
            match r {
                Some(i) => i < self.chunks().len() && i == index_of(self.keys(), key) && has_key(
                    self.keys(),
                    key,
                ),
                None => !has_key(self.keys(), key),
            },
    {
        let mut i: usize = 0;
        while i < self.grid.len()
            invariant
                self.wf(),
                i <= self.chunks().len(),
                forall|j: int| 0 <= j < i ==> self.keys()[j] != key,
            decreases self.chunks().len() - i,
        {
            let k = self.grid[i].key();
            if k.0 == key.0 && k.1 == key.1 {
                proof {
                    let ks = self.keys();
                    assert(ks[i as int] == key);
                    assert(has_key(ks, key));
                    assert(ks[index_of(ks, key)] == key);
                }
                return Some(i);
            }
            i = i + 1;
        }
        None
    }

    /// Number of cells, over all chunks, that hold anything but air.
    pub fn get_total_pixels(&self) -> (r: usize)
        requires
            self.wf(),
        ensures
            r == total_occupied(self.views()),
    {
        let mut res: usize = 0;
        let mut i: usize = 0;
        while i < self.grid.len()
            invariant
                self.wf(),
                i <= self.chunks().len(),
                res == total_occupied(self.views().take(i as int)),
                res <= i * CHUNK_CELLS,
            decreases self.chunks().len() - i,
        {
            proof {
                assert(self.views().take(i as int + 1).drop_last() =~= self.views().take(i as int));
                lemma_occupied_bounded(self.chunks()[i as int]@);
            }
            res = res + count_occupied(self.grid[i].chunk());
            i = i + 1;
        }
        proof {
            assert(self.views().take(i as int) =~= self.views());
        }
        res
    }

    /// Writes `pixel_type` at a world position; where no chunk holds that
    /// position the grid is left as it is.
    pub fn set_pixel(&mut self, world_position: (i32, i32), pixel_type: PixelType)
        requires
            old(self).wf(),
        ensures
            final(self).wf(),
            final(self).keys() == old(self).keys(),
            ({
                let p = world_to_chunk_position(world_position);
                let (k, v) = (old(self).keys(), old(self).views());
                final(self).views() == if has_key(k, p.chunk_key) {
                    v.update(
                        index_of(k, p.chunk_key),
                        v[index_of(k, p.chunk_key)].update(
                            cell_index(p.chunk_coordinate.0 as int, p.chunk_coordinate.1 as int),
                            pixel_type,
                        ),
                    )
                } else {
                    v
                }
            }),
    {
        let chunk_position = ChunkPosition::from_world_position(world_position);
        proof {
            lemma_world_round_trip(world_position);
        }
        match self.find_chunk(chunk_position.chunk_key) {
            Some(i) => {
                let ghost before = self.chunks();
                self.grid[i].set(
                    chunk_position.chunk_coordinate.0,
                    chunk_position.chunk_coordinate.1,
                    pixel_type,
                );
                proof {
                    self.lemma_replaced(before, i as int);
                }
            },
            None => {},
        }
    }

    /// The destination of a movement whose keys are resolved is free: its
    /// chunk exists and the cell there does not hold a material. Beyond the
    /// existing chunks nothing is free.
    pub fn is_free(&self, grid_movement: &GridMovement) -> (r: bool)
        requires
            self.wf(),
        ensures
            r == (grid_movement.new_chunk is Some && has_key(
                self.keys(),
                grid_movement.new_chunk->0,
            ) && query_cells(
                self.views()[index_of(self.keys(), grid_movement.new_chunk->0)],
                grid_movement.new_position.0 as int,
                grid_movement.new_position.1 as int,
            ).spec_is_free()),
    {
        match grid_movement.new_chunk {
            None => false,
            Some(chunk_key) => match self.find_chunk(chunk_key) {
                None => false,
                Some(i) => self.grid[i].query(
                    grid_movement.new_position.0,
                    grid_movement.new_position.1,
                ).is_free(),
            },
        }
    }

    /// The chunk that holds the destination of a movement whose keys are
    /// resolved, where that destination is free as `is_free` says.
    pub fn get_chunk_if_free(&self, grid_movement: &GridMovement) -> (r: Option<&Chunk>)
        requires
            self.wf(),
        ensures
            ({
                let (k, v) = (self.keys(), self.views());
                let free = grid_movement.new_chunk is Some && has_key(
                    k,
                    grid_movement.new_chunk->0,
                ) && query_cells(
                    v[index_of(k, grid_movement.new_chunk->0)],
                    grid_movement.new_position.0 as int,
                    grid_movement.new_position.1 as int,
                ).spec_is_free();
                &&& free ==> r == Some(&self.chunks()[index_of(k, grid_movement.new_chunk->0)])
                &&& !free ==> r is None
            }),
    {
        match grid_movement.new_chunk {
            None => None,
            Some(chunk_key) => match self.find_chunk(chunk_key) {
                None => None,
                Some(i) => {
                    if self.grid[i].query(
                        grid_movement.new_position.0,
                        grid_movement.new_position.1,
                    ).is_free() {
                        Some(&self.grid[i])
                    } else {
                        None
                    }
                },
            },
        }
    }

    /// Resets every cell of every chunk to air.
    pub fn clear(&mut self)
        requires
            old(self).wf(),
        ensures
            final(self).wf(),
            final(self).keys() == old(self).keys(),
            final(self).views() == Seq::new(
                old(self).views().len(),
                |i: int| air_cells(CHUNK_CELLS as nat),
            ),
    {
        let n = self.grid.len();
        let mut i: usize = 0;
        while i < n
            invariant
                n == self.chunks().len(),
                i <= n,
                self.wf(),
                self.keys() == old(self).keys(),
                forall|j: int| 0 <= j < i ==> self.views()[j] == air_cells(CHUNK_CELLS as nat),
            decreases n - i,
        {
            let ghost before = self.chunks();
            let ghost bv = self.views();
            self.grid[i].clear();
            proof {
                self.lemma_replaced(before, i as int);
                assert forall|j: int| 0 <= j < i + 1 implies self.views()[j] == air_cells(
                    CHUNK_CELLS as nat,
                ) by {
                    if j < i {
                        assert(bv[j] == air_cells(CHUNK_CELLS as nat));
                    }
                }
            }
            i = i + 1;
        }
        assert(self.views() =~= Seq::new(n as nat, |i: int| air_cells(CHUNK_CELLS as nat)));
    }

    /// Settles one movement that crosses chunks: if it goes ahead, its source
    /// is cleared and its destination filled; otherwise nothing changes.
    /// Reports whether it went ahead.
    pub fn apply_cross_movement(&mut self, movement: &GridMovement) -> (r: bool)
        requires
            old(self).wf(),
        ensures
            final(self).wf(),
            final(self).keys() == old(self).keys(),
            r == cross_move_applies(old(self).keys(), old(self).views(), *movement),
            final(self).views() == cross_step(old(self).keys(), old(self).views(), *movement),
    {
        let ghost (k, v) = (self.keys(), self.views());
        let (old_key, new_key) = match (movement.old_chunk, movement.new_chunk) {
            (Some(o), Some(n)) => (o, n),
            _ => {
                return false;
            },
        };
        let source_chunk = match self.find_chunk(old_key) {
            Some(i) => i,
            None => {
                return false;
            },
        };
        let destination_chunk = match self.find_chunk(new_key) {
            Some(i) => i,
            None => {
                return false;
            },
        };
        let (ox, oy) = movement.old_position;
        let (nx, ny) = movement.new_position;
        if !(0 <= ox && ox < CHUNK_WIDTH && 0 <= oy && oy < CHUNK_HEIGHT) {
            return false;
        }
        if !(0 <= nx && nx < CHUNK_WIDTH && 0 <= ny && ny < CHUNK_HEIGHT) {
            return false;
        }
        if movement.pixel_type == PixelType::Air {
            return false;
        }
        if self.grid[source_chunk].chunk()[Chunk::index(ox, oy)] != movement.pixel_type {
            return false;
        }
        match self.grid[destination_chunk].query(nx, ny) {
            GridQuery::Free => {},
            _ => {
                return false;
            },
        }
        let ghost c0 = self.chunks();
        self.grid[source_chunk].remove(ox, oy);
        proof {
            self.lemma_replaced(c0, source_chunk as int);
        }
        let ghost c1 = self.chunks();
        self.grid[destination_chunk].set(nx, ny, movement.pixel_type);
        proof {
            self.lemma_replaced(c1, destination_chunk as int);
            assert(self.views() =~= cross_step(k, v, *movement));
        }
        true
    }

    /// Settles `movements`, movements that cross chunks, one after another.
    pub fn apply_cross_movements(&mut self, movements: &Vec<GridMovement>)
        requires
            old(self).wf(),
        ensures
            final(self).wf(),
            final(self).keys() == old(self).keys(),
            final(self).views() == cross_pass(old(self).keys(), old(self).views(), movements@),
    {
        let mut b: usize = 0;
        while b < movements.len()
            invariant
                b <= movements@.len(),
                self.wf(),
                self.keys() == old(self).keys(),
                self.views() == cross_pass(
                    old(self).keys(),
                    old(self).views(),
                    movements@.take(b as int),
                ),
            decreases movements@.len() - b,
        {
            proof {
                assert(movements@.take(b as int + 1).drop_last() =~= movements@.take(b as int));
            }
            self.apply_cross_movement(&movements[b]);
            b = b + 1;
        }
        proof {
            assert(movements@.take(b as int) =~= movements@);
        }
    }

    /// One tick. First every chunk runs its local tick and hands on the
    /// movements that leave it; then those lists are settled, one after
    /// another, against the chunks they enter. Every material keeps its cell
    /// count, and a grid of air stays air.
    pub fn update(&mut self)
        requires
            old(self).wf(),
        ensures
            final(self).wf(),
            final(self).keys() == old(self).keys(),
            exists|mid: Seq<Seq<PixelType>>, crosses: Seq<Seq<GridMovement>>|
                {
                    &&& mid.len() == old(self).views().len()
                    &&& crosses.len() == mid.len()
                    &&& forall|i: int|
                        0 <= i < mid.len() ==> local_tick(
                            old(self).views()[i],
                            old(self).keys()[i],
                            #[trigger] mid[i],
                            crosses[i],
                        )
                    &&& final(self).views() == #[trigger] cross_pass_lists(
                        old(self).keys(),
                        mid,
                        crosses,
                    )
                },
            forall|m: PixelType|
                total_count(final(self).views(), m) == total_count(old(self).views(), m),
            total_occupied(final(self).views()) == total_occupied(old(self).views()),
            (forall|i: int|
                0 <= i < old(self).views().len() ==> all_air(#[trigger] old(self).views()[i]))
                ==> forall|i: int|
                0 <= i < final(self).views().len() ==> all_air(#[trigger] final(self).views()[i]),
    {
        let ghost keys = self.keys();
        let ghost start = self.views();
        let ghost mut crosses: Seq<Seq<GridMovement>> = seq![];
        let mut cross_chunk_movements: Vec<Vec<GridMovement>> = Vec::new();
        let n = self.grid.len();
        let mut i: usize = 0;
        while i < n
            invariant
                n == self.chunks().len(),
                i <= n,
                self.wf(),
                self.keys() == keys,
                keys == old(self).keys(),
                start == old(self).views(),
                crosses.len() == i,
                cross_chunk_movements@.len() == i,
                forall|j: int| 0 <= j < i ==> (#[trigger] cross_chunk_movements@[j])@ == crosses[j],
                forall|j: int|
                    0 <= j < i ==> local_tick(
                        start[j],
                        keys[j],
                        self.views()[j],
                        #[trigger] crosses[j],
                    ),
                forall|j: int| i <= j < n ==> #[trigger] self.views()[j] == start[j],
                forall|m: PixelType| total_count(self.views(), m) == total_count(start, m),
            decreases n - i,
        {
            let ghost before = self.chunks();
            let ghost bv = self.views();
            let ghost before_moves = cross_chunk_movements@;
            let moves = self.grid[i].update(&self.rng);
            proof {
                self.lemma_replaced(before, i as int);
                assert forall|j: int|
                    0 <= j < i + 1 implies local_tick(
                    start[j],
                    keys[j],
                    self.views()[j],
                    #[trigger] crosses.push(moves@)[j],
                ) by {
                    if j < i {
                        assert(bv[j] == self.views()[j]);
                        assert(local_tick(start[j], keys[j], bv[j], crosses[j]));
                        assert(crosses.push(moves@)[j] == crosses[j]);
                    } else {
                        assert(bv[j] == start[j]);
                    }
                }
                assert forall|j: int|
                    i + 1 <= j < n implies #[trigger] self.views()[j] == start[j] by {
                    assert(bv[j] == start[j]);
                }
                assert forall|m: PixelType|
                    total_count(self.views(), m) == total_count(start, m) by {
                    let replaced = self.views()[i as int];
                    lemma_total_count_update(chunk_views(before), i as int, replaced, m);
                }
                crosses = crosses.push(moves@);
            }
            cross_chunk_movements.push(moves);
            proof {
                assert forall|j: int| 0 <= j < i + 1 implies (#[trigger] cross_chunk_movements@[j])@
                    == crosses[j] by {
                    if j < i {
                        assert(cross_chunk_movements@[j] == before_moves[j]);
                    }
                }
            }
            i = i + 1;
        }
        let ghost mid = self.views();
        let mut a: usize = 0;
        while a < cross_chunk_movements.len()
            invariant
                a <= cross_chunk_movements@.len(),
                cross_chunk_movements@.len() == crosses.len(),
                forall|j: int|
                    0 <= j < crosses.len() ==> (#[trigger] cross_chunk_movements@[j])@ == crosses[j],
                self.wf(),
                self.keys() == keys,
                self.views() == cross_pass_lists(keys, mid, crosses.take(a as int)),
            decreases cross_chunk_movements@.len() - a,
        {
            proof {
                assert(crosses.take(a as int + 1).drop_last() =~= crosses.take(a as int));
            }
            self.apply_cross_movements(&cross_chunk_movements[a]);
            a = a + 1;
        }
        proof {
            assert(crosses.take(a as int) =~= crosses);
            lemma_cross_pass_lists_conserves(keys, mid, crosses);
            let (f, o) = (self.views(), old(self).views());
            lemma_total_occupied_is_non_air(f);
            lemma_total_occupied_is_non_air(o);
            lemma_total_occupied_zero(f);
            lemma_total_occupied_zero(o);
        }
    }
}

/// Settling lists of movements one after another keeps the count of every
/// material.
pub proof fn lemma_cross_pass_lists_conserves(
    keys: Seq<(i32, i32)>,
    views: Seq<Seq<PixelType>>,
    lists: Seq<Seq<GridMovement>>,
)
    requires
        keys.len() == views.len(),
        full_chunks(views),
    ensures
        full_chunks(cross_pass_lists(keys, views, lists)),
        cross_pass_lists(keys, views, lists).len() == views.len(),
        forall|m: PixelType|
            total_count(cross_pass_lists(keys, views, lists), m) == total_count(views, m),
    decreases lists.len(),
{
    if lists.len() > 0 {
        lemma_cross_pass_lists_conserves(keys, views, lists.drop_last());
        lemma_cross_pass_conserves(
            keys,
            cross_pass_lists(keys, views, lists.drop_last()),
            lists.last(),
        );
    }
}

} // verus!
