//! Movement proposals and the local geometry of a chunk.
use vstd::prelude::*;

use crate::pixel::PixelType;
use crate::{CHUNK_HEIGHT, CHUNK_WIDTH};

verus! {

/// `(x, y)` lies inside a chunk.
pub open spec fn in_chunk(x: int, y: int) -> bool {
    0 <= x < CHUNK_WIDTH && 0 <= y < CHUNK_HEIGHT
}

/// Position of local cell `(x, y)` in a chunk's storage: rows one after another.
pub open spec fn cell_index(x: int, y: int) -> int {
    y * CHUNK_WIDTH + x
}

/// A chunk key that has a neighbour on every side within `i32`.
pub open spec fn key_in_range(key: (i32, i32)) -> bool {
    i32::MIN < key.0 < i32::MAX && i32::MIN < key.1 < i32::MAX
}

/// One lattice step along an axis: the change of key and the coordinate in
/// the chunk reached.
pub open spec fn wrap_axis(v: int, size: int) -> (int, int) {
    if v >= size {
        (1, v - size)
    } else if v < 0 {
        (-1, v + size)
    } else {
        (0, v)
    }
}

/// A movement proposed by the rule of the material at `old_position`: where it
/// goes, and, once the grid has resolved them, the keys of the chunk that it
/// leaves and of the chunk that it enters.
#[derive(Clone, Copy, Debug, PartialEq, Eq)]
pub struct GridMovement {
    pub old_position: (i32, i32),
    pub new_position: (i32, i32),
    pub old_chunk: Option<(i32, i32)>,
    pub new_chunk: Option<(i32, i32)>,
    pub pixel_type: PixelType,
}

impl GridMovement {
    /// The movement with its chunk keys resolved from the key of the chunk
    /// that proposed it: a destination one step past an edge lies in the
    /// neighbour on that side.
    pub open spec fn with_chunk_keys(self, key: (i32, i32)) -> GridMovement {
        let (dx, x) = wrap_axis(self.new_position.0 as int, CHUNK_WIDTH as int);
        let (dy, y) = wrap_axis(self.new_position.1 as int, CHUNK_HEIGHT as int);
        GridMovement {
            old_position: self.old_position,
            new_position: (x as i32, y as i32),
            old_chunk: Some(key),
            new_chunk: Some(((key.0 + dx) as i32, (key.1 + dy) as i32)),
            pixel_type: self.pixel_type,
        }
    }

    /// The destination lies outside the proposing chunk.
    pub open spec fn spec_out_of_bounds(self) -> bool {
        !in_chunk(self.new_position.0 as int, self.new_position.1 as int)
    }

    pub fn new(old_position: (i32, i32), new_position: (i32, i32), pixel_type: PixelType) -> (r:
        Self)
        ensures
            r == (GridMovement {
                old_position,
                new_position,
                old_chunk: None,
                new_chunk: None,
                pixel_type,
            }),
    {
        Self { old_position, new_position, old_chunk: None, new_chunk: None, pixel_type }
    }

    pub fn out_of_bounds(&self) -> (r: bool)
        ensures
            r == self.spec_out_of_bounds(),
    {
        if self.new_position.0 >= CHUNK_WIDTH || self.new_position.0 < 0 {
            return true;
        }
        if self.new_position.1 >= CHUNK_HEIGHT || self.new_position.1 < 0 {
            return true;
        }
        false
    }

    /// Resolves the chunk keys of the movement, given the key of the chunk
    /// that proposed it.
    pub fn set_chunk_keys(&mut self, current_chunk_key: (i32, i32))
        requires
            key_in_range(current_chunk_key),
        ensures
            *final(self) == old(self).with_chunk_keys(current_chunk_key),
    {
        self.old_chunk = Some(current_chunk_key);
        let mut new_chunk = current_chunk_key;
        let mut x = self.new_position.0;
        let mut y = self.new_position.1;
        if x >= CHUNK_WIDTH {
            new_chunk.0 = new_chunk.0 + 1;
            x = x - CHUNK_WIDTH;
        } else if x < 0 {
            new_chunk.0 = new_chunk.0 - 1;
            x = x + CHUNK_WIDTH;
        }
        if y >= CHUNK_HEIGHT {
            new_chunk.1 = new_chunk.1 + 1;
            y = y - CHUNK_HEIGHT;
        } else if y < 0 {
            new_chunk.1 = new_chunk.1 - 1;
            y = y + CHUNK_HEIGHT;
        }
        self.new_position = (x, y);
        self.new_chunk = Some(new_chunk);
    }
}

} // verus!
