//! Counting cells by material, and how a count moves when one cell changes.
use vstd::prelude::*;

use crate::pixel::PixelType;

verus! {

/// Number of cells of `s` that hold material `m`.
pub open spec fn count_material(s: Seq<PixelType>, m: PixelType) -> nat
    decreases s.len(),
{
    if s.len() == 0 {
        0
    } else {
        count_material(s.drop_last(), m) + if s.last() == m {
            1nat
        } else {
            0nat
        }
    }
}

/// Number of cells of `s` that hold anything but air.
pub open spec fn occupied(s: Seq<PixelType>) -> nat
    decreases s.len(),
{
    if s.len() == 0 {
        0
    } else {
        occupied(s.drop_last()) + if s.last() != PixelType::Air {
            1nat
        } else {
            0nat
        }
    }
}

/// Every cell of `s` holds air.
pub open spec fn all_air(s: Seq<PixelType>) -> bool {
    forall|i: int| 0 <= i < s.len() ==> s[i] == PixelType::Air
}

pub open spec fn indicator(b: bool) -> int {
    if b {
        1
    } else {
        0
    }
}

/// Writing `v` at `i` changes the count of `m` by what leaves and what arrives.
pub proof fn lemma_count_update(s: Seq<PixelType>, i: int, v: PixelType, m: PixelType)
    requires
        0 <= i < s.len(),
    ensures
        count_material(s.update(i, v), m) as int == count_material(s, m) as int - indicator(
            s[i] == m,
        ) + indicator(v == m),
    decreases s.len(),
{
    let t = s.update(i, v);
    if i == s.len() - 1 {
        assert(t.drop_last() =~= s.drop_last());
    } else {
        assert(t.drop_last() =~= s.drop_last().update(i, v));
        lemma_count_update(s.drop_last(), i, v, m);
    }
}

/// The occupied count is the length less the cells of air.
pub proof fn lemma_occupied_is_non_air(s: Seq<PixelType>)
    ensures
        occupied(s) + count_material(s, PixelType::Air) == s.len(),
    decreases s.len(),
{
    if s.len() > 0 {
        lemma_occupied_is_non_air(s.drop_last());
    }
}

/// No cell is occupied exactly when all cells hold air.
pub proof fn lemma_occupied_zero(s: Seq<PixelType>)
    ensures
        occupied(s) == 0 <==> all_air(s),
    decreases s.len(),
{
    if s.len() > 0 {
        lemma_occupied_zero(s.drop_last());
        if all_air(s) {
            assert forall|i: int| 0 <= i < s.drop_last().len() implies s.drop_last()[i]
                == PixelType::Air by {
                assert(s[i] == PixelType::Air);
            }
        }
        if occupied(s) == 0 {
            assert forall|i: int| 0 <= i < s.len() implies s[i] == PixelType::Air by {
                if i < s.len() - 1 {
                    assert(s.drop_last()[i] == s[i]);
                }
            }
        }
    }
}

/// A sequence of air, of the given length.
pub open spec fn air_cells(n: nat) -> Seq<PixelType> {
    Seq::new(n, |i: int| PixelType::Air)
}

/// No more cells are occupied than there are cells.
pub proof fn lemma_occupied_bounded(s: Seq<PixelType>)
    ensures
        occupied(s) <= s.len(),
    decreases s.len(),
{
    if s.len() > 0 {
        lemma_occupied_bounded(s.drop_last());
    }
}

/// Counts the cells of `cells` that hold anything but air.
pub fn count_occupied(cells: &Vec<PixelType>) -> (r: usize)
    ensures
        r == occupied(cells@),
{
    let mut total: usize = 0;
    let mut i: usize = 0;
    while i < cells.len()
        invariant
            i <= cells@.len(),
            total == occupied(cells@.take(i as int)),
            total <= i,
        decreases cells@.len() - i,
    {
        proof {
            assert(cells@.take(i as int + 1).drop_last() =~= cells@.take(i as int));
        }
        if cells[i] != PixelType::Air {
            total = total + 1;
        }
        i = i + 1;
    }
    proof {
        assert(cells@.take(i as int) =~= cells@);
    }
    total
}

} // verus!
