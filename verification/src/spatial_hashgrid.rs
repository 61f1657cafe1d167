use std::collections::HashSet;
use std::hash::Hash;
use vstd::prelude::*;

use crate::math_2d::Vector;
use crate::PhysicalSize;

verus! {

broadcast use vstd::std_specs::hash::group_hash_axioms;

/// The least number of cells of length `cell` that cover `extent`: the
/// quotient rounded up. For a negative `extent` it is the quotient rounded
/// towards zero.
pub open spec fn ceil_div(extent: int, cell: int) -> int {
    (extent + cell - 1) / cell
}

/// The cell of one axis that a coordinate falls in, before the index is
/// brought into the grid. The coordinate is divided by the length of a cell
/// and rounded up: cell `k` takes the coordinates above `(k - 1) * cell` up to
/// `k * cell`, the line between two cells included. No coordinate lies beyond
/// the last cell.
pub open spec fn axis_cell(coordinate: int, cell: int, cells: int) -> int {
    if ceil_div(coordinate, cell) < cells - 1 {
        ceil_div(coordinate, cell)
    } else {
        cells - 1
    }
}

/// The index of the bucket of `position` in a row-major grid of
/// `columns * rows` buckets: the column plus the row times the row length,
/// kept inside the grid at both ends.
pub open spec fn bucket_index(
    position: Vector,
    cell_width: int,
    cell_height: int,
    columns: int,
    rows: int,
) -> int {
    let flat = axis_cell(position.x as int, cell_width, columns) + axis_cell(
        position.y as int,
        cell_height,
        rows,
    ) * columns;
    if flat < 0 {
        0
    } else if flat < columns * rows - 1 {
        flat
    } else {
        columns * rows - 1
    }
}

/// The buckets after `element` was inserted into the one at `index`.
pub open spec fn with_inserted<T>(buckets: Seq<Set<T>>, index: int, element: T) -> Seq<Set<T>> {
    buckets.update(index, buckets[index].insert(element))
}

/// The buckets after `element` was removed from the one at `index`.
pub open spec fn with_removed<T>(buckets: Seq<Set<T>>, index: int, element: T) -> Seq<Set<T>> {
    buckets.update(index, buckets[index].remove(element))
}

/// An element that is inserted and then removed at the same bucket is found
/// by the removal and is gone after it; if the bucket did not hold it before,
/// all buckets are as they were.
pub proof fn lemma_insert_then_remove<T>(buckets: Seq<Set<T>>, index: int, element: T)
    requires
        0 <= index < buckets.len(),
    ensures
        with_inserted(buckets, index, element)[index].contains(element),
        !with_removed(with_inserted(buckets, index, element), index, element)[index].contains(
            element,
        ),
        !buckets[index].contains(element) ==> with_removed(
            with_inserted(buckets, index, element),
            index,
            element,
        ) == buckets,
{
    if !buckets[index].contains(element) {
        assert(with_removed(with_inserted(buckets, index, element), index, element) =~~= buckets);
    }
}

/// `ceil_div` is the quotient rounded up: the least number of cells that
/// reach `extent`.
pub proof fn lemma_ceil_div_is_least_cover(extent: int, cell: int)
    requires
        cell > 0,
    ensures
        ceil_div(extent, cell) * cell >= extent,
        (ceil_div(extent, cell) - 1) * cell < extent,
{
    let q = ceil_div(extent, cell);
    assert(q * cell >= extent && (q - 1) * cell < extent) by (nonlinear_arith)
        requires
            q == (extent + cell - 1) / cell,
            cell > 0,
    ;
}

/// A uniform grid over a bounded area that keeps each element in the bucket of
/// the position it was inserted at. The grid does not remember where an element
/// lies: it is removed and asked for with the position used at insertion.
pub struct SpatialHashgrid<T> where T: Eq + Hash {
    /// Number of cells along each axis.
    grid_size: PhysicalSize<u32>,
    /// Dimensions of one cell.
    cell_size: PhysicalSize<u32>,
    grid: Vec<HashSet<T>>,
}

impl<T> SpatialHashgrid<T> where T: Eq + Hash {
    /// The buckets in row-major order, each as the set of its elements.
    pub closed spec fn buckets(&self) -> Seq<Set<T>> {
        Seq::new(self.grid@.len(), |i: int| self.grid@[i]@)
    }

    /// Number of cells along the x axis.
    pub closed spec fn columns(&self) -> int {
        self.grid_size.width as int
    }

    /// Number of cells along the y axis.
    pub closed spec fn rows(&self) -> int {
        self.grid_size.height as int
    }

    pub closed spec fn cell_width(&self) -> int {
        self.cell_size.width as int
    }

    pub closed spec fn cell_height(&self) -> int {
        self.cell_size.height as int
    }

    /// The grid has a bucket for every cell, and at least one cell.
    #[verifier::type_invariant]
    pub closed spec fn wf(&self) -> bool {
        &&& self.cell_size.width > 0
        &&& self.cell_size.height > 0
        &&& self.grid_size.width > 0
        &&& self.grid_size.height > 0
        &&& self.grid@.len() == self.grid_size.width * self.grid_size.height
    }

    /// Both grids cover the same area with cells of the same dimensions.
    pub open spec fn same_layout(&self, other: Self) -> bool {
        &&& self.columns() == other.columns()
        &&& self.rows() == other.rows()
        &&& self.cell_width() == other.cell_width()
        &&& self.cell_height() == other.cell_height()
        &&& self.buckets().len() == other.buckets().len()
    }

    /// The bucket that `position` belongs to.
    pub open spec fn bucket_of(&self, position: Vector) -> int {
        bucket_index(position, self.cell_width(), self.cell_height(), self.columns(), self.rows())
    }

    /// Every position has its bucket inside the grid.
    pub proof fn lemma_bucket_in_grid(&self, position: Vector)
        requires
            self.wf(),
        ensures
            0 <= self.bucket_of(position) < self.buckets().len(),
    {
        assert(self.columns() * self.rows() >= 1) by (nonlinear_arith)
            requires
                self.columns() >= 1,
                self.rows() >= 1,
        ;
    }

    /// Creates a grid over an area of `grid_size` whose cells have the
    /// dimensions `cell_size`; all buckets are empty.
    pub fn new(grid_size: PhysicalSize<u32>, cell_size: PhysicalSize<u32>) -> (grid: Self)
        requires
            grid_size.width > 0,
            grid_size.height > 0,
            cell_size.width > 0,
            cell_size.height > 0,
            ceil_div(grid_size.width as int, cell_size.width as int) * ceil_div(
                grid_size.height as int,
                cell_size.height as int,
            ) <= usize::MAX,
        ensures
            grid.wf(),
            grid.columns() == ceil_div(grid_size.width as int, cell_size.width as int),
            grid.rows() == ceil_div(grid_size.height as int, cell_size.height as int),
            grid.cell_width() == cell_size.width,
            grid.cell_height() == cell_size.height,
            grid.buckets().len() == grid.columns() * grid.rows(),
            forall|i: int| 0 <= i < grid.buckets().len() ==> grid.buckets()[i] == Set::<T>::empty(),
    {
        let columns: u64 = (grid_size.width as u64 + cell_size.width as u64 - 1) / (
        cell_size.width as u64);
        let rows: u64 = (grid_size.height as u64 + cell_size.height as u64 - 1) / (
        cell_size.height as u64);
        assert(columns == ceil_div(grid_size.width as int, cell_size.width as int));
        assert(rows == ceil_div(grid_size.height as int, cell_size.height as int));
        assert(0 < columns <= u32::MAX && 0 < rows <= u32::MAX) by (nonlinear_arith)
            requires
                columns == (grid_size.width as int + cell_size.width as int - 1) / (
                cell_size.width as int),
                rows == (grid_size.height as int + cell_size.height as int - 1) / (
                cell_size.height as int),
                0 < grid_size.width <= u32::MAX,
                0 < grid_size.height <= u32::MAX,
                0 < cell_size.width <= u32::MAX,
                0 < cell_size.height <= u32::MAX,
        ;
        let amount: u64 = columns * rows;
        let mut grid: Vec<HashSet<T>> = Vec::new();
        let mut i: u64 = 0;
        while i < amount
            invariant
                i <= amount,
                grid@.len() == i,
                forall|j: int| 0 <= j < i ==> (#[trigger] grid@[j]@) == Set::<T>::empty(),
            decreases amount - i,
        {
            grid.push(HashSet::new());
            i += 1;
        }
        Self {
            grid_size: PhysicalSize::new(columns as u32, rows as u32),
            cell_size,
            grid,
        }
    }

    /// The index of the bucket that `position` belongs to.
    pub fn spatial_hash(&self, position: &Vector) -> (index: usize)
        ensures
            index == self.bucket_of(*position),
            index < self.buckets().len(),
    {
        proof {
            use_type_invariant(self);
        }
        let column = axis_cell_of(position.x, self.cell_size.width, self.grid_size.width);
        let row = axis_cell_of(position.y, self.cell_size.height, self.grid_size.height);
        let columns: i128 = self.grid_size.width as i128;
        assert(-0x8000_0000_0000_0000 * 0x1_0000_0000 <= row * columns <= 0x1_0000_0000
            * 0x1_0000_0000) by (nonlinear_arith)
            requires
                -0x8000_0000_0000_0000 <= row < 0x1_0000_0000,
                0 < columns < 0x1_0000_0000,
        ;
        let flat: i128 = column + row * columns;
        assert(self.grid@.len() >= 1) by (nonlinear_arith)
            requires
                self.grid@.len() == self.grid_size.width * self.grid_size.height,
                self.grid_size.width > 0,
                self.grid_size.height > 0,
        ;
        let last: usize = self.grid.len() - 1;
        if flat < 0 {
            0
        } else if flat < last as i128 {
            flat as usize
        } else {
            last
        }
    }

    /// Adds `element` to the bucket of `position`. Returns whether it was
    /// newly inserted: `false` says that the bucket held it already, and nothing
    /// has changed.
    pub fn insert(&mut self, element: T, position: &Vector) -> (newly: bool)
        ensures
            final(self).same_layout(*old(self)),
            vstd::std_specs::hash::obeys_key_model::<T>() ==> {
                &&& newly == !old(self).buckets()[old(self).bucket_of(*position)].contains(element)
                &&& final(self).buckets() == with_inserted(
                    old(self).buckets(),
                    old(self).bucket_of(*position),
                    element,
                )
            },
    {
        proof {
            use_type_invariant(&*self);
        }
        let index = self.spatial_hash(position);
        let newly = self.grid[index].insert(element);
        proof {
            assert(final(self).buckets().len() == old(self).buckets().len());
            if vstd::std_specs::hash::obeys_key_model::<T>() {
                assert(self.buckets() =~= old(self).buckets().update(
                    index as int,
                    old(self).buckets()[index as int].insert(element),
                ));
            }
        }
        newly
    }

    /// Removes `element` from the bucket of `position`. Returns whether the
    /// bucket held it.
    pub fn remove(&mut self, element: &T, position: &Vector) -> (present: bool)
        ensures
            final(self).same_layout(*old(self)),
            vstd::std_specs::hash::obeys_key_model::<T>() ==> {
                &&& present == old(self).buckets()[old(self).bucket_of(*position)].contains(
                    *element,
                )
                &&& final(self).buckets() == with_removed(
                    old(self).buckets(),
                    old(self).bucket_of(*position),
                    *element,
                )
            },
    {
        proof {
            use_type_invariant(&*self);
        }
        let index = self.spatial_hash(position);
        let present = self.grid[index].remove(element);
        proof {
            if vstd::std_specs::hash::obeys_key_model::<T>() {
                assert(self.buckets() =~= old(self).buckets().update(
                    index as int,
                    old(self).buckets()[index as int].remove(*element),
                ));
            }
        }
        present
    }

    /// Returns whether the bucket of `position` holds `element`.
    pub fn contains(&self, element: &T, position: &Vector) -> (present: bool)
        ensures
            vstd::std_specs::hash::obeys_key_model::<T>() ==> present == self.buckets()[self.bucket_of(
                *position,
            )].contains(*element),
    {
        let index = self.spatial_hash(position);
        self.grid[index].contains(element)
    }

    /// The elements of the bucket of `position`, each once, in no particular
    /// order.
    pub fn get_cell(&self, position: &Vector) -> (members: Vec<&T>)
        requires
            vstd::std_specs::hash::obeys_key_model::<T>(),
        ensures
            members@.unref().to_set() == self.buckets()[self.bucket_of(*position)],
            members@.no_duplicates(),
            members@.len() == self.buckets()[self.bucket_of(*position)].len(),
    {
        let index = self.spatial_hash(position);
        let bucket = &self.grid[index];
        let mut members: Vec<&T> = Vec::new();
        for element in walk: bucket.iter()
            invariant
                walk.seq() == vstd::std_specs::iter::IteratorSpec::remaining(&bucket.iter()),
                members@ == walk.seq().take(walk.index() as int),
        {
            members.push(element);
        }
        assert(members@ == vstd::std_specs::iter::IteratorSpec::remaining(&bucket.iter()));
        members
    }
}

/// The cell of one axis for a coordinate, see [`axis_cell`].
fn axis_cell_of(coordinate: i64, cell: u32, cells: u32) -> (index: i128)
    requires
        cell > 0,
        cells > 0,
    ensures
        index == axis_cell(coordinate as int, cell as int, cells as int),
        -0x8000_0000_0000_0000 <= index < cells,
{
    let wide: i128 = coordinate as i128;
    let step: i128 = cell as i128;
    let quotient: i128 = if wide > 0 {
        (wide + step - 1) / step
    } else {
        let magnitude: i128 = -wide;
        let towards_zero: i128 = magnitude / step;
        assert(-towards_zero == ceil_div(wide as int, step as int)) by (nonlinear_arith)
            requires
                towards_zero == (-(wide as int)) / (step as int),
                step > 0,
                wide <= 0,
        ;
        -towards_zero
    };
    assert(-0x8000_0000_0000_0000 <= quotient) by (nonlinear_arith)
        requires
            quotient == ceil_div(wide as int, step as int),
            step > 0,
            -0x8000_0000_0000_0000 <= wide,
    ;
    let last: i128 = cells as i128 - 1;
    if quotient < last {
        quotient
    } else {
        last
    }
}

} // verus!
