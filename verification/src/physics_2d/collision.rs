use std::collections::HashSet;
use vstd::prelude::*;

use crate::physics_2d::body::BodyHandle;
use crate::spatial_hashgrid;
use crate::spatial_hashgrid::SpatialHashgrid;
use crate::math_2d::Vector;
use crate::PhysicalSize;

verus! {

broadcast use vstd::std_specs::hash::group_hash_axioms;

/// A collision layer as sets of identifiers: the two groups, and the buckets
/// of its grid in row-major order.
pub struct LayerView {
    pub obstacles: Set<u128>,
    pub actors: Set<u128>,
    pub buckets: Seq<Set<u128>>,
}

impl LayerView {
    /// Some bucket of the grid holds `id`.
    pub open spec fn indexed(self, id: u128) -> bool {
        exists|i: int| 0 <= i < self.buckets.len() && #[trigger] self.buckets[i].contains(id)
    }

    /// One of the two groups holds `id`.
    pub open spec fn grouped(self, id: u128) -> bool {
        self.obstacles.contains(id) || self.actors.contains(id)
    }

    /// The grid and the groups agree: no body is in both groups, the grid
    /// holds exactly the bodies of the groups, and each of them in one bucket.
    pub open spec fn consistent(self) -> bool {
        &&& self.obstacles.disjoint(self.actors)
        &&& forall|id: u128| #[trigger] self.indexed(id) <==> self.grouped(id)
        &&& forall|i: int, j: int, id: u128|
            0 <= i < self.buckets.len() && 0 <= j < self.buckets.len()
                && #[trigger] self.buckets[i].contains(id) && #[trigger] self.buckets[j].contains(
                id,
            ) ==> i == j
    }

    /// `position`'s bucket is where `id` lies, if the grid holds `id` at all:
    /// what a caller owes who adds or removes a body that may have moved.
    pub open spec fn found_at(self, id: u128, bucket: int) -> bool {
        self.indexed(id) ==> self.buckets[bucket].contains(id)
    }

    /// Whether adding `id` at `bucket` takes place: the bucket must not hold
    /// it yet.
    pub open spec fn accepts(self, id: u128, bucket: int) -> bool {
        !self.buckets[bucket].contains(id)
    }

    /// The layer after `id` was offered at `bucket` for the group that
    /// `is_obstacle` names.
    pub open spec fn add_body(self, id: u128, bucket: int, is_obstacle: bool) -> Self {
        if self.accepts(id, bucket) {
            LayerView {
                obstacles: if is_obstacle {
                    self.obstacles.insert(id)
                } else {
                    self.obstacles
                },
                actors: if is_obstacle {
                    self.actors
                } else {
                    self.actors.insert(id)
                },
                buckets: spatial_hashgrid::with_inserted(self.buckets, bucket, id),
            }
        } else {
            self
        }
    }

    /// Whether removing `id` at `bucket` takes place. The bucket must hold it,
    /// and so must the group asked for: the one that `role` names, or either
    /// of them where it names none.
    pub open spec fn releases(self, id: u128, bucket: int, role: Option<bool>) -> bool {
        self.buckets[bucket].contains(id) && match role {
            Some(true) => self.obstacles.contains(id),
            Some(false) => self.actors.contains(id),
            None => self.grouped(id),
        }
    }

    /// The layer after the removal of `id` at `bucket` was asked for. Where
    /// `role` names no group and both hold the body, the obstacles lose it.
    pub open spec fn remove_body(self, id: u128, bucket: int, role: Option<bool>) -> Self {
        if self.releases(id, bucket, role) {
            let from_obstacles = match role {
                Some(is_obstacle) => is_obstacle,
                None => self.obstacles.contains(id),
            };
            LayerView {
                obstacles: if from_obstacles {
                    self.obstacles.remove(id)
                } else {
                    self.obstacles
                },
                actors: if from_obstacles {
                    self.actors
                } else {
                    self.actors.remove(id)
                },
                buckets: spatial_hashgrid::with_removed(self.buckets, bucket, id),
            }
        } else {
            self
        }
    }
}

impl LayerView {
    /// Adding a body keeps the grid and the groups in agreement, if the
    /// position given is the one the grid knows the body by.
    #[verifier::spinoff_prover]
    pub proof fn lemma_add_keeps_consistent(self, id: u128, bucket: int, is_obstacle: bool)
        requires
            self.consistent(),
            0 <= bucket < self.buckets.len(),
            self.found_at(id, bucket),
        ensures
            self.add_body(id, bucket, is_obstacle).consistent(),
    {
        let after = self.add_body(id, bucket, is_obstacle);
        if self.accepts(id, bucket) {
            assert(!self.indexed(id));
            assert(!self.grouped(id));
            assert(after.buckets[bucket].contains(id));
            assert forall|other: u128| #[trigger] after.indexed(other) <==> after.grouped(
                other,
            ) by {
                if other == id {
                    assert(after.indexed(other));
                } else {
                    if self.indexed(other) {
                        let i = choose|i: int|
                            0 <= i < self.buckets.len() && #[trigger] self.buckets[i].contains(
                                other,
                            );
                        assert(after.buckets[i].contains(other));
                    }
                    if after.indexed(other) {
                        let i = choose|i: int|
                            0 <= i < after.buckets.len() && #[trigger] after.buckets[i].contains(
                                other,
                            );
                        assert(self.buckets[i].contains(other));
                    }
                    assert(self.indexed(other) <==> self.grouped(other));
                }
            }
            assert forall|i: int, j: int, other: u128|
                0 <= i < after.buckets.len() && 0 <= j < after.buckets.len()
                    && #[trigger] after.buckets[i].contains(other)
                    && #[trigger] after.buckets[j].contains(other) implies i == j by {
                if other == id {
                    if i != bucket {
                        assert(self.buckets[i].contains(id));
                    }
                    if j != bucket {
                        assert(self.buckets[j].contains(id));
                    }
                } else {
                    assert(self.buckets[i].contains(other));
                    assert(self.buckets[j].contains(other));
                }
            }
        }
    }

    /// Removing a body keeps the grid and the groups in agreement.
    #[verifier::spinoff_prover]
    pub proof fn lemma_remove_keeps_consistent(self, id: u128, bucket: int, role: Option<bool>)
        requires
            self.consistent(),
            0 <= bucket < self.buckets.len(),
        ensures
            self.remove_body(id, bucket, role).consistent(),
            self.releases(id, bucket, role) ==> !self.remove_body(id, bucket, role).indexed(id)
                && !self.remove_body(id, bucket, role).grouped(id),
    {
        let after = self.remove_body(id, bucket, role);
        if self.releases(id, bucket, role) {
            assert(self.indexed(id));
            assert(self.grouped(id));
            assert(!(self.obstacles.contains(id) && self.actors.contains(id)));
            assert(!after.grouped(id));
            if after.indexed(id) {
                let i = choose|i: int|
                    0 <= i < after.buckets.len() && #[trigger] after.buckets[i].contains(id);
                assert(self.buckets[i].contains(id));
                assert(i == bucket);
            }
            assert forall|other: u128| #[trigger] after.indexed(other) <==> after.grouped(
                other,
            ) by {
                if other != id {
                    if self.indexed(other) {
                        let i = choose|i: int|
                            0 <= i < self.buckets.len() && #[trigger] self.buckets[i].contains(
                                other,
                            );
                        assert(after.buckets[i].contains(other));
                    }
                    if after.indexed(other) {
                        let i = choose|i: int|
                            0 <= i < after.buckets.len() && #[trigger] after.buckets[i].contains(
                                other,
                            );
                        assert(self.buckets[i].contains(other));
                    }
                    assert(self.indexed(other) <==> self.grouped(other));
                }
            }
            assert forall|i: int, j: int, other: u128|
                0 <= i < after.buckets.len() && 0 <= j < after.buckets.len()
                    && #[trigger] after.buckets[i].contains(other)
                    && #[trigger] after.buckets[j].contains(other) implies i == j by {
                assert(self.buckets[i].contains(other));
                assert(self.buckets[j].contains(other));
            }
        }
    }

    /// A body that was added cannot be added again at the same position, in
    /// its own group or in the other: the second call is refused and leaves
    /// the layer as the first one made it.
    pub proof fn lemma_second_add_refused(self, id: u128, bucket: int, first: bool, second: bool)
        requires
            0 <= bucket < self.buckets.len(),
        ensures
            !self.add_body(id, bucket, first).accepts(id, bucket),
            self.add_body(id, bucket, first).add_body(id, bucket, second) == self.add_body(
                id,
                bucket,
                first,
            ),
    {
    }

    /// A body that was added to one group is not removed by a call that names
    /// the other group: the call is refused, the layer stays as it was, and the
    /// grid still holds the body.
    pub proof fn lemma_wrong_role_refused(self, id: u128, bucket: int, is_obstacle: bool)
        requires
            self.consistent(),
            0 <= bucket < self.buckets.len(),
            self.accepts(id, bucket),
            self.found_at(id, bucket),
        ensures
            !self.add_body(id, bucket, is_obstacle).releases(id, bucket, Some(!is_obstacle)),
            self.add_body(id, bucket, is_obstacle).remove_body(id, bucket, Some(!is_obstacle))
                == self.add_body(id, bucket, is_obstacle),
            self.add_body(id, bucket, is_obstacle).indexed(id),
    {
        let after = self.add_body(id, bucket, is_obstacle);
        assert(!self.indexed(id));
        assert(!self.grouped(id));
        assert(after.buckets[bucket].contains(id));
    }

    /// A body that was added is removed by a call that names no group, and by
    /// one that names its own, whichever group it was added to; the layer is
    /// then as it was before the body came.
    pub proof fn lemma_remove_undoes_add(self, id: u128, bucket: int, is_obstacle: bool)
        requires
            self.consistent(),
            0 <= bucket < self.buckets.len(),
            self.accepts(id, bucket),
            self.found_at(id, bucket),
        ensures
            self.add_body(id, bucket, is_obstacle).releases(id, bucket, None),
            self.add_body(id, bucket, is_obstacle).releases(id, bucket, Some(is_obstacle)),
            self.add_body(id, bucket, is_obstacle).remove_body(id, bucket, None) == self,
            self.add_body(id, bucket, is_obstacle).remove_body(id, bucket, Some(is_obstacle))
                == self,
    {
        let after = self.add_body(id, bucket, is_obstacle);
        assert(!self.indexed(id));
        assert(!self.grouped(id));
        assert(after.buckets[bucket].contains(id));
        let by_none = after.remove_body(id, bucket, None);
        let by_role = after.remove_body(id, bucket, Some(is_obstacle));
        assert(by_none.buckets =~~= self.buckets);
        assert(by_none.obstacles =~= self.obstacles);
        assert(by_none.actors =~= self.actors);
        assert(by_role.buckets =~~= self.buckets);
        assert(by_role.obstacles =~= self.obstacles);
        assert(by_role.actors =~= self.actors);
    }
}

/// An area in which bodies that can collide are grouped: obstacles collide
/// with everything in the layer, actors only with obstacles. A grid over the
/// area holds every body of the two groups by its identifier.
pub struct CollisionLayer {
    obstacles: HashSet<u128>,
    actors: HashSet<u128>,
    collision_grid: SpatialHashgrid<u128>,
}

impl View for CollisionLayer {
    type V = LayerView;

    closed spec fn view(&self) -> LayerView {
        LayerView {
            obstacles: self.obstacles@,
            actors: self.actors@,
            buckets: self.collision_grid.buckets(),
        }
    }
}

impl CollisionLayer {
    /// The bucket of the layer's grid that `position` belongs to.
    pub closed spec fn bucket_of(&self, position: Vector) -> int {
        self.collision_grid.bucket_of(position)
    }

    /// The layer's grid is a grid.
    pub closed spec fn wf(&self) -> bool {
        self.collision_grid.wf()
    }

    /// Creates a layer without bodies over an area of `grid_size`, with a grid
    /// whose cells have the dimensions `cell_size`.
    pub fn new(grid_size: PhysicalSize<u32>, cell_size: PhysicalSize<u32>) -> (layer: Self)
        requires
            grid_size.width > 0,
            grid_size.height > 0,
            cell_size.width > 0,
            cell_size.height > 0,
            spatial_hashgrid::ceil_div(grid_size.width as int, cell_size.width as int) * spatial_hashgrid::ceil_div(
                grid_size.height as int,
                cell_size.height as int,
            ) <= usize::MAX,
        ensures
            layer.wf(),
            layer@.obstacles == Set::<u128>::empty(),
            layer@.actors == Set::<u128>::empty(),
            layer@.buckets.len() == spatial_hashgrid::ceil_div(grid_size.width as int, cell_size.width as int)
                * spatial_hashgrid::ceil_div(grid_size.height as int, cell_size.height as int),
            forall|i: int| 0 <= i < layer@.buckets.len() ==> layer@.buckets[i] == Set::<u128>::empty(),
            layer@.consistent(),
    {
        let layer = CollisionLayer {
            obstacles: HashSet::new(),
            actors: HashSet::new(),
            collision_grid: SpatialHashgrid::new(grid_size, cell_size),
        };
        proof {
            use_type_invariant(&layer.collision_grid);
        }
        layer
    }

    /// Adds the body to the layer, to the obstacles or to the actors as
    /// `is_obstacle` says, and to the grid at the body's position. Returns
    /// whether that took place: where the grid holds the body at that position
    /// already, nothing changes and the result is `false`, so a body of one
    /// group does not enter the other before it was removed.
    pub fn add_body(&mut self, collision_body: BodyHandle, is_obstacle: bool) -> (added: bool)
        ensures
            final(self).wf(),
            forall|position: Vector| final(self).bucket_of(position) == old(self).bucket_of(position),
            added == old(self)@.accepts(collision_body.id, old(self).bucket_of(collision_body.position)),
            final(self)@ == old(self)@.add_body(
                collision_body.id,
                old(self).bucket_of(collision_body.position),
                is_obstacle,
            ),
            old(self)@.consistent() && old(self)@.found_at(
                collision_body.id,
                old(self).bucket_of(collision_body.position),
            ) ==> final(self)@.consistent(),
    {
        proof {
            use_type_invariant(&self.collision_grid);
            self.collision_grid.lemma_bucket_in_grid(collision_body.position);
            if self@.consistent() && self@.found_at(
                collision_body.id,
                self.bucket_of(collision_body.position),
            ) {
                self@.lemma_add_keeps_consistent(
                    collision_body.id,
                    self.bucket_of(collision_body.position),
                    is_obstacle,
                );
            }
        }
        let position = collision_body.position;
        if self.collision_grid.insert(collision_body.id, &position) {
            if is_obstacle {
                self.obstacles.insert(collision_body.id);
            } else {
                self.actors.insert(collision_body.id);
            }
            proof {
                use_type_invariant(&self.collision_grid);
            }
            true
        } else {
            proof {
                use_type_invariant(&self.collision_grid);
                old(self).collision_grid.lemma_bucket_in_grid(position);
                assert(self.collision_grid.buckets() =~~= old(self).collision_grid.buckets());
            }
            false
        }
    }

    /// Removes the body from the layer, if the grid holds it at the body's
    /// position and the group asked for holds it: the obstacles for
    /// `Some(true)`, the actors for `Some(false)`, and for `None` the
    /// obstacles first, then the actors. Returns whether the body was removed;
    /// where it was not, nothing has changed.
    pub fn remove_body(&mut self, collision_body: &BodyHandle, is_obstacle: Option<bool>) -> (removed:
        bool)
        ensures
            final(self).wf(),
            forall|position: Vector| final(self).bucket_of(position) == old(self).bucket_of(position),
            removed == old(self)@.releases(
                collision_body.id,
                old(self).bucket_of(collision_body.position),
                is_obstacle,
            ),
            final(self)@ == old(self)@.remove_body(
                collision_body.id,
                old(self).bucket_of(collision_body.position),
                is_obstacle,
            ),
            old(self)@.consistent() ==> final(self)@.consistent(),
    {
        proof {
            use_type_invariant(&self.collision_grid);
            self.collision_grid.lemma_bucket_in_grid(collision_body.position);
            if self@.consistent() {
                self@.lemma_remove_keeps_consistent(
                    collision_body.id,
                    self.bucket_of(collision_body.position),
                    is_obstacle,
                );
            }
        }
        let id = collision_body.id;
        let position = collision_body.position;
        if self.collision_grid.contains(&id, &position) {
            let body_in_layer = match is_obstacle {
                Some(is_obstacle) => {
                    if is_obstacle {
                        self.obstacles.remove(&id)
                    } else {
                        self.actors.remove(&id)
                    }
                },
                None => {
                    if !self.obstacles.remove(&id) {
                        self.actors.remove(&id)
                    } else {
                        true
                    }
                },
            };
            if body_in_layer {
                self.collision_grid.remove(&id, &position);
            }
            proof {
                use_type_invariant(&self.collision_grid);
                assert(self.obstacles@ =~= old(self)@.remove_body(
                    id,
                    old(self).bucket_of(position),
                    is_obstacle,
                ).obstacles);
                assert(self.actors@ =~= old(self)@.remove_body(
                    id,
                    old(self).bucket_of(position),
                    is_obstacle,
                ).actors);
            }
            body_in_layer
        } else {
            proof {
                use_type_invariant(&self.collision_grid);
            }
            false
        }
    }

    /// Whether the grid holds the body at the body's position.
    pub fn contains(&self, collision_body: &BodyHandle) -> (present: bool)
        ensures
            present == self@.buckets[self.bucket_of(collision_body.position)].contains(
                collision_body.id,
            ),
    {
        self.collision_grid.contains(&collision_body.id, &collision_body.position)
    }

    /// Every position has its bucket inside the layer's grid.
    pub proof fn lemma_bucket_in_layer(&self, position: Vector)
        requires
            self.wf(),
        ensures
            0 <= self.bucket_of(position) < self@.buckets.len(),
    {
        self.collision_grid.lemma_bucket_in_grid(position);
    }
}

} // verus!
