use vstd::prelude::*;

use crate::math_2d::Vector;
use crate::physics_2d::BodyHandle;
use crate::physics_2d::CollisionLayer;
use crate::physics_2d::LayerView;
use crate::spatial_hashgrid;
use crate::PhysicalSize;

verus! {

/// Where a body collides: in which layer, and as an obstacle or as an actor.
#[derive(Clone, Copy, Debug)]
pub struct CollisionSpecifier {
    pub collision_layer: usize,
    pub is_collision_obstacle: Option<bool>,
}

impl CollisionSpecifier {
    pub fn new(collision_layer: usize, is_collision_obstacle: Option<bool>) -> (specifier: Self)
        ensures
            specifier.collision_layer == collision_layer,
            specifier.is_collision_obstacle == is_collision_obstacle,
    {
        Self { collision_layer, is_collision_obstacle }
    }
}

/// The bodies of a world and the layers in which they collide.
pub struct World {
    bodies: Vec<BodyHandle>,
    collision_layers: Vec<CollisionLayer>,
}

/// A world as plain values: its bodies in the order in which they came, and
/// its layers.
pub struct WorldView {
    pub bodies: Seq<BodyHandle>,
    pub layers: Seq<LayerView>,
}

/// The index of the first body with the identifier `id`, or the number of
/// bodies where none has it.
pub open spec fn first_with_id(bodies: Seq<BodyHandle>, id: u128) -> int
    decreases bodies.len(),
{
    if bodies.len() == 0 {
        0
    } else if bodies[0].id == id {
        0
    } else {
        1 + first_with_id(bodies.drop_first(), id)
    }
}

/// The bodies without the first one that has the identifier `id`.
pub open spec fn without_first(bodies: Seq<BodyHandle>, id: u128) -> Seq<BodyHandle> {
    if first_with_id(bodies, id) < bodies.len() {
        bodies.remove(first_with_id(bodies, id))
    } else {
        bodies
    }
}

impl View for World {
    type V = WorldView;

    closed spec fn view(&self) -> WorldView {
        WorldView {
            bodies: self.bodies@,
            layers: Seq::new(self.collision_layers@.len(), |i: int| self.collision_layers@[i]@),
        }
    }
}

impl World {
    /// The bucket of `position` in the grid of the layer `layer`.
    pub closed spec fn bucket_of(&self, layer: int, position: Vector) -> int {
        self.collision_layers@[layer].bucket_of(position)
    }

    /// Every layer's grid is a grid.
    pub closed spec fn wf(&self) -> bool {
        forall|i: int|
            0 <= i < self.collision_layers@.len() ==> (#[trigger] self.collision_layers@[i]).wf()
    }

    /// The first layer, from `from` on, that lets go of `body` when no group
    /// is named, or the number of layers where none does.
    pub open spec fn first_release(&self, body: BodyHandle, from: int) -> int
        decreases self@.layers.len() - from,
    {
        if from < 0 || from >= self@.layers.len() {
            self@.layers.len() as int
        } else if self@.layers[from].releases(body.id, self.bucket_of(from, body.position), None) {
            from
        } else {
            self.first_release(body, from + 1)
        }
    }

    /// The layers after `body` was offered to the layer that `specifier`
    /// names: a body without collision, or without a specifier, enters none.
    pub open spec fn layers_after_add(
        &self,
        body: BodyHandle,
        specifier: Option<CollisionSpecifier>,
    ) -> Seq<LayerView> {
        if body.has_collision && specifier is Some {
            let layer = specifier->0.collision_layer as int;
            self@.layers.update(
                layer,
                self@.layers[layer].add_body(
                    body.id,
                    self.bucket_of(layer, body.position),
                    specifier->0.is_collision_obstacle->0,
                ),
            )
        } else {
            self@.layers
        }
    }

    /// The layers after `body` was taken out: out of the layer that
    /// `specifier` names, from the group that it names, or, without a
    /// specifier, out of the first layer that lets go of it.
    pub open spec fn layers_after_remove(
        &self,
        body: BodyHandle,
        specifier: Option<CollisionSpecifier>,
    ) -> Seq<LayerView> {
        if !body.has_collision {
            self@.layers
        } else if specifier is Some {
            let layer = specifier->0.collision_layer as int;
            self@.layers.update(
                layer,
                self@.layers[layer].remove_body(
                    body.id,
                    self.bucket_of(layer, body.position),
                    specifier->0.is_collision_obstacle,
                ),
            )
        } else if self.first_release(body, 0) < self@.layers.len() {
            let layer = self.first_release(body, 0);
            self@.layers.update(
                layer,
                self@.layers[layer].remove_body(
                    body.id,
                    self.bucket_of(layer, body.position),
                    None,
                ),
            )
        } else {
            self@.layers
        }
    }

    /// A world without bodies over an area of `grid_size`, with
    /// `number_of_collision_layers` layers whose grids have
    /// `collision_grid_size` cells.
    pub fn new(
        grid_size: PhysicalSize<u32>,
        collision_grid_size: PhysicalSize<u32>,
        number_of_collision_layers: usize,
    ) -> (world: Self)
        requires
            collision_grid_size.width > 0,
            collision_grid_size.height > 0,
            grid_size.width >= collision_grid_size.width,
            grid_size.height >= collision_grid_size.height,
            spatial_hashgrid::ceil_div(
                grid_size.width as int,
                grid_size.width as int / collision_grid_size.width as int,
            ) * spatial_hashgrid::ceil_div(
                grid_size.height as int,
                grid_size.height as int / collision_grid_size.height as int,
            ) <= usize::MAX,
        ensures
            world.wf(),
            world@.bodies.len() == 0,
            world@.layers.len() == number_of_collision_layers,
            forall|i: int|
                0 <= i < world@.layers.len() ==> {
                    &&& (#[trigger] world@.layers[i]).consistent()
                    &&& world@.layers[i].obstacles == Set::<u128>::empty()
                    &&& world@.layers[i].actors == Set::<u128>::empty()
                },
    {
        let cell_size = PhysicalSize::new(
            grid_size.width / collision_grid_size.width,
            grid_size.height / collision_grid_size.height,
        );
        assert(cell_size.width > 0 && cell_size.height > 0) by (nonlinear_arith)
            requires
                cell_size.width == grid_size.width as int / collision_grid_size.width as int,
                cell_size.height == grid_size.height as int / collision_grid_size.height as int,
                collision_grid_size.width > 0,
                collision_grid_size.height > 0,
                grid_size.width >= collision_grid_size.width,
                grid_size.height >= collision_grid_size.height,
        ;
        let mut collision_layers: Vec<CollisionLayer> = Vec::new();
        let mut made: usize = 0;
        while made < number_of_collision_layers
            invariant
                made <= number_of_collision_layers,
                collision_layers@.len() == made,
                grid_size.width > 0,
                grid_size.height > 0,
                cell_size.width > 0,
                cell_size.height > 0,
                spatial_hashgrid::ceil_div(grid_size.width as int, cell_size.width as int)
                    * spatial_hashgrid::ceil_div(grid_size.height as int, cell_size.height as int)
                    <= usize::MAX,
                forall|i: int|
                    0 <= i < collision_layers@.len() ==> {
                        &&& (#[trigger] collision_layers@[i]).wf()
                        &&& collision_layers@[i]@.consistent()
                        &&& collision_layers@[i]@.obstacles == Set::<u128>::empty()
                        &&& collision_layers@[i]@.actors == Set::<u128>::empty()
                    },
            decreases number_of_collision_layers - made,
        {
            collision_layers.push(CollisionLayer::new(grid_size, cell_size));
            made += 1;
        }
        World { bodies: Vec::new(), collision_layers }
    }

    /// Takes `body` into the world, and into the layer that `specifier`
    /// names if the body has collision.
    pub fn add_body(&mut self, body: BodyHandle, collision_specifier: Option<CollisionSpecifier>)
        requires
            old(self).wf(),
            body.has_collision && collision_specifier is Some ==> {
                &&& collision_specifier->0.collision_layer < old(self)@.layers.len()
                &&& collision_specifier->0.is_collision_obstacle is Some
            },
        ensures
            final(self).wf(),
            final(self)@.bodies == old(self)@.bodies.push(body),
            final(self)@.layers == old(self).layers_after_add(body, collision_specifier),
            forall|i: int, position: Vector|
                0 <= i < old(self)@.layers.len() ==> final(self).bucket_of(i, position) == old(
                    self,
                ).bucket_of(i, position),
    {
        self.bodies.push(body);
        if body.has_collision {
            if let Some(specifier) = collision_specifier {
                let is_obstacle = match specifier.is_collision_obstacle {
                    Some(is_obstacle) => is_obstacle,
                    None => vstd::pervasive::unreached(),
                };
                self.collision_layers[specifier.collision_layer].add_body(body, is_obstacle);
            }
        }
        proof {
            assert(self@.layers =~= old(self).layers_after_add(body, collision_specifier));
        }
    }

    /// Takes `body` out of the world: out of its layer if it has collision,
    /// and out of the bodies.
    #[verifier::spinoff_prover]
    pub fn remove_body(&mut self, body: &BodyHandle, collision_specifier: Option<CollisionSpecifier>)
        requires
            old(self).wf(),
            body.has_collision && collision_specifier is Some
                ==> collision_specifier->0.collision_layer < old(self)@.layers.len(),
        ensures
            final(self).wf(),
            final(self)@.bodies == without_first(old(self)@.bodies, body.id),
            final(self)@.layers == old(self).layers_after_remove(*body, collision_specifier),
            forall|i: int, position: Vector|
                0 <= i < old(self)@.layers.len() ==> final(self).bucket_of(i, position) == old(
                    self,
                ).bucket_of(i, position),
    {
        if body.has_collision {
            if let Some(specifier) = collision_specifier {
                self.collision_layers[specifier.collision_layer].remove_body(
                    body,
                    specifier.is_collision_obstacle,
                );
                proof {
                    assert(self@.layers =~= old(self).layers_after_remove(
                        *body,
                        collision_specifier,
                    ));
                }
            } else {
                let count = self.collision_layers.len();
                let mut at: usize = 0;
                let mut released = false;
                while at < count && !released
                    invariant
                        count == self.collision_layers@.len(),
                        count == old(self).collision_layers@.len(),
                        at <= count,
                        body.has_collision,
                        self.wf(),
                        self.bodies == old(self).bodies,
                        forall|i: int, position: Vector|
                            0 <= i < count ==> self.bucket_of(i, position) == old(self).bucket_of(
                                i,
                                position,
                            ),
                        !released ==> self@.layers == old(self)@.layers,
                        !released ==> old(self).first_release(*body, 0) == old(
                            self,
                        ).first_release(*body, at as int),
                        released ==> self@.layers == old(self).layers_after_remove(*body, None),
                    decreases count - at,
                {
                    let ghost earlier = self@.layers;
                    let ghost bucket = self.bucket_of(at as int, body.position);
                    released = self.collision_layers[at].remove_body(body, None);
                    proof {
                        let layer = at as int;
                        assert(old(self)@.layers[layer] == earlier[layer]);
                        assert(bucket == old(self).bucket_of(layer, body.position));
                        assert(self@.layers[layer] == earlier[layer].remove_body(
                            body.id,
                            bucket,
                            None,
                        ));
                        assert(released == earlier[layer].releases(body.id, bucket, None));
                        assert(self@.layers =~= earlier.update(layer, self@.layers[layer]));
                        if released {
                            assert(old(self).first_release(*body, layer) == layer);
                            assert(old(self).first_release(*body, 0) == layer);
                            assert(self@.layers =~= old(self).layers_after_remove(*body, None));
                        } else {
                            assert(self@.layers =~= earlier);
                            assert(old(self).first_release(*body, layer) == old(
                                self,
                            ).first_release(*body, layer + 1));
                        }
                    }
                    at += 1;
                }
                proof {
                    if !released {
                        assert(old(self).first_release(*body, count as int) == count);
                    }
                }
            }
        }
        let found = self.position_of(body.id);
        if found < self.bodies.len() {
            self.bodies.remove(found);
        }
    }

    /// The index of the first body with the identifier `id`, or the number
    /// of bodies where none has it.
    fn position_of(&self, id: u128) -> (index: usize)
        ensures
            index == first_with_id(self.bodies@, id),
            index <= self.bodies@.len(),
    {
        let mut index: usize = 0;
        assert(self.bodies@.skip(0) =~= self.bodies@);
        while index < self.bodies.len()
            invariant
                index <= self.bodies@.len(),
                first_with_id(self.bodies@, id) == index + first_with_id(
                    self.bodies@.skip(index as int),
                    id,
                ),
            decreases self.bodies@.len() - index,
        {
            proof {
                let rest = self.bodies@.skip(index as int);
                assert(rest[0] == self.bodies@[index as int]);
                assert(rest.drop_first() =~= self.bodies@.skip(index + 1));
            }
            if self.bodies[index].id == id {
                return index;
            }
            index += 1;
        }
        index
    }

    /// The layer with the index `layer`.
    pub fn layer(&self, layer: usize) -> (found: &CollisionLayer)
        requires
            layer < self@.layers.len(),
        ensures
            found@ == self@.layers[layer as int],
            forall|position: Vector| found.bucket_of(position) == self.bucket_of(layer as int, position),
    {
        &self.collision_layers[layer]
    }

    /// The number of layers.
    pub fn layer_count(&self) -> (count: usize)
        ensures
            count == self@.layers.len(),
    {
        self.collision_layers.len()
    }

    /// The bodies of the world, in the order in which they came.
    pub fn bodies(&self) -> (bodies: &Vec<BodyHandle>)
        ensures
            bodies@ == self@.bodies,
    {
        &self.bodies
    }
}

} // verus!
