//! The spatial index: a bidirectional mapping between entities and their
//! (coordinate, layer) slots.
//!
//! Each in-bounds coordinate has one floor, one feature and one character
//! slot, and the index enforces at most one occupant per slot.  Entities on
//! the item layer may stack, and entities with no layer (floating effects)
//! have no occupancy semantics; both are tracked by location only.

use crate::entity::Entity;
use crate::geom::Coord;
use crate::table::ComponentTable;
use vstd::prelude::*;

verus! {

/// The occupancy slot a located entity uses.
#[derive(Clone, Copy, PartialEq, Eq, Structural, Debug)]
pub enum Layer {
    Floor,
    Feature,
    Character,
    Item,
}

impl Layer {
    /// Whether the layer admits at most one occupant per coordinate.
    pub open spec fn spec_is_exclusive(self) -> bool {
        self != Layer::Item
    }

    pub fn is_exclusive(self) -> (b: bool)
        ensures
            b == self.spec_is_exclusive(),
    {
        match self {
            Layer::Item => false,
            _ => true,
        }
    }
}

/// Where an entity stands: a coordinate, and the layer slot it occupies
/// there (`None` for floating effects).
#[derive(Clone, Copy, PartialEq, Eq, Structural, Debug)]
pub struct Location {
    pub coord: Coord,
    pub layer: Option<Layer>,
}

/// The exclusive-slot occupants of one coordinate.
#[derive(Clone, Copy, PartialEq, Eq, Structural, Debug)]
pub struct Layers {
    pub floor: Option<Entity>,
    pub feature: Option<Entity>,
    pub character: Option<Entity>,
}

impl Layers {
    pub open spec fn spec_slot(self, layer: Layer) -> Option<Entity> {
        match layer {
            Layer::Floor => self.floor,
            Layer::Feature => self.feature,
            Layer::Character => self.character,
            Layer::Item => None,
        }
    }

    pub fn slot(self, layer: Layer) -> (r: Option<Entity>)
        ensures
            r == self.spec_slot(layer),
    {
        match layer {
            Layer::Floor => self.floor,
            Layer::Feature => self.feature,
            Layer::Character => self.character,
            Layer::Item => None,
        }
    }

    fn with_slot(self, layer: Layer, value: Option<Entity>) -> (r: Layers)
        requires
            layer.spec_is_exclusive(),
        ensures
            r.spec_slot(layer) == value,
            forall|l: Layer| l != layer ==> r.spec_slot(l) == self.spec_slot(l),
    {
        match layer {
            Layer::Floor => Layers { floor: value, ..self },
            Layer::Feature => Layers { feature: value, ..self },
            Layer::Character => Layers { character: value, ..self },
            Layer::Item => self,
        }
    }

    fn empty() -> (r: Layers)
        ensures
            forall|l: Layer| r.spec_slot(l) is None,
    {
        Layers { floor: None, feature: None, character: None }
    }
}

/// Why a spatial update was refused.
#[derive(Clone, Copy, PartialEq, Eq, Structural, Debug)]
pub enum SpatialError {
    /// The destination slot already holds the given entity.
    OccupiedBy(Entity),
    /// The destination coordinate lies off the grid.
    OutOfBounds,
}

/// Bidirectional mapping between entities and their locations.
pub struct SpatialTable {
    width: usize,
    height: usize,
    locations: ComponentTable<Location>,
    grid: Vec<Layers>,
}

/// Upper bound on each grid dimension, in cells.
pub const GRID_DIMENSION_LIMIT: usize = 0x4000;

impl SpatialTable {
    /// The index as a mathematical map from entity to location.
    pub closed spec fn view(&self) -> Map<Entity, Location> {
        self.locations@
    }

    pub closed spec fn spec_width(self) -> int {
        self.width as int
    }

    pub closed spec fn spec_height(self) -> int {
        self.height as int
    }

    /// Whether a coordinate lies on the grid.
    pub open spec fn in_bounds(self, c: Coord) -> bool {
        0 <= c.x < self.spec_width() && 0 <= c.y < self.spec_height()
    }

    /// The exclusive-slot occupants at an in-bounds coordinate.
    pub closed spec fn spec_layers_at(self, c: Coord) -> Layers {
        self.grid@[c.y * self.width + c.x]
    }

    /// The grid storage matches the declared dimensions.
    spec fn dims_ok(self) -> bool {
        &&& self.width <= GRID_DIMENSION_LIMIT
        &&& self.height <= GRID_DIMENSION_LIMIT
        &&& self.grid@.len() == self.width * self.height
    }

    /// Internal consistency: the per-coordinate slots and the per-entity
    /// locations describe each other exactly.
    pub closed spec fn wf(self) -> bool {
        &&& self.dims_ok()
        &&& forall|e: Entity| #[trigger] self@.contains_key(e) ==> self.in_bounds(self@[e].coord)
        &&& forall|e: Entity, l: Layer|
            #![trigger self@[e], l.spec_is_exclusive()]
            self@.contains_key(e) && self@[e].layer == Some(l) && l.spec_is_exclusive()
                ==> self.spec_layers_at(self@[e].coord).spec_slot(l) == Some(e)
        &&& forall|c: Coord, l: Layer|
            self.in_bounds(c) && (#[trigger] self.spec_layers_at(c).spec_slot(l)) is Some ==> {
                let o = self.spec_layers_at(c).spec_slot(l)->Some_0;
                &&& l.spec_is_exclusive()
                &&& self@.contains_key(o)
                &&& self@[o] == (Location { coord: c, layer: Some(l) })
            }
    }

    /// An in-bounds coordinate names one grid cell.
    proof fn lemma_cell_index(self, c: Coord)
        requires
            self.dims_ok(),
            self.in_bounds(c),
        ensures
            0 <= c.y * self.spec_width() + c.x < self.grid@.len(),
            0 <= c.y * self.spec_width() < 0x1000_0000,
    {
        assert(0 <= c.y * self.width && c.y * self.width + c.x < self.width * self.height
            && c.y * self.width < 0x1000_0000) by (nonlinear_arith)
            requires
                0 <= c.x < self.width,
                0 <= c.y < self.height,
                self.width <= GRID_DIMENSION_LIMIT,
                self.height <= GRID_DIMENSION_LIMIT,
        ;
    }

    /// The grid's dimensions never exceed the global limit.
    pub proof fn lemma_dims(self)
        requires
            self.wf(),
        ensures
            0 <= self.spec_width() <= GRID_DIMENSION_LIMIT,
            0 <= self.spec_height() <= GRID_DIMENSION_LIMIT,
    {
    }

    /// A located entity stands on the grid.
    pub proof fn lemma_located_in_bounds(self, e: Entity)
        requires
            self.wf(),
            self@.contains_key(e),
        ensures
            self.in_bounds(self@[e].coord),
            0 <= self@[e].coord.x < GRID_DIMENSION_LIMIT,
            0 <= self@[e].coord.y < GRID_DIMENSION_LIMIT,
    {
    }

    /// A filled exclusive slot names an entity located exactly there.
    pub proof fn lemma_slot_occupant(self, c: Coord, l: Layer, o: Entity)
        requires
            self.wf(),
            self.in_bounds(c),
            self.spec_layers_at(c).spec_slot(l) == Some(o),
        ensures
            l.spec_is_exclusive(),
            self@.contains_key(o),
            self@[o] == (Location { coord: c, layer: Some(l) }),
    {
    }

    /// A located entity on an exclusive layer fills its slot.
    pub proof fn lemma_entity_slot(self, e: Entity, l: Layer)
        requires
            self.wf(),
            self@.contains_key(e),
            self@[e].layer == Some(l),
            l.spec_is_exclusive(),
        ensures
            self.spec_layers_at(self@[e].coord).spec_slot(l) == Some(e),
    {
    }

    /// At most one entity occupies a given exclusive slot.
    pub proof fn lemma_at_most_one_occupant(self, e1: Entity, e2: Entity, l: Layer)
        requires
            self.wf(),
            l.spec_is_exclusive(),
            self@.contains_key(e1),
            self@.contains_key(e2),
            self@[e1] == self@[e2],
            self@[e1].layer == Some(l),
        ensures
            e1 == e2,
    {
        assert(self.spec_layers_at(self@[e1].coord).spec_slot(l) == Some(e1));
        assert(self.spec_layers_at(self@[e2].coord).spec_slot(l) == Some(e2));
    }

    /// An empty index over a `width` by `height` grid.
    pub fn new(width: usize, height: usize) -> (t: SpatialTable)
        requires
            width <= GRID_DIMENSION_LIMIT,
            height <= GRID_DIMENSION_LIMIT,
        ensures
            t.wf(),
            t@ == Map::<Entity, Location>::empty(),
            t.spec_width() == width,
            t.spec_height() == height,
    {
        proof {
            assert(width * height <= GRID_DIMENSION_LIMIT * GRID_DIMENSION_LIMIT)
                by (nonlinear_arith)
                requires
                    width <= GRID_DIMENSION_LIMIT,
                    height <= GRID_DIMENSION_LIMIT,
            ;
        }
        let size = width * height;
        let mut grid: Vec<Layers> = Vec::new();
        let mut i: usize = 0;
        while i < size
            invariant
                i <= size,
                grid@.len() == i,
                forall|j: int|
                    0 <= j < i ==> forall|l: Layer| (#[trigger] grid@[j]).spec_slot(l) is None,
            decreases size - i,
        {
            grid.push(Layers::empty());
            i += 1;
        }
        let t = SpatialTable { width, height, locations: ComponentTable::new(), grid };
        proof {
            assert(t@ =~= Map::<Entity, Location>::empty());
            assert forall|c: Coord, l: Layer|
                t.in_bounds(c) implies (#[trigger] t.spec_layers_at(c).spec_slot(l)) is None by {
                t.lemma_cell_index(c);
            }
        }
        t
    }

    /// The grid's width in cells.
    pub fn width(&self) -> (w: usize)
        ensures
            w == self.spec_width(),
    {
        self.width
    }

    /// The grid's height in cells.
    pub fn height(&self) -> (h: usize)
        ensures
            h == self.spec_height(),
    {
        self.height
    }

    /// The coordinate an entity stands at, if it is located at all.
    pub fn coord_of(&self, e: Entity) -> (r: Option<Coord>)
        ensures
            match r {
                Some(c) => self@.contains_key(e) && self@[e].coord == c,
                None => !self@.contains_key(e),
            },
    {
        match self.locations.get(e) {
            Some(loc) => Some(loc.coord),
            None => None,
        }
    }

    /// An entity's full location, if it has one.
    pub fn location_of(&self, e: Entity) -> (r: Option<Location>)
        ensures
            match r {
                Some(loc) => self@.contains_key(e) && self@[e] == loc,
                None => !self@.contains_key(e),
            },
    {
        match self.locations.get(e) {
            Some(loc) => Some(*loc),
            None => None,
        }
    }

    /// One grid cell, by coordinate.
    fn cell_at(&self, c: Coord) -> (r: Layers)
        requires
            self.dims_ok(),
            self.in_bounds(c),
        ensures
            r == self.spec_layers_at(c),
    {
        proof {
            self.lemma_cell_index(c);
        }
        self.grid[(c.y as usize) * self.width + (c.x as usize)]
    }

    /// The exclusive-slot occupants at a coordinate; `None` off the grid.
    pub fn layers_at(&self, c: Coord) -> (r: Option<Layers>)
        requires
            self.wf(),
        ensures
            match r {
                Some(layers) => self.in_bounds(c) && layers == self.spec_layers_at(c),
                None => !self.in_bounds(c),
            },
    {
        if c.x >= 0 && c.y >= 0 && (c.x as usize) < self.width && (c.y as usize) < self.height {
            Some(self.cell_at(c))
        } else {
            None
        }
    }

    /// Overwrites one grid cell.
    fn set_cell(&mut self, c: Coord, layers: Layers)
        requires
            old(self).dims_ok(),
            old(self).in_bounds(c),
        ensures
            final(self).dims_ok(),
            final(self).spec_layers_at(c) == layers,
            forall|o: Coord|
                old(self).in_bounds(o) && o != c ==> #[trigger] final(self).spec_layers_at(o)
                    == old(self).spec_layers_at(o),
            final(self)@ == old(self)@,
            final(self).spec_width() == old(self).spec_width(),
            final(self).spec_height() == old(self).spec_height(),
    {
        proof {
            self.lemma_cell_index(c);
        }
        let index = (c.y as usize) * self.width + (c.x as usize);
        self.grid.set(index, layers);
        proof {
            assert forall|o: Coord| old(self).in_bounds(o) && o != c implies
                #[trigger] self.spec_layers_at(o) == old(self).spec_layers_at(o) by {
                cell_injective(self.spec_width(), self.spec_height(), o, c);
                old(self).lemma_cell_index(o);
            }
        }
    }

    /// Places or moves an entity.  When the destination slot is exclusive
    /// and already held by another entity, or the destination is off the
    /// grid, the call fails and the index is left exactly as it was.
    pub fn update(&mut self, e: Entity, location: Location) -> (r: Result<(), SpatialError>)
        requires
            old(self).wf(),
        ensures
            final(self).wf(),
            final(self).spec_width() == old(self).spec_width(),
            final(self).spec_height() == old(self).spec_height(),
            forall|o: Entity|
                #[trigger] final(self)@.contains_key(o) ==> o == e || old(self)@.contains_key(o),
            match r {
                Ok(()) => {
                    &&& old(self).in_bounds(location.coord)
                    &&& match location.layer {
                        Some(l) => l.spec_is_exclusive() ==> (old(self).spec_layers_at(
                            location.coord,
                        ).spec_slot(l) is None || old(self).spec_layers_at(
                            location.coord,
                        ).spec_slot(l) == Some(e)),
                        None => true,
                    }
                    &&& final(self)@.contains_key(e)
                    &&& final(self)@[e] == location
                    &&& forall|o: Entity|
                        o.index != e.index ==> #[trigger] final(self)@.contains_key(o) == old(
                            self,
                        )@.contains_key(o)
                    &&& forall|o: Entity|
                        #![trigger final(self)@[o]]
                        o.index != e.index && old(self)@.contains_key(o) ==> final(self)@[o]
                            == old(self)@[o]
                    &&& forall|o: Entity|
                        o != e ==> !(#[trigger] final(self)@.contains_key(o) && o.index
                            == e.index)
                },
                Err(SpatialError::OutOfBounds) => {
                    &&& !old(self).in_bounds(location.coord)
                    &&& *final(self) == *old(self)
                },
                Err(SpatialError::OccupiedBy(o)) => {
                    &&& old(self).in_bounds(location.coord)
                    &&& o != e
                    &&& match location.layer {
                        Some(l) => l.spec_is_exclusive() && old(self).spec_layers_at(
                            location.coord,
                        ).spec_slot(l) == Some(o),
                        None => false,
                    }
                    &&& *final(self) == *old(self)
                },
            },
    {
        // Probe the destination before any mutation, so a refused update
        // leaves the index untouched.
        let layers = match self.layers_at(location.coord) {
            Some(layers) => layers,
            None => {
                return Err(SpatialError::OutOfBounds);
            },
        };
        if let Some(layer) = location.layer {
            if layer.is_exclusive() {
                if let Some(occupant) = layers.slot(layer) {
                    if occupant != e {
                        return Err(SpatialError::OccupiedBy(occupant));
                    }
                }
            }
        }

        // Vacate the slot held by whatever entry currently owns this slot
        // index: the entity's own old slot, or a stale generation's.
        let prev_key = self.locations.key_at_index(e.index);
        if let Some(k) = prev_key {
            let kloc = *self.locations.get(k).unwrap();
            if let Some(kl) = kloc.layer {
                if kl.is_exclusive() {
                    let cell = self.cell_at(kloc.coord);
                    self.set_cell(kloc.coord, cell.with_slot(kl, None));
                }
            }
        }
        let ghost vacated = *self;

        // Claim the destination slot and record the location.
        if let Some(layer) = location.layer {
            if layer.is_exclusive() {
                let cell = self.cell_at(location.coord);
                self.set_cell(location.coord, cell.with_slot(layer, Some(e)));
            }
        }
        let ghost claimed = *self;
        self.locations.insert(e, location);

        proof {
            let prev = *old(self);
            // The grid after both writes, against the pre-call grid.
            assert forall|c: Coord, l: Layer|
                prev.in_bounds(c) implies #[trigger] self.spec_layers_at(c).spec_slot(l) == (
            if c == location.coord && location.layer == Some(l) && l.spec_is_exclusive() {
                Some(e)
            } else if spec_vacated(prev, e, c, l) {
                None::<Entity>
            } else {
                prev.spec_layers_at(c).spec_slot(l)
            }) by {
                assert(self.spec_layers_at(c) == claimed.spec_layers_at(c));
                if spec_vacated(prev, e, c, l) {
                    let k2 = choose|k2: Entity|
                        #![trigger prev@.contains_key(k2)]
                        k2.index == e.index && prev@.contains_key(k2) && prev@[k2] == (Location {
                            coord: c,
                            layer: Some(l),
                        }) && l.spec_is_exclusive();
                    prev.locations.lemma_same_index(k2, prev_key->Some_0);
                }
                if prev_key is Some {
                    let k = prev_key->Some_0;
                    let kloc = prev@[k];
                    if kloc.layer is Some && kloc.layer->Some_0.spec_is_exclusive() {
                        if c == kloc.coord && Some(l) == kloc.layer {
                            assert(spec_vacated(prev, e, c, l));
                        }
                    }
                }
            }
            self.lemma_update_wf(prev, e, location);
        }
        Ok(())
    }

    /// The well-formedness argument for a completed `update`.
    proof fn lemma_update_wf(&self, prev: SpatialTable, e: Entity, location: Location)
        requires
            prev.wf(),
            prev.in_bounds(location.coord),
            self.spec_width() == prev.spec_width(),
            self.spec_height() == prev.spec_height(),
            self.dims_ok(),
            // locations: entry for e, same-index entries gone, others kept
            self@.contains_key(e),
            self@[e] == location,
            forall|o: Entity|
                o.index != e.index ==> #[trigger] self@.contains_key(o) == prev@.contains_key(o),
            forall|o: Entity|
                o.index != e.index && prev@.contains_key(o) ==> #[trigger] self@[o] == prev@[o],
            forall|o: Entity| o != e ==> !(#[trigger] self@.contains_key(o) && o.index == e.index),
            // the destination slot was free, or held by e's own slot index
            forall|l: Layer|
                location.layer == Some(l) && l.spec_is_exclusive() && (
                #[trigger] prev.spec_layers_at(location.coord).spec_slot(l)) is Some
                    ==> prev.spec_layers_at(location.coord).spec_slot(l)->Some_0.index == e.index,
            // grid: the vacated and claimed slots, all else unchanged
            forall|c: Coord, l: Layer|
                prev.in_bounds(c) ==> #[trigger] self.spec_layers_at(c).spec_slot(l) == (
                if c == location.coord && location.layer == Some(l) && l.spec_is_exclusive() {
                    Some(e)
                } else if spec_vacated(prev, e, c, l) {
                    None::<Entity>
                } else {
                    prev.spec_layers_at(c).spec_slot(l)
                }),
        ensures
            self.wf(),
    {
        assert forall|e2: Entity, l2: Layer|
            #![trigger self@[e2], l2.spec_is_exclusive()]
            self@.contains_key(e2) && self@[e2].layer == Some(l2) && l2.spec_is_exclusive()
                implies self.spec_layers_at(self@[e2].coord).spec_slot(l2) == Some(e2) by {
            if e2 == e {
                assert(self.spec_layers_at(location.coord).spec_slot(l2) == Some(e));
            } else {
                let c2 = self@[e2].coord;
                assert(prev@.contains_key(e2) && prev@[e2] == self@[e2]);
                assert(prev.spec_layers_at(c2).spec_slot(l2) == Some(e2));
                if c2 == location.coord && location.layer == Some(l2) {
                    // the destination slot held e2, whose index differs from e's
                    assert(false);
                } else if spec_vacated(prev, e, c2, l2) {
                    let k2 = choose|k2: Entity|
                        #![trigger prev@.contains_key(k2)]
                        k2.index == e.index && prev@.contains_key(k2) && prev@[k2] == (Location {
                            coord: c2,
                            layer: Some(l2),
                        }) && l2.spec_is_exclusive();
                    assert(prev.spec_layers_at(c2).spec_slot(l2) == Some(k2));
                    assert(false);
                }
            }
        }
        assert forall|c: Coord, l: Layer|
            self.in_bounds(c) && (#[trigger] self.spec_layers_at(c).spec_slot(l)) is Some implies {
            let o = self.spec_layers_at(c).spec_slot(l)->Some_0;
            &&& l.spec_is_exclusive()
            &&& self@.contains_key(o)
            &&& self@[o] == (Location { coord: c, layer: Some(l) })
        } by {
            let o = self.spec_layers_at(c).spec_slot(l)->Some_0;
            if c == location.coord && location.layer == Some(l) && l.spec_is_exclusive() {
                assert(o == e);
            } else if spec_vacated(prev, e, c, l) {
                assert(false);
            } else {
                assert(prev.spec_layers_at(c).spec_slot(l) == Some(o));
                assert(prev@.contains_key(o) && prev@[o] == (Location { coord: c, layer: Some(l) }));
                if o.index == e.index {
                    assert(spec_vacated(prev, e, c, l));
                    assert(false);
                }
            }
        }
    }

    /// Moves an already-located entity to a new coordinate on its current
    /// layer.  Moving onto an occupied exclusive slot never mutates the
    /// index: the call fails and names the occupant.
    pub fn update_coord(&mut self, e: Entity, coord: Coord) -> (r: Result<(), SpatialError>)
        requires
            old(self).wf(),
            old(self)@.contains_key(e),
        ensures
            final(self).wf(),
            final(self).spec_width() == old(self).spec_width(),
            final(self).spec_height() == old(self).spec_height(),
            forall|o: Entity|
                #[trigger] final(self)@.contains_key(o) ==> o == e || old(self)@.contains_key(o),
            r is Ok ==> forall|o: Entity|
                o != e ==> #[trigger] final(self)@.contains_key(o) == old(self)@.contains_key(o),
            r is Ok ==> forall|o: Entity|
                o != e && old(self)@.contains_key(o) ==> #[trigger] final(self)@[o] == old(
                    self,
                )@[o],
            match r {
                Ok(()) => {
                    &&& old(self).in_bounds(coord)
                    &&& match old(self)@[e].layer {
                        Some(l) => l.spec_is_exclusive() ==> (old(self).spec_layers_at(
                            coord,
                        ).spec_slot(l) is None || old(self).spec_layers_at(coord).spec_slot(l)
                            == Some(e)),
                        None => true,
                    }
                    &&& final(self)@.contains_key(e)
                    &&& final(self)@[e] == (Location { coord, layer: old(self)@[e].layer })
                },
                Err(SpatialError::OutOfBounds) => {
                    &&& !old(self).in_bounds(coord)
                    &&& *final(self) == *old(self)
                },
                Err(SpatialError::OccupiedBy(o)) => {
                    &&& old(self).in_bounds(coord)
                    &&& o != e
                    &&& match old(self)@[e].layer {
                        Some(l) => l.spec_is_exclusive() && old(self).spec_layers_at(
                            coord,
                        ).spec_slot(l) == Some(o),
                        None => false,
                    }
                    &&& *final(self) == *old(self)
                },
            },
    {
        let layer = self.locations.get(e).unwrap().layer;
        let r = self.update(e, Location { coord, layer });
        proof {
            if r is Ok {
                assert forall|o: Entity|
                    o != e implies #[trigger] self@.contains_key(o) == old(
                    self,
                )@.contains_key(o) by {
                    if o.index == e.index {
                        if old(self)@.contains_key(o) {
                            old(self).locations.lemma_same_index(o, e);
                        }
                        assert(!old(self)@.contains_key(o));
                        assert(!self@.contains_key(o));
                    }
                }
                assert forall|o: Entity|
                    o != e && old(self)@.contains_key(o) implies #[trigger] self@[o] == old(
                    self,
                )@[o] by {
                    if o.index == e.index {
                        old(self).locations.lemma_same_index(o, e);
                    } else {
                        assert(self@.contains_key(o) == old(self)@.contains_key(o));
                    }
                }
            }
        }
        r
    }

    /// Removes an entity's location and vacates its slot.  Entities without
    /// a location are left untouched.
    pub fn remove(&mut self, e: Entity)
        requires
            old(self).wf(),
        ensures
            final(self).wf(),
            final(self).spec_width() == old(self).spec_width(),
            final(self).spec_height() == old(self).spec_height(),
            final(self)@ == old(self)@.remove(e),
    {
        let loc_opt = match self.locations.get(e) {
            Some(loc) => Some(*loc),
            None => None,
        };
        if let Some(loc) = loc_opt {
            if let Some(l) = loc.layer {
                if l.is_exclusive() {
                    let cell = self.cell_at(loc.coord);
                    self.set_cell(loc.coord, cell.with_slot(l, None));
                }
            }
        }
        let ghost cleared = *self;
        self.locations.remove(e);
        proof {
            let prev = *old(self);
            assert(self@ =~= prev@.remove(e));
            // the grid after the (possible) clearing, against the pre-call
            assert forall|c: Coord, l: Layer|
                prev.in_bounds(c) implies #[trigger] self.spec_layers_at(c).spec_slot(l) == (
            if prev@.contains_key(e) && prev@[e] == (Location { coord: c, layer: Some(l) })
                && l.spec_is_exclusive() {
                None::<Entity>
            } else {
                prev.spec_layers_at(c).spec_slot(l)
            }) by {
                assert(self.spec_layers_at(c) == cleared.spec_layers_at(c));
            }
            if !prev@.contains_key(e) {
                assert(self@ =~= prev@);
            }
            assert forall|e2: Entity, l2: Layer|
                #![trigger self@[e2], l2.spec_is_exclusive()]
                self@.contains_key(e2) && self@[e2].layer == Some(l2)
                    && l2.spec_is_exclusive() implies self.spec_layers_at(
                self@[e2].coord,
            ).spec_slot(l2) == Some(e2) by {
                assert(prev@.contains_key(e2) && prev@[e2] == self@[e2]);
                assert(prev.spec_layers_at(self@[e2].coord).spec_slot(l2) == Some(e2));
                if prev@.contains_key(e) && prev@[e] == (Location {
                    coord: self@[e2].coord,
                    layer: Some(l2),
                }) {
                    assert(prev.spec_layers_at(prev@[e].coord).spec_slot(l2) == Some(e));
                    assert(false);
                }
            }
            assert forall|c: Coord, l: Layer|
                self.in_bounds(c) && (#[trigger] self.spec_layers_at(c).spec_slot(
                    l,
                )) is Some implies {
                let o = self.spec_layers_at(c).spec_slot(l)->Some_0;
                &&& l.spec_is_exclusive()
                &&& self@.contains_key(o)
                &&& self@[o] == (Location { coord: c, layer: Some(l) })
            } by {
                let o = self.spec_layers_at(c).spec_slot(l)->Some_0;
                assert(prev.spec_layers_at(c).spec_slot(l) == Some(o));
                if o == e {
                    assert(false);
                }
            }
        }
    }
}

/// Whether `(c, l)` is the slot the previous owner of `e`'s slot index held.
pub open spec fn spec_vacated(prev: SpatialTable, e: Entity, c: Coord, l: Layer) -> bool {
    exists|k: Entity|
        #![trigger prev@.contains_key(k)]
        k.index == e.index && prev@.contains_key(k) && prev@[k] == (Location {
            coord: c,
            layer: Some(l),
        }) && l.spec_is_exclusive()
}

/// Distinct in-bounds coordinates name distinct grid cells.
proof fn cell_injective(w: int, h: int, a: Coord, b: Coord)
    requires
        0 <= a.x < w,
        0 <= a.y < h,
        0 <= b.x < w,
        0 <= b.y < h,
        a != b,
    ensures
        a.y * w + a.x != b.y * w + b.x,
{
    assert(a.y * w + a.x != b.y * w + b.x) by (nonlinear_arith)
        requires
            0 <= a.x < w,
            0 <= a.y < h,
            0 <= b.x < w,
            0 <= b.y < h,
            a.x != b.x || a.y != b.y,
    ;
}

} // verus!
