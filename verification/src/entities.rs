//! Terrain entities and runtime state: the grid wrapper, face and petal
//! node payloads, the cell-to-node lookup, the viewpoint cell tracker, and
//! the reveal bookkeeping.

use vstd::prelude::*;

use crate::hex::{Hex, RADIUS_MAX, offset_index, region_contains, region_size};
use crate::terrain_hex_layout::TerrainHexLayout;

verus! {

/// Central store holding the terrain hex layout data.
pub struct HexGrid {
    /// Encapsulated hex layout with heights, radii, and vertex computation.
    pub terrain: TerrainHexLayout,
}

/// Marker payload for height-indicator stem nodes.
#[derive(Clone, Copy, PartialEq, Eq, Structural, Debug)]
pub struct Stem;

/// Payload of a hex face node.
#[derive(Clone, Copy, PartialEq, Eq, Structural, Debug)]
pub struct HexSunDisc {
    /// The hex coordinate this disc represents.
    pub hex: Hex,
}

/// Gap quad between two adjacent hexes; child of the owning face node.
#[derive(Clone, Copy, PartialEq, Eq, Structural, Debug)]
pub struct QuadPetal {
    /// Even edge index on the owner hex (0, 2, or 4).
    pub edge_index: u8,
    /// Node handle of the neighbour face.
    pub neighbor_disc: usize,
}

/// Gap triangle at a three-hex vertex junction; child of the owning face
/// node.
#[derive(Clone, Copy, Debug)]
pub struct TriPetal {
    /// Vertex index on the owner hex (0 or 1).
    pub vertex_index: u8,
    /// Node handles of the other two faces at this junction.
    pub neighbor_discs: (usize, usize),
}

/// Maps hex coordinates to their spawned face node handles: entry `i` of
/// `map` is the node of region cell `i`.
pub struct HexEntities {
    /// Region radius the map covers (centred on the origin cell).
    pub radius: u32,
    /// Face node handle per region cell, in region-enumeration order.
    pub map: Vec<usize>,
}

impl HexEntities {
    /// One handle per cell of the covered region.
    pub open spec fn wf(self) -> bool {
        self.radius <= RADIUS_MAX && self.map@.len() == region_size(self.radius as int)
    }

    /// Whether the map covers cell `h`.
    pub open spec fn contains_spec(self, h: Hex) -> bool {
        region_contains(Hex { x: 0, y: 0 }, self.radius as int, h)
    }

    /// The face node handle of cell `h`.
    pub open spec fn node_spec(self, h: Hex) -> int {
        self.map@[offset_index(self.radius as int, h.x as int, h.y as int)] as int
    }

    /// Looks up the face node of `hex`: `None` exactly when the cell is
    /// outside the covered region.
    pub fn get(&self, terrain: &TerrainHexLayout, hex: Hex) -> (r: Option<usize>)
        requires
            self.wf(),
            terrain.wf(),
            terrain.center_spec() == (Hex { x: 0, y: 0 }),
            terrain.radius_spec() == self.radius as int,
        ensures
            r is Some <==> self.contains_spec(hex),
            r matches Some(n) ==> n == self.node_spec(hex),
    {
        match terrain.index_of_cell(hex) {
            Some(i) => Some(self.map[i]),
            None => None,
        }
    }
}

/// Tracks which hex cell the viewpoint currently occupies.
pub struct CameraCell {
    /// Hex coordinate directly below the viewpoint.
    pub current: Hex,
    /// The cell the viewpoint occupied before the last transition, if any.
    pub previous: Option<Hex>,
    /// True for exactly one update after a cell transition (including the
    /// very first update, which always counts as a transition).
    pub changed: bool,
}

impl CameraCell {
    /// The initial tracker: origin cell, no transition seen yet.
    pub fn start() -> (r: CameraCell)
        ensures
            r.current == (Hex { x: 0, y: 0 }),
            r.previous is None,
            !r.changed,
    {
        CameraCell { current: Hex { x: 0, y: 0 }, previous: None, changed: false }
    }
}

/// Tracks which hexes have already had their petals spawned; grows
/// monotonically and never shrinks (petals are never despawned).
pub struct DrawnCells {
    /// The drawn cells, each recorded once.
    pub cells: Vec<Hex>,
}

impl DrawnCells {
    /// No cell is recorded twice.
    pub open spec fn wf(self) -> bool {
        forall|i: int, j: int|
            0 <= i < j < self.cells@.len() ==> #[trigger] self.cells@[i] != #[trigger] self.cells@[j]
    }

    /// Whether `h` has been drawn.
    pub open spec fn contains_spec(self, h: Hex) -> bool {
        self.cells@.contains(h)
    }

    /// An empty drawn set.
    pub fn new() -> (r: DrawnCells)
        ensures
            r.wf(),
            r.cells@.len() == 0,
    {
        DrawnCells { cells: Vec::new() }
    }

    /// Whether `hex` has been drawn.
    pub fn contains(&self, hex: Hex) -> (r: bool)
        ensures
            r == self.contains_spec(hex),
    {
        let mut i: usize = 0;
        while i < self.cells.len()
            invariant
                i <= self.cells@.len(),
                forall|k: int| 0 <= k < i ==> self.cells@[k] != hex,
            decreases self.cells@.len() - i,
        {
            let c = self.cells[i];
            if c.x == hex.x && c.y == hex.y {
                return true;
            }
            i = i + 1;
        }
        false
    }

    /// Records `hex` as drawn.
    pub fn insert(&mut self, hex: Hex)
        requires
            old(self).wf(),
            !old(self).contains_spec(hex),
        ensures
            final(self).wf(),
            final(self).cells@ == old(self).cells@.push(hex),
            forall|h: Hex| #[trigger] final(self).contains_spec(h) <==> old(self).contains_spec(
                h,
            ) || h == hex,
    {
        self.cells.push(hex);
        proof {
            assert forall|h: Hex| #[trigger] self.contains_spec(h) implies old(
                self,
            ).contains_spec(h) || h == hex by {
                let i = choose|i: int| 0 <= i < self.cells@.len() && self.cells@[i] == h;
                if i < self.cells@.len() - 1 {
                    assert(old(self).cells@[i] == h);
                }
            }
            assert forall|h: Hex| old(self).contains_spec(h) || h == hex implies #[trigger] self.contains_spec(
                h,
            ) by {
                if old(self).contains_spec(h) {
                    let i = choose|i: int|
                        0 <= i < old(self).cells@.len() && old(self).cells@[i] == h;
                    assert(self.cells@[i] == h);
                } else {
                    assert(self.cells@[self.cells@.len() - 1] == h);
                }
            }
        }
    }
}

/// Per-hex reveal state.
///
/// Transitions: `Naked` (no petals yet) becomes `Revealed` when petals are
/// filled in; `PlayerAbove` marks the cell under the viewpoint and demotes
/// back to `Revealed` when the viewpoint leaves.
pub enum FlowerState {
    /// No petals spawned yet.
    Naked,
    /// Petals spawned; the viewpoint is elsewhere.
    Revealed {
        /// Node handles of the spawned petals.
        petals: Vec<usize>,
    },
    /// Petals spawned (possibly none yet); the viewpoint is directly above.
    PlayerAbove {
        /// Node handles of the spawned petals.
        petals: Vec<usize>,
    },
}

impl FlowerState {
    /// True when petal geometry has not been spawned yet.
    pub fn needs_petals(&self) -> (r: bool)
        ensures
            r == match *self {
                FlowerState::Naked => true,
                FlowerState::PlayerAbove { petals } => petals@.len() == 0,
                FlowerState::Revealed { .. } => false,
            },
    {
        match self {
            FlowerState::Naked => true,
            FlowerState::PlayerAbove { petals } => petals.len() == 0,
            FlowerState::Revealed { .. } => false,
        }
    }

    /// Demote `PlayerAbove` to `Revealed`, keeping existing petals; any
    /// other state is unchanged.
    pub fn demote(&mut self)
        ensures
            match *old(self) {
                FlowerState::PlayerAbove { petals } => *final(self) == (FlowerState::Revealed { petals: petals }),
                _ => *final(self) == *old(self),
            },
    {
        let mut tmp = FlowerState::Naked;
        core::mem::swap(self, &mut tmp);
        match tmp {
            FlowerState::PlayerAbove { petals } => {
                *self = FlowerState::Revealed { petals };
            },
            other => {
                *self = other;
            },
        }
    }

    /// Promote any state to `PlayerAbove`, keeping existing petals.
    pub fn promote(&mut self)
        ensures
            match *old(self) {
                FlowerState::Naked => *final(self) matches FlowerState::PlayerAbove { petals }
                    && petals@.len() == 0,
                FlowerState::Revealed { petals } => *final(self) == (FlowerState::PlayerAbove {
                    petals: petals,
                }),
                FlowerState::PlayerAbove { .. } => *final(self) == *old(self),
            },
    {
        let mut tmp = FlowerState::Naked;
        core::mem::swap(self, &mut tmp);
        match tmp {
            FlowerState::Naked => {
                let empty: Vec<usize> = Vec::new();
                *self = FlowerState::PlayerAbove { petals: empty };
            },
            FlowerState::Revealed { petals } => {
                *self = FlowerState::PlayerAbove { petals };
            },
            other => {
                *self = other;
            },
        }
    }

    /// Fill petals on a state that needs them: `Naked` becomes `Revealed`,
    /// an empty `PlayerAbove` keeps its state with the new petals; any
    /// other state is unchanged.
    pub fn fill_petals(&mut self, new_petals: Vec<usize>)
        ensures
            match *old(self) {
                FlowerState::Naked => *final(self) == (FlowerState::Revealed {
                    petals: new_petals,
                }),
                FlowerState::PlayerAbove { petals } => if petals@.len() == 0 {
                    *final(self) == (FlowerState::PlayerAbove { petals: new_petals })
                } else {
                    *final(self) == *old(self)
                },
                _ => *final(self) == *old(self),
            },
    {
        let mut tmp = FlowerState::Naked;
        core::mem::swap(self, &mut tmp);
        match tmp {
            FlowerState::Naked => {
                *self = FlowerState::Revealed { petals: new_petals };
            },
            FlowerState::PlayerAbove { petals } => {
                if petals.len() == 0 {
                    *self = FlowerState::PlayerAbove { petals: new_petals };
                } else {
                    *self = FlowerState::PlayerAbove { petals };
                }
            },
            other => {
                *self = other;
            },
        }
    }
}

} // verus!
