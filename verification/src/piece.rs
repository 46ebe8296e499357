//! Piece geometry: the seven piece kinds, their rotation states, and the
//! transform that maps a piece onto absolute board coordinates.

use vstd::prelude::*;

verus! {

use crate::engine::Color;
use crate::engine::Coordinate;
use crate::engine::Offset;
use crate::engine::WIDTH;

/// One of the seven piece shapes.
#[derive(Clone, Copy, Debug, PartialEq, Eq, Structural)]
pub enum Kind {
    O,
    I,
    T,
    L,
    J,
    S,
    Z,
}

impl Kind {
    /// The four canonical cell offsets of this kind on its local grid.
    pub open spec fn base_cells(self) -> Seq<(int, int)> {
        match self {
            Kind::O => seq![(1, 1), (1, 2), (2, 1), (2, 2)],
            Kind::I => seq![(0, 2), (1, 2), (2, 2), (3, 2)],
            Kind::T => seq![(0, 1), (1, 1), (2, 1), (1, 2)],
            Kind::L => seq![(0, 1), (1, 1), (2, 1), (2, 2)],
            Kind::J => seq![(0, 2), (0, 1), (1, 1), (2, 1)],
            Kind::S => seq![(0, 1), (1, 1), (1, 2), (2, 2)],
            Kind::Z => seq![(0, 2), (1, 2), (1, 1), (2, 1)],
        }
    }

    /// The four canonical cell offsets of this kind on its local grid.
    pub fn cells(&self) -> (r: Vec<Offset>)
        ensures
            r@.len() == 4,
            forall|i: int|
                #![trigger r@[i]]
                0 <= i < 4 ==> r@[i].x == self.base_cells()[i].0 && r@[i].y
                    == self.base_cells()[i].1,
    {
        let (a, b, c, d): ((i32, i32), (i32, i32), (i32, i32), (i32, i32)) = match self {
            Kind::O => ((1, 1), (1, 2), (2, 1), (2, 2)),
            Kind::I => ((0, 2), (1, 2), (2, 2), (3, 2)),
            Kind::T => ((0, 1), (1, 1), (2, 1), (1, 2)),
            Kind::L => ((0, 1), (1, 1), (2, 1), (2, 2)),
            Kind::J => ((0, 2), (0, 1), (1, 1), (2, 1)),
            Kind::S => ((0, 1), (1, 1), (1, 2), (2, 2)),
            Kind::Z => ((0, 2), (1, 2), (1, 1), (2, 1)),
        };
        let mut v: Vec<Offset> = Vec::new();
        v.push(Offset { x: a.0, y: a.1 });
        v.push(Offset { x: b.0, y: b.1 });
        v.push(Offset { x: c.0, y: c.1 });
        v.push(Offset { x: d.0, y: d.1 });
        v
    }

    /// Side length of the local grid the shape is defined on.
    pub open spec fn spec_grid_size(self) -> int {
        match self {
            Kind::I => 4,
            _ => 3,
        }
    }

    /// Side length of the local grid the shape is defined on.
    pub fn grid_size(&self) -> (r: i32)
        ensures
            r == self.spec_grid_size(),
    {
        match self {
            Kind::I => 4,
            _ => 3,
        }
    }

    /// Display color associated with this kind.
    pub open spec fn spec_color(self) -> Color {
        match self {
            Kind::O => Color::Yellow,
            Kind::I => Color::Cyan,
            Kind::T => Color::Purple,
            Kind::L => Color::Orange,
            Kind::J => Color::Blue,
            Kind::S => Color::Green,
            Kind::Z => Color::Red,
        }
    }

    /// Display color associated with this kind.
    pub fn color(&self) -> (r: Color)
        ensures
            r == self.spec_color(),
    {
        match self {
            Kind::O => Color::Yellow,
            Kind::I => Color::Cyan,
            Kind::T => Color::Purple,
            Kind::L => Color::Orange,
            Kind::J => Color::Blue,
            Kind::S => Color::Green,
            Kind::Z => Color::Red,
        }
    }
}

/// Every base cell offset lies within the kind's local grid.
pub proof fn lemma_base_cells_in_grid(k: Kind)
    ensures
        forall|i: int|
            0 <= i < 4 ==> 0 <= #[trigger] k.base_cells()[i].0 < k.spec_grid_size()
                && 0 <= k.base_cells()[i].1 < k.spec_grid_size(),
{
}

/// One of the four orientations a piece can be in.
#[derive(Clone, Copy, Debug, PartialEq, Eq, Structural)]
pub enum Rotation {
    N,
    E,
    S,
    W,
}

impl Rotation {
    /// The linear transform this orientation applies to a local-grid offset.
    pub open spec fn spec_rotate(self, c: (int, int)) -> (int, int) {
        match self {
            Rotation::N => c,
            Rotation::E => (c.1, -c.0),
            Rotation::S => (-c.0, -c.1),
            Rotation::W => (-c.1, c.0),
        }
    }

    /// The intrinsic translation that re-anchors a rotated shape inside a
    /// local grid of side `g`: a per-orientation lookup scaled by (g - 1).
    pub open spec fn spec_intrinsic_shift(self, g: int) -> (int, int) {
        match self {
            Rotation::N => (0, 0),
            Rotation::E => (0, g - 1),
            Rotation::S => (g - 1, g - 1),
            Rotation::W => (g - 1, 0),
        }
    }

    /// The intrinsic translation on a local grid of side `g`.
    fn intrinsic_shift(&self, g: i32) -> (r: Offset)
        requires
            1 <= g <= 4,
        ensures
            r.x == self.spec_intrinsic_shift(g as int).0,
            r.y == self.spec_intrinsic_shift(g as int).1,
    {
        let scale = g - 1;
        match self {
            Rotation::N => Offset { x: 0, y: 0 },
            Rotation::E => Offset { x: 0, y: scale },
            Rotation::S => Offset { x: scale, y: scale },
            Rotation::W => Offset { x: scale, y: 0 },
        }
    }
}

impl Offset {
    /// Applies the rotation matrix of `rotation` to this offset.
    fn rotated_by(self, rotation: Rotation) -> (r: Offset)
        requires
            i32::MIN < self.x,
            i32::MIN < self.y,
        ensures
            r.x == rotation.spec_rotate((self.x as int, self.y as int)).0,
            r.y == rotation.spec_rotate((self.x as int, self.y as int)).1,
    {
        match rotation {
            Rotation::N => self,
            Rotation::E => Offset { x: self.y, y: -self.x },
            Rotation::S => Offset { x: -self.x, y: -self.y },
            Rotation::W => Offset { x: -self.y, y: self.x },
        }
    }
}

/// The falling piece: a kind, an orientation and an absolute position.
#[derive(Clone, Copy, Debug, PartialEq, Eq, Structural)]
pub struct Piece {
    pub kind: Kind,
    pub position: Offset,
    pub rotation: Rotation,
}

impl Piece {
    /// Rotated cell offset `i` within the local grid, before translation by
    /// the piece position. The O piece is rotation-invariant.
    pub open spec fn local_cell(self, i: int) -> (int, int) {
        if self.kind is O {
            self.kind.base_cells()[i]
        } else {
            let r = self.rotation.spec_rotate(self.kind.base_cells()[i]);
            let o = self.rotation.spec_intrinsic_shift(self.kind.spec_grid_size());
            (r.0 + o.0, r.1 + o.1)
        }
    }

    /// Absolute board cell `i` of the piece, as unbounded integers.
    pub open spec fn cell(self, i: int) -> (int, int) {
        (self.local_cell(i).0 + self.position.x, self.local_cell(i).1 + self.position.y)
    }

    /// True when every cell lies in a valid column at a non-negative row,
    /// i.e. exactly when `cells` returns coordinates.
    pub open spec fn fits(self) -> bool {
        forall|i: int|
            #![trigger self.cell(i)]
            0 <= i < 4 ==> 0 <= self.cell(i).0 < WIDTH && 0 <= self.cell(i).1
    }

    /// True when some cell of the piece lies at (x, y).
    pub open spec fn covers(self, x: int, y: int) -> bool {
        exists|i: int| 0 <= i < 4 && #[trigger] self.cell(i) == (x, y)
    }

    /// The piece translated by (dx, dy), with kind and rotation unchanged.
    pub open spec fn spec_moved(self, dx: int, dy: int) -> Piece {
        Piece {
            position: Offset {
                x: (self.position.x + dx) as i32,
                y: (self.position.y + dy) as i32,
            },
            ..self
        }
    }

    /// Returns this piece translated by `offset`; kind and rotation unchanged.
    pub fn moved_by(&self, offset: Offset) -> (r: Self)
        requires
            i32::MIN <= self.position.x + offset.x <= i32::MAX,
            i32::MIN <= self.position.y + offset.y <= i32::MAX,
        ensures
            r == self.spec_moved(offset.x as int, offset.y as int),
            r.position.x == self.position.x + offset.x,
            r.position.y == self.position.y + offset.y,
            r.kind == self.kind,
            r.rotation == self.rotation,
    {
        Self {
            position: Offset { x: self.position.x + offset.x, y: self.position.y + offset.y },
            ..*self
        }
    }

    /// The four absolute board coordinates the piece occupies, or `None` if
    /// any cell falls outside a valid column or below the board.
    pub fn cells(&self) -> (r: Option<Vec<Coordinate>>)
        ensures
            r is Some <==> self.fits(),
            r matches Some(cs) ==> cs@.len() == 4 && forall|i: int|
                #![trigger cs@[i]]
                0 <= i < 4 ==> cs@[i].x == self.cell(i).0 && cs@[i].y == self.cell(i).1,
    {
        let base = self.kind.cells();
        let intr = self.rotation.intrinsic_shift(self.kind.grid_size());
        let mut cs: Vec<Coordinate> = Vec::new();
        let mut i: usize = 0;
        while i < 4
            invariant
                i <= 4,
                base@.len() == 4,
                forall|j: int|
                    #![trigger base@[j]]
                    0 <= j < 4 ==> base@[j].x == self.kind.base_cells()[j].0 && base@[j].y
                        == self.kind.base_cells()[j].1,
                intr.x == self.rotation.spec_intrinsic_shift(self.kind.spec_grid_size()).0,
                intr.y == self.rotation.spec_intrinsic_shift(self.kind.spec_grid_size()).1,
                0 <= intr.x <= 3,
                0 <= intr.y <= 3,
                cs@.len() == i,
                forall|j: int|
                    #![trigger cs@[j]]
                    0 <= j < i ==> cs@[j].x == self.cell(j).0 && cs@[j].y == self.cell(j).1,
                forall|j: int|
                    #![trigger self.cell(j)]
                    0 <= j < i ==> 0 <= self.cell(j).0 < WIDTH && 0 <= self.cell(j).1,
            decreases 4 - i,
        {
            let b = base[i];
            proof {
                lemma_base_cells_in_grid(self.kind);
            }
            let local: Offset = if matches!(self.kind, Kind::O) {
                b
            } else {
                let rot = b.rotated_by(self.rotation);
                Offset { x: rot.x + intr.x, y: rot.y + intr.y }
            };
            assert(local.x == self.local_cell(i as int).0 && local.y == self.local_cell(
                i as int,
            ).1);
            let sx: i64 = local.x as i64 + self.position.x as i64;
            let sy: i64 = local.y as i64 + self.position.y as i64;
            if 0 <= sx && sx < WIDTH as i64 && 0 <= sy {
                cs.push(Coordinate { x: sx as usize, y: sy as usize });
            } else {
                // one cell out of range: the whole piece reports no cells
                proof {
                    assert(!(0 <= self.cell(i as int).0 < WIDTH && 0 <= self.cell(i as int).1));
                }
                return None;
            }
            i += 1;
        }
        Some(cs)
    }
}

/// O-piece geometry is identical in all four rotation states: two O pieces
/// at the same position occupy the same cells whatever their rotations.
pub proof fn lemma_o_rotation_invariant(p: Piece, q: Piece)
    requires
        p.kind is O,
        q.kind is O,
        p.position == q.position,
    ensures
        forall|i: int| 0 <= i < 4 ==> #[trigger] p.cell(i) == q.cell(i),
{
}

/// After rotation and intrinsic translation, every cell offset of a piece
/// still lies within the kind's local grid.
pub proof fn lemma_local_cells_in_grid(p: Piece)
    ensures
        forall|i: int|
            #![trigger p.local_cell(i)]
            0 <= i < 4 ==> 0 <= p.local_cell(i).0 < p.kind.spec_grid_size() && 0 <= p.local_cell(
                i,
            ).1 < p.kind.spec_grid_size(),
{
    lemma_base_cells_in_grid(p.kind);
    let g = p.kind.spec_grid_size();
    assert forall|i: int|
        0 <= i < 4 implies 0 <= #[trigger] p.local_cell(i).0 < g && 0 <= p.local_cell(i).1
        < g by {
        let b = p.kind.base_cells()[i];
        assert(0 <= b.0 < g && 0 <= b.1 < g);
        if !(p.kind is O) {
            match p.rotation {
                Rotation::N => {
                    assert(p.local_cell(i) == ((b.0, b.1)));
                },
                Rotation::E => {
                    assert(p.local_cell(i) == ((b.1, -b.0 + (g - 1))));
                },
                Rotation::S => {
                    assert(p.local_cell(i) == ((-b.0 + (g - 1), -b.1 + (g - 1))));
                },
                Rotation::W => {
                    assert(p.local_cell(i) == ((-b.1 + (g - 1), b.0)));
                },
            }
        }
    }
}

} // verus!

