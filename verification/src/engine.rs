//! The playing field (`Matrix`) and the game engine: the state machine that
//! owns the board, the piece bag and the falling piece ("cursor").

use rand::seq::SliceRandom;
use vstd::prelude::*;

verus! {

use crate::piece::Kind;
use crate::piece::Piece;
use crate::piece::lemma_local_cells_in_grid;
use vstd::multiset::Multiset;

/// Board width in cells.
pub const WIDTH: usize = 10;

/// Board height in cells.
pub const HEIGHT: usize = 20;

/// Number of cells on the board.
pub const SIZE: usize = 200;

/// An absolute board cell position: column `x`, row `y`, both zero-based.
#[derive(Clone, Copy, Debug, PartialEq, Eq, Structural)]
pub struct Coordinate {
    pub x: usize,
    pub y: usize,
}

/// A signed 2D displacement, used for relative moves and shape definitions.
#[derive(Clone, Copy, Debug, PartialEq, Eq, Structural)]
pub struct Offset {
    pub x: i32,
    pub y: i32,
}

/// Display color of a piece kind, for the rendering layer.
#[derive(Clone, Copy, Debug, PartialEq, Eq, Structural)]
pub enum Color {
    Yellow,
    Cyan,
    Purple,
    Orange,
    Blue,
    Green,
    Red,
}

/// The fixed 10 x 20 playing field; a `true` cell is occupied.
pub struct Matrix {
    pub cells: Vec<bool>,
}

impl Matrix {
    /// A well-formed matrix stores exactly one flag per board cell.
    pub open spec fn wf(self) -> bool {
        self.cells@.len() == SIZE
    }

    /// Occupancy of the board cell in column `x`, row `y` (row-major).
    pub open spec fn occupied(self, x: int, y: int) -> bool {
        self.cells@[y * (WIDTH as int) + x]
    }

    /// True when the coordinate addresses a cell of the board.
    pub open spec fn spec_on_matrix(coord: Coordinate) -> bool {
        coord.x < WIDTH && coord.y < HEIGHT
    }

    /// True when the coordinate addresses a cell of the board.
    pub fn on_matrix(coord: Coordinate) -> (r: bool)
        ensures
            r == Self::spec_on_matrix(coord),
    {
        Self::valid_coord(coord) && coord.y < HEIGHT
    }

    /// True when the coordinate lies in a valid column. The row is not
    /// checked: a piece may reach above the top of the board.
    pub fn valid_coord(coord: Coordinate) -> (r: bool)
        ensures
            r == (coord.x < WIDTH),
    {
        coord.x < WIDTH
    }

    /// Row-major position of a board coordinate in the cell vector.
    fn indexing(coord: Coordinate) -> (r: usize)
        requires
            Self::spec_on_matrix(coord),
        ensures
            r == coord.y * WIDTH + coord.x,
            r < SIZE,
    {
        coord.y * WIDTH + coord.x
    }

    /// A blank board: every cell empty.
    pub fn blank() -> (m: Matrix)
        ensures
            m.wf(),
            forall|x: int, y: int|
                0 <= x < WIDTH && 0 <= y < HEIGHT ==> !(#[trigger] m.occupied(x, y)),
    {
        let mut cells: Vec<bool> = Vec::new();
        let mut i: usize = 0;
        while i < SIZE
            invariant
                i <= SIZE,
                cells@.len() == i,
                forall|k: int| 0 <= k < i ==> !(#[trigger] cells@[k]),
            decreases SIZE - i,
        {
            cells.push(false);
            i += 1;
        }
        Matrix { cells }
    }

    /// Occupancy of the cell at `coord`; the coordinate must be on the board.
    pub fn get(&self, coord: Coordinate) -> (r: bool)
        requires
            self.wf(),
            Self::spec_on_matrix(coord),
        ensures
            r == self.occupied(coord.x as int, coord.y as int),
    {
        let idx = Self::indexing(coord);
        self.cells[idx]
    }

    /// Writes the cell at `coord`; the coordinate must be on the board.
    pub fn set(&mut self, coord: Coordinate, value: bool)
        requires
            old(self).wf(),
            Self::spec_on_matrix(coord),
        ensures
            final(self).wf(),
            final(self).occupied(coord.x as int, coord.y as int) == value,
            forall|x: int, y: int|
                0 <= x < WIDTH && 0 <= y < HEIGHT && !(x == coord.x && y == coord.y)
                    ==> #[trigger] final(self).occupied(x, y) == old(self).occupied(x, y),
    {
        let idx = Self::indexing(coord);
        self.cells[idx] = value;
    }

    /// A piece clips when its geometry is invalid (`cells` returns nothing)
    /// or one of its cells maps onto an occupied board cell. Cells above the
    /// top of the board do not collide.
    pub open spec fn spec_is_clipping(self, p: Piece) -> bool {
        !p.fits() || exists|i: int|
            0 <= i < 4 && (#[trigger] p.cell(i)).1 < HEIGHT && self.occupied(
                p.cell(i).0,
                p.cell(i).1,
            )
    }

    /// A piece is placeable when its geometry is valid and every cell lies
    /// on the board and is empty: the precondition for locking.
    pub open spec fn spec_is_placeable(self, p: Piece) -> bool {
        p.fits() && forall|i: int|
            0 <= i < 4 ==> (#[trigger] p.cell(i)).1 < HEIGHT && !self.occupied(
                p.cell(i).0,
                p.cell(i).1,
            )
    }

    /// True exactly when the piece clips on this board.
    pub fn is_clipping(&self, piece: &Piece) -> (r: bool)
        requires
            self.wf(),
        ensures
            r == self.spec_is_clipping(*piece),
    {
        let cells = match piece.cells() {
            Some(cells) => cells,
            None => {
                return true;
            },
        };
        let mut i: usize = 0;
        while i < 4
            invariant
                self.wf(),
                i <= 4,
                piece.fits(),
                cells@.len() == 4,
                forall|j: int|
                    #![trigger cells@[j]]
                    0 <= j < 4 ==> cells@[j].x == piece.cell(j).0 && cells@[j].y == piece.cell(
                        j,
                    ).1,
                forall|j: int|
                    0 <= j < i ==> !((#[trigger] piece.cell(j)).1 < HEIGHT && self.occupied(
                        piece.cell(j).0,
                        piece.cell(j).1,
                    )),
            decreases 4 - i,
        {
            let c = cells[i];
            if c.y < HEIGHT && self.get(c) {
                proof {
                    assert(piece.cell(i as int).1 < HEIGHT && self.occupied(
                        piece.cell(i as int).0,
                        piece.cell(i as int).1,
                    ));
                }
                return true;
            }
            i += 1;
        }
        false
    }

    /// True exactly when the piece is placeable on this board.
    pub fn is_placeable(&self, piece: &Piece) -> (r: bool)
        requires
            self.wf(),
        ensures
            r == self.spec_is_placeable(*piece),
    {
        let cells = match piece.cells() {
            Some(cells) => cells,
            None => {
                return false;
            },
        };
        let mut i: usize = 0;
        while i < 4
            invariant
                self.wf(),
                i <= 4,
                piece.fits(),
                cells@.len() == 4,
                forall|j: int|
                    #![trigger cells@[j]]
                    0 <= j < 4 ==> cells@[j].x == piece.cell(j).0 && cells@[j].y == piece.cell(
                        j,
                    ).1,
                forall|j: int|
                    0 <= j < i ==> (#[trigger] piece.cell(j)).1 < HEIGHT && !self.occupied(
                        piece.cell(j).0,
                        piece.cell(j).1,
                    ),
            decreases 4 - i,
        {
            let c = cells[i];
            if !(c.y < HEIGHT) || self.get(c) {
                proof {
                    assert(!(piece.cell(i as int).1 < HEIGHT && !self.occupied(
                        piece.cell(i as int).0,
                        piece.cell(i as int).1,
                    )));
                }
                return false;
            }
            i += 1;
        }
        true
    }
}

/// Placeable is strictly stronger than "not clipping": a placeable piece
/// never clips. (The converse fails: a piece partly above the board can be
/// free of clipping yet not placeable.)
pub proof fn lemma_placeable_not_clipping(m: Matrix, p: Piece)
    requires
        m.spec_is_placeable(p),
    ensures
        !m.spec_is_clipping(p),
{
}

/// A horizontal move request.
#[derive(Clone, Copy, Debug, PartialEq, Eq, Structural)]
pub enum MoveKind {
    Left,
    Right,
}

impl MoveKind {
    /// Unit displacement of the move.
    pub open spec fn spec_offset(self) -> (int, int) {
        match self {
            MoveKind::Left => (-1, 0),
            MoveKind::Right => (1, 0),
        }
    }

    fn offset(&self) -> (r: Offset)
        ensures
            r.x == self.spec_offset().0,
            r.y == self.spec_offset().1,
    {
        match self {
            MoveKind::Left => Offset { x: -1, y: 0 },
            MoveKind::Right => Offset { x: 1, y: 0 },
        }
    }
}

/// The seven kinds, one of each: what a bag refill draws from.
pub open spec fn all_kinds() -> Seq<Kind> {
    seq![Kind::O, Kind::I, Kind::T, Kind::L, Kind::J, Kind::S, Kind::Z]
}

/// Relies on `rand::seq::SliceRandom::shuffle`: it permutes the slice in
/// place, uniformly at random, so the length is unchanged and the elements
/// are exactly the old ones rearranged.
#[verifier::external_body]
fn shuffle_kinds(v: &mut Vec<Kind>)
    ensures
        final(v)@.len() == old(v)@.len(),
        final(v)@.to_multiset() == old(v)@.to_multiset(),
{
    v.shuffle(&mut rand::rng());
}

/// The game engine: one board, one piece bag, and at most one falling
/// piece (the cursor).
pub struct Engine {
    pub matrix: Matrix,
    pub bag: Vec<Kind>,
    pub cursor: Option<Piece>,
}

/// One draw from the bag: how the engine after a draw and the drawn kind
/// relate to the engine before it. An empty bag is refilled in a random
/// order before the draw, so for a refilling draw only the multiset of the
/// remaining bag is determined.
pub open spec fn next_draw(pre: Engine, post: Engine, k: Kind) -> bool {
    &&& post.matrix == pre.matrix
    &&& post.cursor == pre.cursor
    &&& if pre.bag@.len() == 0 {
        &&& post.bag@.len() == 6
        &&& post.bag@.to_multiset().insert(k) == all_kinds().to_multiset()
    } else {
        &&& k == pre.bag@.last()
        &&& post.bag@ == pre.bag@.drop_last()
    }
}

impl Engine {
    /// A well-formed engine has a well-formed board.
    pub open spec fn wf(self) -> bool {
        self.matrix.wf()
    }

    /// A fresh engine: blank board, empty bag, no falling piece.
    pub fn new() -> (e: Engine)
        ensures
            e.wf(),
            e.cursor is None,
            e.bag@.len() == 0,
            forall|x: int, y: int|
                0 <= x < WIDTH && 0 <= y < HEIGHT ==> !(#[trigger] e.matrix.occupied(x, y)),
    {
        Engine { matrix: Matrix::blank(), bag: Vec::new(), cursor: None }
    }

    /// Refills an empty bag with one piece of each kind, in random order.
    /// Refilling a non-empty bag is a caller bug, so it is excluded.
    pub fn refill_bag(&mut self)
        requires
            old(self).wf(),
            old(self).bag@.len() == 0,
        ensures
            final(self).wf(),
            final(self).bag@.len() == 7,
            final(self).bag@.to_multiset() == all_kinds().to_multiset(),
            final(self).matrix == old(self).matrix,
            final(self).cursor == old(self).cursor,
    {
        self.bag.push(Kind::O);
        self.bag.push(Kind::I);
        self.bag.push(Kind::T);
        self.bag.push(Kind::L);
        self.bag.push(Kind::J);
        self.bag.push(Kind::S);
        self.bag.push(Kind::Z);
        proof {
            assert(self.bag@ =~= all_kinds());
        }
        shuffle_kinds(&mut self.bag);
    }

    /// Draws the next piece kind, refilling the bag first when it is empty.
    pub fn next_kind(&mut self) -> (k: Kind)
        requires
            old(self).wf(),
        ensures
            final(self).wf(),
            next_draw(*old(self), *final(self), k),
    {
        if self.bag.len() == 0 {
            self.refill_bag();
        }
        let ghost full = self.bag@;
        let k = self.bag.pop().unwrap();
        proof {
            broadcast use vstd::seq_lib::group_to_multiset_ensures;

            assert(full =~= self.bag@.push(k));
            assert(self.bag@ =~= full.drop_last());
            if old(self).bag@.len() == 0 {
                assert(self.bag@.to_multiset().insert(k) =~= full.to_multiset());
            }
        }
        k
    }

    /// The cursor lowered by one row, when that position would not clip;
    /// `None` when there is no cursor or the lowered cursor would clip.
    pub fn ticked_down_cursor(&self) -> (r: Option<Piece>)
        requires
            self.wf(),
            self.cursor matches Some(c) ==> c.position.y > i32::MIN,
        ensures
            r is Some <==> (self.cursor is Some && !self.matrix.spec_is_clipping(
                self.cursor.unwrap().spec_moved(0, -1),
            )),
            r matches Some(p) ==> p == self.cursor.unwrap().spec_moved(0, -1),
    {
        let cursor = match &self.cursor {
            Some(c) => *c,
            None => {
                return None;
            },
        };
        let new = cursor.moved_by(Offset { x: 0, y: -1 });
        if self.matrix.is_clipping(&new) {
            None
        } else {
            Some(new)
        }
    }

    /// True when there is a cursor and it cannot move down any further, so
    /// the caller should lock it rather than tick.
    pub fn cursor_has_hit_bottom(&self) -> (r: bool)
        requires
            self.wf(),
            self.cursor matches Some(c) ==> c.position.y > i32::MIN,
        ensures
            r == (self.cursor is Some && self.matrix.spec_is_clipping(
                self.cursor.unwrap().spec_moved(0, -1),
            )),
    {
        self.cursor.is_some() && self.ticked_down_cursor().is_none()
    }

    /// Gravity: lowers the cursor by one row. The caller must have checked
    /// that a cursor exists and that the lowered position does not clip.
    pub fn tick_down(&mut self)
        requires
            old(self).wf(),
            old(self).cursor is Some,
            old(self).cursor.unwrap().position.y > i32::MIN,
            !old(self).matrix.spec_is_clipping(old(self).cursor.unwrap().spec_moved(0, -1)),
        ensures
            final(self).wf(),
            final(self).cursor == Some(old(self).cursor.unwrap().spec_moved(0, -1)),
            final(self).matrix == old(self).matrix,
            final(self).bag == old(self).bag,
    {
        let new = self.ticked_down_cursor().unwrap();
        self.cursor = Some(new);
    }

    /// Moves the cursor one column left or right. With no cursor this is a
    /// no-op that succeeds. A move into a clipping position is rejected:
    /// the call returns `Err` and the engine is left exactly as it was.
    pub fn move_cursor(&mut self, kind: MoveKind) -> (r: Result<(), ()>)
        requires
            old(self).wf(),
            old(self).cursor matches Some(c) ==> i32::MIN < c.position.x < i32::MAX,
        ensures
            final(self).wf(),
            final(self).matrix == old(self).matrix,
            final(self).bag == old(self).bag,
            old(self).cursor is None ==> r is Ok && final(self).cursor is None,
            old(self).cursor matches Some(c) ==> (if old(self).matrix.spec_is_clipping(
                c.spec_moved(kind.spec_offset().0, kind.spec_offset().1),
            ) {
                r is Err && final(self).cursor == old(self).cursor
            } else {
                r is Ok && final(self).cursor == Some(
                    c.spec_moved(kind.spec_offset().0, kind.spec_offset().1),
                )
            }),
    {
        let cursor = match &self.cursor {
            Some(c) => *c,
            None => {
                return Ok(());
            },
        };
        let new = cursor.moved_by(kind.offset());
        if self.matrix.is_clipping(&new) {
            return Err(());
        }
        self.cursor = Some(new);
        Ok(())
    }

    /// Locks the cursor: writes its four cells into the matrix as occupied
    /// and clears the cursor. Calling this without a cursor, or with the
    /// cursor in an unplaceable position, is a caller bug, so it is
    /// excluded.
    pub fn place_cursor(&mut self)
        requires
            old(self).wf(),
            old(self).cursor is Some,
            old(self).matrix.spec_is_placeable(old(self).cursor.unwrap()),
        ensures
            final(self).wf(),
            final(self).cursor is None,
            final(self).bag == old(self).bag,
            forall|x: int, y: int|
                0 <= x < WIDTH && 0 <= y < HEIGHT ==> #[trigger] final(self).matrix.occupied(x, y)
                    == (old(self).matrix.occupied(x, y) || old(self).cursor.unwrap().covers(x, y)),
            forall|i: int|
                0 <= i < 4 ==> final(self).matrix.occupied(
                    (#[trigger] old(self).cursor.unwrap().cell(i)).0,
                    old(self).cursor.unwrap().cell(i).1,
                ),
    {
        let cursor = self.cursor.unwrap();
        self.cursor = None;
        let cells = cursor.cells().unwrap();
        let mut i: usize = 0;
        while i < 4
            invariant
                self.matrix.wf(),
                self.bag == old(self).bag,
                self.cursor is None,
                i <= 4,
                cursor == old(self).cursor.unwrap(),
                old(self).matrix.spec_is_placeable(cursor),
                cells@.len() == 4,
                forall|j: int|
                    #![trigger cells@[j]]
                    0 <= j < 4 ==> cells@[j].x == cursor.cell(j).0 && cells@[j].y == cursor.cell(
                        j,
                    ).1,
                forall|x: int, y: int|
                    0 <= x < WIDTH && 0 <= y < HEIGHT ==> #[trigger] self.matrix.occupied(x, y) == (
                    old(self).matrix.occupied(x, y) || exists|j: int|
                        0 <= j < i && #[trigger] cursor.cell(j) == (x, y)),
            decreases 4 - i,
        {
            let c = cells[i];
            proof {
                assert(cursor.cell(i as int).1 < HEIGHT && 0 <= cursor.cell(i as int).0 < WIDTH
                    && 0 <= cursor.cell(i as int).1);
            }
            self.matrix.set(c, true);
            proof {
                let ghost prev = i as int;
                assert forall|x: int, y: int| 0 <= x < WIDTH && 0 <= y < HEIGHT implies #[trigger] self
                    .matrix.occupied(x, y) == (old(self).matrix.occupied(x, y) || exists|j: int|
                    0 <= j < prev + 1 && #[trigger] cursor.cell(j) == (x, y)) by {
                    if x == cursor.cell(prev).0 && y == cursor.cell(prev).1 {
                        assert(cursor.cell(prev) == (x, y));
                    }
                }
            }
            i += 1;
        }
        proof {
            assert forall|i: int| 0 <= i < 4 implies self.matrix.occupied(
                (#[trigger] cursor.cell(i)).0,
                cursor.cell(i).1,
            ) by {
                assert(cursor.cell(i) == (cursor.cell(i).0, cursor.cell(i).1));
                assert(cursor.covers(cursor.cell(i).0, cursor.cell(i).1));
            }
        }
    }

    /// Hard drop: lowers the cursor one row at a time for as long as the
    /// lowered position does not clip, then locks it there. The caller must
    /// ensure the resting position is placeable; by
    /// `lemma_dropped_placeable` any placeable cursor satisfies that.
    pub fn hard_drop(&mut self)
        requires
            old(self).wf(),
            old(self).cursor is Some,
            old(self).matrix.spec_is_placeable(
                spec_dropped(old(self).matrix, old(self).cursor.unwrap()),
            ),
        ensures
            final(self).wf(),
            final(self).cursor is None,
            final(self).bag == old(self).bag,
            forall|x: int, y: int|
                0 <= x < WIDTH && 0 <= y < HEIGHT ==> #[trigger] final(self).matrix.occupied(x, y)
                    == (old(self).matrix.occupied(x, y) || spec_dropped(
                    old(self).matrix,
                    old(self).cursor.unwrap(),
                ).covers(x, y)),
    {
        proof {
            let c0 = old(self).cursor.unwrap();
            let rest = spec_dropped(old(self).matrix, old(self).cursor.unwrap());
            lemma_local_cells_in_grid(rest);
            if c0.position.y < -3 {
                // the resting position would be the start itself, yet a
                // placeable piece never sits below row -3
                assert(rest == c0);
                assert(0 <= rest.cell(0).1);
            }
        }
        loop
            invariant
                self.wf(),
                self.matrix == old(self).matrix,
                self.bag == old(self).bag,
                self.cursor is Some,
                self.cursor.unwrap().position.y >= -3,
                spec_dropped(self.matrix, self.cursor.unwrap()) == spec_dropped(
                    old(self).matrix,
                    old(self).cursor.unwrap(),
                ),
            ensures
                self.matrix == old(self).matrix,
                self.bag == old(self).bag,
                self.cursor is Some,
                self.cursor.unwrap() == spec_dropped(old(self).matrix, old(self).cursor.unwrap()),
            decreases self.cursor.unwrap().position.y + 4,
        {
            match self.ticked_down_cursor() {
                Some(new) => {
                    proof {
                        lemma_local_cells_in_grid(new);
                        assert(0 <= new.cell(0).1);
                    }
                    self.cursor = Some(new);
                },
                None => {
                    break;
                },
            }
        }
        self.place_cursor();
    }
}

/// The resting position of `p` on board `m`: the result of lowering it one
/// row at a time for as long as the lowered position does not clip. (Any
/// position below row -3 has already left the board, and clips.)
pub open spec fn spec_dropped(m: Matrix, p: Piece) -> Piece
    decreases p.position.y + 4,
{
    if p.position.y < -3 || m.spec_is_clipping(p.spec_moved(0, -1)) {
        p
    } else {
        spec_dropped(m, p.spec_moved(0, -1))
    }
}

/// A hard drop always ends in a legal lock: from any placeable position,
/// the resting position found by dropping is itself placeable.
pub proof fn lemma_dropped_placeable(m: Matrix, p: Piece)
    requires
        m.wf(),
        m.spec_is_placeable(p),
    ensures
        m.spec_is_placeable(spec_dropped(m, p)),
    decreases p.position.y + 4,
{
    lemma_local_cells_in_grid(p);
    assert(0 <= p.cell(0).1);
    let down = p.spec_moved(0, -1);
    if !(p.position.y < -3 || m.spec_is_clipping(down)) {
        assert forall|i: int|
            0 <= i < 4 implies (#[trigger] down.cell(i)).1 < HEIGHT && !m.occupied(
            down.cell(i).0,
            down.cell(i).1,
        ) by {
            assert(down.cell(i).0 == p.cell(i).0 && down.cell(i).1 == p.cell(i).1 - 1);
            assert(!(down.cell(i).1 < HEIGHT && m.occupied(down.cell(i).0, down.cell(i).1)));
        }
        lemma_dropped_placeable(m, down);
    }
}

/// Bag fairness: seven consecutive draws that start from an empty bag
/// yield exactly one piece of each of the seven kinds.
#[verifier::rlimit(60)]
pub proof fn lemma_bag_fairness(
    e0: Engine,
    e1: Engine,
    e2: Engine,
    e3: Engine,
    e4: Engine,
    e5: Engine,
    e6: Engine,
    e7: Engine,
    k1: Kind,
    k2: Kind,
    k3: Kind,
    k4: Kind,
    k5: Kind,
    k6: Kind,
    k7: Kind,
)
    requires
        e0.bag@.len() == 0,
        next_draw(e0, e1, k1),
        next_draw(e1, e2, k2),
        next_draw(e2, e3, k3),
        next_draw(e3, e4, k4),
        next_draw(e4, e5, k5),
        next_draw(e5, e6, k6),
        next_draw(e6, e7, k7),
    ensures
        seq![k1, k2, k3, k4, k5, k6, k7].to_multiset() == all_kinds().to_multiset(),
{
    broadcast use vstd::multiset::group_multiset_axioms;

    // each later draw pops the last element, so each bag is the next bag
    // with the drawn kind pushed back on
    assert(e1.bag@ =~= e2.bag@.push(k2));
    assert(e2.bag@ =~= e3.bag@.push(k3));
    assert(e3.bag@ =~= e4.bag@.push(k4));
    assert(e4.bag@ =~= e5.bag@.push(k5));
    assert(e5.bag@ =~= e6.bag@.push(k6));
    assert(e6.bag@ =~= e7.bag@.push(k7));
    vstd::seq_lib::to_multiset_build(e2.bag@, k2);
    vstd::seq_lib::to_multiset_build(e3.bag@, k3);
    vstd::seq_lib::to_multiset_build(e4.bag@, k4);
    vstd::seq_lib::to_multiset_build(e5.bag@, k5);
    vstd::seq_lib::to_multiset_build(e6.bag@, k6);
    vstd::seq_lib::to_multiset_build(e7.bag@, k7);
    e7.bag@.to_multiset_ensures();
    vstd::multiset::lemma_multiset_empty_len(e7.bag@.to_multiset());
    assert(e7.bag@.to_multiset() =~= Multiset::<Kind>::empty());
    // build the multiset of the drawn kinds, one push at a time
    let s0 = Seq::<Kind>::empty();
    let s1 = s0.push(k1);
    let s2 = s1.push(k2);
    let s3 = s2.push(k3);
    let s4 = s3.push(k4);
    let s5 = s4.push(k5);
    let s6 = s5.push(k6);
    let s7 = s6.push(k7);
    vstd::seq_lib::to_multiset_build(s0, k1);
    vstd::seq_lib::to_multiset_build(s1, k2);
    vstd::seq_lib::to_multiset_build(s2, k3);
    vstd::seq_lib::to_multiset_build(s3, k4);
    vstd::seq_lib::to_multiset_build(s4, k5);
    vstd::seq_lib::to_multiset_build(s5, k6);
    vstd::seq_lib::to_multiset_build(s6, k7);
    s0.to_multiset_ensures();
    vstd::multiset::lemma_multiset_empty_len(s0.to_multiset());
    assert(s0.to_multiset() =~= Multiset::<Kind>::empty());
    let drawn = seq![k1, k2, k3, k4, k5, k6, k7];
    assert(drawn =~= s7);
    assert(drawn.to_multiset() =~= all_kinds().to_multiset());
}

} // verus!
