use tetrs::engine::{Color, Coordinate, Offset};
use tetrs::piece::{Kind, Piece, Rotation};

const ALL_KINDS: [Kind; 7] = [
    Kind::O,
    Kind::I,
    Kind::T,
    Kind::L,
    Kind::J,
    Kind::S,
    Kind::Z,
];

const ALL_ROTATIONS: [Rotation; 4] = [Rotation::N, Rotation::E, Rotation::S, Rotation::W];

#[test]
fn z_piece_positioning() {
    let z = Piece {
        kind: Kind::Z,
        position: Offset { x: 5, y: 6 },
        rotation: Rotation::W,
    };

    let cells = z.cells().expect("a Z piece at (5, 6) is fully on the board");
    let expected = vec![
        Coordinate { x: 5, y: 6 },
        Coordinate { x: 5, y: 7 },
        Coordinate { x: 6, y: 7 },
        Coordinate { x: 6, y: 8 },
    ];
    assert_eq!(cells, expected);
}

#[test]
fn every_kind_and_rotation_yields_four_cells_on_board() {
    for kind in ALL_KINDS {
        for rotation in ALL_ROTATIONS {
            let piece = Piece {
                kind,
                position: Offset { x: 3, y: 3 },
                rotation,
            };
            let cells = piece.cells().expect("a piece at (3, 3) is fully on the board");
            assert_eq!(cells.len(), 4);
            for c in cells {
                assert!(c.x < 10);
                assert!(c.y < 20);
            }
        }
    }
}

#[test]
fn o_piece_cells_are_rotation_invariant() {
    let spawn = Piece {
        kind: Kind::O,
        position: Offset { x: 4, y: 7 },
        rotation: Rotation::N,
    };
    let reference = spawn.cells().unwrap();
    for rotation in ALL_ROTATIONS {
        let rotated = Piece { rotation, ..spawn };
        assert_eq!(rotated.cells().unwrap(), reference);
    }
}

#[test]
fn cells_reports_nothing_for_a_piece_off_the_left_edge() {
    let piece = Piece {
        kind: Kind::T,
        position: Offset { x: -2, y: 5 },
        rotation: Rotation::N,
    };
    assert_eq!(piece.cells(), None);
}

#[test]
fn cells_reports_nothing_for_a_piece_below_the_floor() {
    let piece = Piece {
        kind: Kind::T,
        position: Offset { x: 4, y: -4 },
        rotation: Rotation::N,
    };
    assert_eq!(piece.cells(), None);
}

#[test]
fn moved_by_translates_the_position_only() {
    let piece = Piece {
        kind: Kind::L,
        position: Offset { x: 2, y: 9 },
        rotation: Rotation::E,
    };
    let moved = piece.moved_by(Offset { x: -1, y: 3 });
    assert_eq!(moved.kind, Kind::L);
    assert_eq!(moved.rotation, Rotation::E);
    assert_eq!(moved.position, Offset { x: 1, y: 12 });
}

#[test]
fn grid_sizes_match_the_shape_tables() {
    for kind in ALL_KINDS {
        let expected = if kind == Kind::I { 4 } else { 3 };
        assert_eq!(kind.grid_size(), expected);
    }
}

#[test]
fn each_kind_has_its_own_color() {
    assert_eq!(Kind::O.color(), Color::Yellow);
    assert_eq!(Kind::I.color(), Color::Cyan);
    assert_eq!(Kind::T.color(), Color::Purple);
    assert_eq!(Kind::L.color(), Color::Orange);
    assert_eq!(Kind::J.color(), Color::Blue);
    assert_eq!(Kind::S.color(), Color::Green);
    assert_eq!(Kind::Z.color(), Color::Red);
}

#[test]
fn s_piece_spawn_cells_form_the_s_tetromino() {
    let s = Piece {
        kind: Kind::S,
        position: Offset { x: 0, y: 0 },
        rotation: Rotation::N,
    };
    let cells = s.cells().unwrap();
    let expected = vec![
        Coordinate { x: 0, y: 1 },
        Coordinate { x: 1, y: 1 },
        Coordinate { x: 1, y: 2 },
        Coordinate { x: 2, y: 2 },
    ];
    assert_eq!(cells, expected);
}
