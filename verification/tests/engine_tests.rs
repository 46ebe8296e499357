use tetrs::engine::{Coordinate, Engine, Matrix, MoveKind, Offset};
use tetrs::piece::{Kind, Piece, Rotation};

fn engine_with_cursor(piece: Piece) -> Engine {
    Engine {
        matrix: Matrix::blank(),
        bag: Vec::new(),
        cursor: Some(piece),
    }
}

#[test]
fn coordinate_validity_follows_the_board_bounds() {
    assert!(Matrix::valid_coord(Coordinate { x: 9, y: 0 }));
    assert!(!Matrix::valid_coord(Coordinate { x: 10, y: 0 }));
    assert!(Matrix::on_matrix(Coordinate { x: 9, y: 19 }));
    assert!(!Matrix::on_matrix(Coordinate { x: 9, y: 20 }));
    assert!(!Matrix::on_matrix(Coordinate { x: 10, y: 19 }));
}

#[test]
fn a_new_engine_has_a_blank_board_and_no_cursor() {
    let engine = Engine::new();
    assert!(engine.cursor.is_none());
    assert!(engine.bag.is_empty());
    for x in 0..10 {
        for y in 0..20 {
            assert!(!engine.matrix.get(Coordinate { x, y }));
        }
    }
}

#[test]
fn a_piece_in_empty_cells_does_not_clip() {
    let matrix = Matrix::blank();
    let piece = Piece {
        kind: Kind::T,
        position: Offset { x: 4, y: 4 },
        rotation: Rotation::N,
    };
    assert!(!matrix.is_clipping(&piece));
    assert!(matrix.is_placeable(&piece));
}

#[test]
fn a_piece_overlapping_an_occupied_cell_clips() {
    let mut matrix = Matrix::blank();
    let piece = Piece {
        kind: Kind::T,
        position: Offset { x: 4, y: 4 },
        rotation: Rotation::N,
    };
    // occupy one of the piece's own cells: (4 + 0, 4 + 1)
    matrix.set(Coordinate { x: 4, y: 5 }, true);
    assert!(matrix.is_clipping(&piece));
    assert!(!matrix.is_placeable(&piece));
}

#[test]
fn a_piece_with_invalid_geometry_clips_and_is_not_placeable() {
    let matrix = Matrix::blank();
    let piece = Piece {
        kind: Kind::I,
        position: Offset { x: 8, y: 4 },
        rotation: Rotation::N,
    };
    assert_eq!(piece.cells(), None);
    assert!(matrix.is_clipping(&piece));
    assert!(!matrix.is_placeable(&piece));
}

#[test]
fn a_piece_above_the_board_is_free_of_clipping_yet_not_placeable() {
    let matrix = Matrix::blank();
    let piece = Piece {
        kind: Kind::T,
        position: Offset { x: 4, y: 18 },
        rotation: Rotation::N,
    };
    // its top cell sits at row 20, above the board
    assert!(!matrix.is_clipping(&piece));
    assert!(!matrix.is_placeable(&piece));
}

#[test]
fn a_move_into_the_wall_is_rejected_and_changes_nothing() {
    let piece = Piece {
        kind: Kind::J,
        position: Offset { x: 0, y: 5 },
        rotation: Rotation::N,
    };
    let mut engine = engine_with_cursor(piece);
    assert_eq!(engine.move_cursor(MoveKind::Left), Err(()));
    assert_eq!(engine.cursor, Some(piece));
}

#[test]
fn a_legal_move_shifts_the_cursor_one_column() {
    let piece = Piece {
        kind: Kind::J,
        position: Offset { x: 0, y: 5 },
        rotation: Rotation::N,
    };
    let mut engine = engine_with_cursor(piece);
    assert_eq!(engine.move_cursor(MoveKind::Right), Ok(()));
    let moved = engine.cursor.expect("the cursor survives a legal move");
    assert_eq!(moved.position, Offset { x: 1, y: 5 });
    assert_eq!(moved.kind, Kind::J);
    assert_eq!(moved.rotation, Rotation::N);
}

#[test]
fn moving_without_a_cursor_succeeds_and_changes_nothing() {
    let mut engine = Engine::new();
    assert_eq!(engine.move_cursor(MoveKind::Left), Ok(()));
    assert!(engine.cursor.is_none());
}

#[test]
fn tick_down_lowers_the_cursor_one_row() {
    let piece = Piece {
        kind: Kind::S,
        position: Offset { x: 3, y: 10 },
        rotation: Rotation::N,
    };
    let mut engine = engine_with_cursor(piece);
    assert!(!engine.cursor_has_hit_bottom());
    engine.tick_down();
    assert_eq!(
        engine.cursor.unwrap().position,
        Offset { x: 3, y: 9 }
    );
}

#[test]
fn a_piece_resting_on_the_floor_has_hit_bottom() {
    // the T piece's lowest cells sit one row above its position, so at
    // position row -1 they rest on the bottom row of the board
    let piece = Piece {
        kind: Kind::T,
        position: Offset { x: 4, y: -1 },
        rotation: Rotation::N,
    };
    let engine = engine_with_cursor(piece);
    assert!(engine.cursor_has_hit_bottom());
    assert!(engine.ticked_down_cursor().is_none());
}

#[test]
fn place_cursor_writes_the_cells_and_clears_the_cursor() {
    let piece = Piece {
        kind: Kind::T,
        position: Offset { x: 4, y: 4 },
        rotation: Rotation::N,
    };
    let mut engine = engine_with_cursor(piece);
    assert!(engine.matrix.is_placeable(&piece));
    engine.place_cursor();
    assert!(engine.cursor.is_none());
    let expected = [
        Coordinate { x: 4, y: 5 },
        Coordinate { x: 5, y: 5 },
        Coordinate { x: 6, y: 5 },
        Coordinate { x: 5, y: 6 },
    ];
    for c in expected {
        assert!(engine.matrix.get(c));
    }
    for x in 0..10 {
        for y in 0..20 {
            let c = Coordinate { x, y };
            if !expected.contains(&c) {
                assert!(!engine.matrix.get(c));
            }
        }
    }
}

#[test]
fn hard_drop_locks_the_piece_at_its_resting_position() {
    let piece = Piece {
        kind: Kind::T,
        position: Offset { x: 4, y: 10 },
        rotation: Rotation::N,
    };
    let mut engine = engine_with_cursor(piece);
    engine.hard_drop();
    assert!(engine.cursor.is_none());
    // the piece falls until its lowest cells reach row 0
    let expected = [
        Coordinate { x: 4, y: 0 },
        Coordinate { x: 5, y: 0 },
        Coordinate { x: 6, y: 0 },
        Coordinate { x: 5, y: 1 },
    ];
    for c in expected {
        assert!(engine.matrix.get(c));
    }
}

#[test]
fn hard_drop_rests_on_previously_locked_cells() {
    let first = Piece {
        kind: Kind::O,
        position: Offset { x: 3, y: 5 },
        rotation: Rotation::N,
    };
    let mut engine = engine_with_cursor(first);
    engine.hard_drop();
    let second = Piece {
        kind: Kind::O,
        position: Offset { x: 3, y: 10 },
        rotation: Rotation::N,
    };
    engine.cursor = Some(second);
    engine.hard_drop();
    // the O piece occupies the middle 2 x 2 of its grid; the first drop
    // fills rows 0 and 1, the second stacks onto rows 2 and 3
    for y in 0..4 {
        assert!(engine.matrix.get(Coordinate { x: 4, y }));
        assert!(engine.matrix.get(Coordinate { x: 5, y }));
    }
    assert!(!engine.matrix.get(Coordinate { x: 4, y: 4 }));
}

#[test]
fn refill_fills_an_empty_bag_with_one_of_each_kind() {
    let mut engine = Engine::new();
    engine.refill_bag();
    assert_eq!(engine.bag.len(), 7);
    for kind in [
        Kind::O,
        Kind::I,
        Kind::T,
        Kind::L,
        Kind::J,
        Kind::S,
        Kind::Z,
    ] {
        assert_eq!(engine.bag.iter().filter(|k| **k == kind).count(), 1);
    }
}

#[test]
fn seven_draws_yield_one_piece_of_each_kind() {
    let mut engine = Engine::new();
    let mut drawn = Vec::new();
    for _ in 0..7 {
        drawn.push(engine.next_kind());
    }
    for kind in [
        Kind::O,
        Kind::I,
        Kind::T,
        Kind::L,
        Kind::J,
        Kind::S,
        Kind::Z,
    ] {
        assert_eq!(drawn.iter().filter(|k| **k == kind).count(), 1);
    }
}

#[test]
fn fourteen_draws_yield_two_pieces_of_each_kind() {
    let mut engine = Engine::new();
    let mut drawn = Vec::new();
    for _ in 0..14 {
        drawn.push(engine.next_kind());
    }
    for kind in [
        Kind::O,
        Kind::I,
        Kind::T,
        Kind::L,
        Kind::J,
        Kind::S,
        Kind::Z,
    ] {
        assert_eq!(drawn.iter().filter(|k| **k == kind).count(), 2);
    }
}
