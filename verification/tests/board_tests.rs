use north_pole::board::{Board, GameOutcome, Tile};
use north_pole::board_service::{BoardHandle, PlaceOutcome};
use rand::SeedableRng;

fn board_from_cells(cells: [Tile; 16]) -> Board {
    Board { cells: cells.to_vec() }
}

#[test]
fn board_words_round_trip() {
    // A board built by play...
    let mut b = Board::decode(0);
    b.push_item(0, Tile::Cookie).unwrap();
    b.push_item(1, Tile::Milk).unwrap();
    b.push_item(0, Tile::Milk).unwrap();
    let word = b.encode();
    // ...survives packing and unpacking unchanged,
    let again = Board::decode(word);
    assert_eq!(again.cells, b.cells);
    // and its packed word survives the reverse trip.
    assert_eq!(again.encode(), word);
    // The upper half of the word is always clear.
    assert_eq!(word >> 32, 0);
}

#[test]
fn empty_board_is_word_zero() {
    let b = Board::decode(0);
    assert!(b.cells.iter().all(|t| *t == Tile::Empty));
    assert_eq!(b.encode(), 0);
}

#[test]
fn win_in_row_0() {
    let e = Tile::Empty;
    let c = Tile::Cookie;
    let b = board_from_cells([c, c, c, c, e, e, e, e, e, e, e, e, e, e, e, e]);
    assert_eq!(b.check_for_winner(), GameOutcome::Won(Tile::Cookie));
}

#[test]
fn win_in_column_2() {
    let e = Tile::Empty;
    let m = Tile::Milk;
    let b = board_from_cells([e, e, m, e, e, e, m, e, e, e, m, e, e, e, m, e]);
    assert_eq!(b.check_for_winner(), GameOutcome::Won(Tile::Milk));
}

#[test]
fn win_on_main_diagonal() {
    let e = Tile::Empty;
    let c = Tile::Cookie;
    let b = board_from_cells([c, e, e, e, e, c, e, e, e, e, c, e, e, e, e, c]);
    assert_eq!(b.check_for_winner(), GameOutcome::Won(Tile::Cookie));
}

#[test]
fn win_on_anti_diagonal() {
    let e = Tile::Empty;
    let m = Tile::Milk;
    let b = board_from_cells([e, e, e, m, e, e, m, e, e, m, e, e, m, e, e, e]);
    assert_eq!(b.check_for_winner(), GameOutcome::Won(Tile::Milk));
}

#[test]
fn full_board_without_line_is_a_draw() {
    let c = Tile::Cookie;
    let m = Tile::Milk;
    let b = board_from_cells([c, c, m, m, m, m, c, c, c, c, m, m, m, m, c, c]);
    assert_eq!(b.check_for_winner(), GameOutcome::Draw);
}

#[test]
fn fresh_board_is_in_progress() {
    let b = Board::decode(0);
    assert_eq!(b.check_for_winner(), GameOutcome::InProgress);
}

#[test]
fn gravity_fills_bottom_row_first() {
    let mut b = Board::decode(0);
    // The first piece in a column lands on the bottom row (row 3)...
    b.push_item(1, Tile::Cookie).unwrap();
    assert_eq!(b.cells[13], Tile::Cookie);
    // ...and the following ones stack upwards.
    b.push_item(1, Tile::Milk).unwrap();
    assert_eq!(b.cells[9], Tile::Milk);
    b.push_item(1, Tile::Cookie).unwrap();
    assert_eq!(b.cells[5], Tile::Cookie);
    b.push_item(1, Tile::Milk).unwrap();
    assert_eq!(b.cells[1], Tile::Milk);
    // The fifth piece finds the column full; the board is unchanged.
    let before = b.encode();
    assert!(b.push_item(1, Tile::Cookie).is_err());
    assert_eq!(b.encode(), before);
}

#[test]
fn get_col_reads_top_to_bottom() {
    let mut b = Board::decode(0);
    b.push_item(2, Tile::Milk).unwrap();
    b.push_item(2, Tile::Cookie).unwrap();
    let col = b.get_col(2);
    assert_eq!(col, [Tile::Empty, Tile::Empty, Tile::Cookie, Tile::Milk]);
}

#[test]
fn empty_board_renders_as_framed_grid() {
    let handle = BoardHandle::new();
    let rendered = handle.reset().unwrap();
    let expected = "\u{2b1c}\u{2b1b}\u{2b1b}\u{2b1b}\u{2b1b}\u{2b1c}\n\
                    \u{2b1c}\u{2b1b}\u{2b1b}\u{2b1b}\u{2b1b}\u{2b1c}\n\
                    \u{2b1c}\u{2b1b}\u{2b1b}\u{2b1b}\u{2b1b}\u{2b1c}\n\
                    \u{2b1c}\u{2b1b}\u{2b1b}\u{2b1b}\u{2b1b}\u{2b1c}\n\
                    \u{2b1c}\u{2b1c}\u{2b1c}\u{2b1c}\u{2b1c}\u{2b1c}\n";
    assert_eq!(rendered, expected);
}

#[test]
fn four_placements_fill_a_column_and_win() {
    let handle = BoardHandle::new();
    handle.reset().unwrap();

    // Three placements leave the game in progress, filling bottom to top.
    for _ in 0..3 {
        match handle.place("cookie", "1") {
            PlaceOutcome::Placed(s) => assert!(!s.contains("wins!")),
            other_outcome => panic!("expected a placement, got {}", describe(&other_outcome)),
        }
    }
    // The fourth completes the column: a winning line.
    match handle.place("cookie", "1") {
        PlaceOutcome::Placed(s) => {
            let expected = "\u{2b1c}\u{1f36a}\u{2b1b}\u{2b1b}\u{2b1b}\u{2b1c}\n\
                            \u{2b1c}\u{1f36a}\u{2b1b}\u{2b1b}\u{2b1b}\u{2b1c}\n\
                            \u{2b1c}\u{1f36a}\u{2b1b}\u{2b1b}\u{2b1b}\u{2b1c}\n\
                            \u{2b1c}\u{1f36a}\u{2b1b}\u{2b1b}\u{2b1b}\u{2b1c}\n\
                            \u{2b1c}\u{2b1c}\u{2b1c}\u{2b1c}\u{2b1c}\u{2b1c}\n\
                            \u{1f36a} wins!\n";
            assert_eq!(s, expected);
        }
        other_outcome => panic!("expected the winning placement, got {}", describe(&other_outcome)),
    }
    // A finished game refuses further moves.
    assert!(matches!(handle.place("milk", "2"), PlaceOutcome::Finished(_)));
}

fn describe(outcome: &PlaceOutcome) -> &'static str {
    match outcome {
        PlaceOutcome::Invalid => "Invalid",
        PlaceOutcome::Finished(_) => "Finished",
        PlaceOutcome::Placed(_) => "Placed",
        PlaceOutcome::DrawAfter(_) => "DrawAfter",
        PlaceOutcome::Full => "Full",
        PlaceOutcome::Corrupt => "Corrupt",
        PlaceOutcome::Busy => "Busy",
    }
}

#[test]
fn place_rejects_bad_tokens() {
    let handle = BoardHandle::new();
    assert!(matches!(handle.place("santa", "1"), PlaceOutcome::Invalid));
    assert!(matches!(handle.place("cookie", "0"), PlaceOutcome::Invalid));
    assert!(matches!(handle.place("cookie", "5"), PlaceOutcome::Invalid));
    assert!(matches!(handle.place("milk", "one"), PlaceOutcome::Invalid));
    // Leading plus signs and zeros parse the way std reads integers.
    assert!(matches!(handle.place("milk", "+4"), PlaceOutcome::Placed(_)));
    assert!(matches!(handle.place("milk", "04"), PlaceOutcome::Placed(_)));
}

#[test]
fn full_column_reports_full() {
    let handle = BoardHandle::new();
    handle.reset().unwrap();
    // Alternate so the column fills without finishing the game.
    assert!(matches!(handle.place("cookie", "3"), PlaceOutcome::Placed(_)));
    assert!(matches!(handle.place("milk", "3"), PlaceOutcome::Placed(_)));
    assert!(matches!(handle.place("cookie", "3"), PlaceOutcome::Placed(_)));
    assert!(matches!(handle.place("milk", "3"), PlaceOutcome::Placed(_)));
    assert!(matches!(handle.place("cookie", "3"), PlaceOutcome::Full));
}

#[test]
fn random_board_fills_every_cell() {
    let mut rng = rand::rngs::StdRng::seed_from_u64(2024);
    let b = Board::new_random(&mut rng);
    assert!(b.cells.iter().all(|t| *t != Tile::Empty));

    let handle = BoardHandle::new();
    let rendered = handle.random_board(&mut rng).unwrap();
    assert!(!rendered.contains('\u{2b1b}'));
}
