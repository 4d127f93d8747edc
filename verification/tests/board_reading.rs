use chess_fen::{Board, BoardContent, Color, ParseError, Piece, Row, INITIAL_FEN};

fn back_rank(color: Color) -> Row {
    [
        Some(Piece::Rook(color)),
        Some(Piece::Knight(color)),
        Some(Piece::Bishop(color)),
        Some(Piece::Queen(color)),
        Some(Piece::King(color)),
        Some(Piece::Bishop(color)),
        Some(Piece::Knight(color)),
        Some(Piece::Rook(color)),
    ]
}

fn read(text: &str) -> Result<Board, ParseError> {
    Board::from_fen(String::from(text))
}

fn refused(text: &str) -> bool {
    matches!(read(text), Err(ParseError::MalformedFen))
}

#[test]
fn test_board_new() {
    let actual = Board::new().content;
    let expected: BoardContent = vec![
        vec![
            Some(Piece::Rook(Color::Black)),
            Some(Piece::Knight(Color::Black)),
            Some(Piece::Bishop(Color::Black)),
            Some(Piece::Queen(Color::Black)),
            Some(Piece::King(Color::Black)),
            Some(Piece::Bishop(Color::Black)),
            Some(Piece::Knight(Color::Black)),
            Some(Piece::Rook(Color::Black)),
        ]
        .try_into()
        .unwrap(),
        vec![
            Some(Piece::Pawn(Color::Black)),
            Some(Piece::Pawn(Color::Black)),
            Some(Piece::Pawn(Color::Black)),
            Some(Piece::Pawn(Color::Black)),
            Some(Piece::Pawn(Color::Black)),
            Some(Piece::Pawn(Color::Black)),
            Some(Piece::Pawn(Color::Black)),
            Some(Piece::Pawn(Color::Black)),
        ]
        .try_into()
        .unwrap(),
        vec![None; 8].try_into().unwrap(),
        vec![None; 8].try_into().unwrap(),
        vec![None; 8].try_into().unwrap(),
        vec![None; 8].try_into().unwrap(),
        vec![
            Some(Piece::Pawn(Color::White)),
            Some(Piece::Pawn(Color::White)),
            Some(Piece::Pawn(Color::White)),
            Some(Piece::Pawn(Color::White)),
            Some(Piece::Pawn(Color::White)),
            Some(Piece::Pawn(Color::White)),
            Some(Piece::Pawn(Color::White)),
            Some(Piece::Pawn(Color::White)),
        ]
        .try_into()
        .unwrap(),
        vec![
            Some(Piece::Rook(Color::White)),
            Some(Piece::Knight(Color::White)),
            Some(Piece::Bishop(Color::White)),
            Some(Piece::Queen(Color::White)),
            Some(Piece::King(Color::White)),
            Some(Piece::Bishop(Color::White)),
            Some(Piece::Knight(Color::White)),
            Some(Piece::Rook(Color::White)),
        ]
        .try_into()
        .unwrap(),
    ]
    .try_into()
    .unwrap();

    assert_eq!(actual, expected);
}

#[test]
fn default_is_the_starting_position() {
    let board = Board::default();
    assert_eq!(board.content[0], back_rank(Color::Black));
    assert_eq!(board.content[1], [Some(Piece::Pawn(Color::Black)); 8]);
    for r in 2..6 {
        assert_eq!(board.content[r], [None; 8]);
    }
    assert_eq!(board.content[6], [Some(Piece::Pawn(Color::White)); 8]);
    assert_eq!(board.content[7], back_rank(Color::White));
    assert_eq!(board.metadata, "w KQkq - 0 1");
}

#[test]
fn new_and_default_agree_with_reading_the_initial_text() {
    let read = read(INITIAL_FEN).unwrap();
    let new = Board::new();
    let default = Board::default();
    assert_eq!(INITIAL_FEN, "rnbqkbnr/pppppppp/8/8/8/8/PPPPPPPP/RNBQKBNR w KQkq - 0 1");
    assert_eq!(new.content, read.content);
    assert_eq!(new.metadata, read.metadata);
    assert_eq!(default.content, read.content);
    assert_eq!(default.metadata, read.metadata);
}

#[test]
fn empty_board() {
    let board = read("8/8/8/8/8/8/8/8 w - - 0 1").unwrap();
    assert_eq!(board.content, [[None; 8]; 8]);
    assert_eq!(board.metadata, "w - - 0 1");
}

#[test]
fn ranks_are_kept_in_the_order_written() {
    let board = read("k7/1q6/2r5/3b4/4N3/5P2/6Q1/7K b - e3 12 34").unwrap();
    let pieces = [
        Piece::King(Color::Black),
        Piece::Queen(Color::Black),
        Piece::Rook(Color::Black),
        Piece::Bishop(Color::Black),
        Piece::Knight(Color::White),
        Piece::Pawn(Color::White),
        Piece::Queen(Color::White),
        Piece::King(Color::White),
    ];
    for r in 0..8 {
        for f in 0..8 {
            let expected = if r == f { Some(pieces[r]) } else { None };
            assert_eq!(board.content[r][f], expected);
        }
    }
    assert_eq!(board.metadata, "b - e3 12 34");
}

#[test]
fn a_position_from_a_game() {
    let board = read("r1bqkb1r/pppp1ppp/2n2n2/4p3/2B1P3/5N2/PPPP1PPP/RNBQK2R w KQkq - 4 4").unwrap();
    let b = Color::Black;
    let w = Color::White;
    assert_eq!(
        board.content[0],
        [
            Some(Piece::Rook(b)),
            None,
            Some(Piece::Bishop(b)),
            Some(Piece::Queen(b)),
            Some(Piece::King(b)),
            Some(Piece::Bishop(b)),
            None,
            Some(Piece::Rook(b)),
        ]
    );
    assert_eq!(
        board.content[2],
        [None, None, Some(Piece::Knight(b)), None, None, Some(Piece::Knight(b)), None, None]
    );
    assert_eq!(
        board.content[4],
        [None, None, Some(Piece::Bishop(w)), None, Some(Piece::Pawn(w)), None, None, None]
    );
    assert_eq!(
        board.content[7],
        [
            Some(Piece::Rook(w)),
            Some(Piece::Knight(w)),
            Some(Piece::Bishop(w)),
            Some(Piece::Queen(w)),
            Some(Piece::King(w)),
            None,
            None,
            Some(Piece::Rook(w)),
        ]
    );
    assert_eq!(board.metadata, "w KQkq - 4 4");
}

#[test]
fn metadata_is_everything_after_the_first_space() {
    assert_eq!(read("8/8/8/8/8/8/8/8 ").unwrap().metadata, "");
    assert_eq!(read("8/8/8/8/8/8/8/8  ").unwrap().metadata, " ");
    assert_eq!(read("8/8/8/8/8/8/8/8   w  -").unwrap().metadata, "  w  -");
    assert_eq!(read("8/8/8/8/8/8/8/8 8/8 x/y/z 9").unwrap().metadata, "8/8 x/y/z 9");
    assert_eq!(read("8/8/8/8/8/8/8/8 ♔ é \u{10FFFF}").unwrap().metadata, "♔ é \u{10FFFF}");
}

#[test]
fn text_without_a_space_is_malformed() {
    assert!(refused(""));
    assert!(refused("8/8/8/8/8/8/8/8"));
    assert!(refused("rnbqkbnr/pppppppp/8/8/8/8/PPPPPPPP/RNBQKBNR"));
    assert!(refused("8/8/8/8/8/8/8/8\tw\t-\t-\t0\t1"));
    assert!(refused("8/8/8/8/8/8/8/8\u{a0}w"));
}

#[test]
fn seven_ranks_are_malformed() {
    assert!(refused("8/8/8/8/8/8/8 w - - 0 1"));
    assert!(refused("rnbqkbnr/pppppppp/8/8/8/PPPPPPPP/RNBQKBNR w KQkq - 0 1"));
}

#[test]
fn any_number_of_ranks_but_eight_is_malformed() {
    assert!(refused(" w - - 0 1"));
    assert!(refused("8 w - - 0 1"));
    assert!(refused("8/8 w - - 0 1"));
    assert!(refused("8/8/8/8/8/8/8/8/8 w - - 0 1"));
    assert!(refused("8/8/8/8/8/8/8/8/ w - - 0 1"));
    assert!(refused("/8/8/8/8/8/8/8/8 w - - 0 1"));
    assert!(refused("8/8/8/8/8/8/8/8/8/8/8/8/8/8/8/8 w - - 0 1"));
    assert!(refused("8/8/8/8/8/8/8 8 w - - 0 1"));
}

#[test]
fn a_rank_of_another_width_is_malformed() {
    assert!(refused("9/8/8/8/8/8/8/8 w - - 0 1"));
    assert!(refused("pppppppppp/8/8/8/8/8/8/8 w - - 0 1"));
    assert!(refused("8/8/8/8/8/8/8/7 w - - 0 1"));
    assert!(refused("8/8/8/ppppppp/8/8/8/8 w - - 0 1"));
    assert!(refused("8/8/8/8//8/8/8 w - - 0 1"));
    assert!(refused("8/8/8/8/8/8/8/ w - - 0 1"));
    assert!(refused("8/8/44p/8/8/8/8/8 w - - 0 1"));
    assert!(refused("8/8/p44/8/8/8/8/8 w - - 0 1"));
    assert!(refused("8/8/8/8/8/8/81/8 w - - 0 1"));
    assert!(refused("8/8/8/8/8/8/8/88888888 w - - 0 1"));
}

#[test]
fn the_digits_zero_and_nine_are_malformed() {
    assert!(refused("08/8/8/8/8/8/8/8 w - - 0 1"));
    assert!(refused("80/8/8/8/8/8/8/8 w - - 0 1"));
    assert!(refused("4p03/8/8/8/8/8/8/8 w - - 0 1"));
    assert!(refused("8/8/8/8/8/8/8/9 w - - 0 1"));
    assert!(read("44/8/8/8/8/8/8/8 w - - 0 1").is_ok());
    assert!(read("1111p111/8/8/8/8/8/8/8 w - - 0 1").is_ok());
}

#[test]
fn a_letter_that_names_no_piece_is_malformed() {
    assert!(refused("8/8/8/8/8/8/8/x8 w - - 0 1"));
    assert!(refused("8/8/8/8/8/8/8/7x w - - 0 1"));
    assert!(refused("rnbqkbnr/pppppppp/8/8/8/8/PPPPPPPP/RNBQKBNM w KQkq - 0 1"));
    assert!(refused("8/8/8/8/a8/8/8/8 w - - 0 1"));
}

#[test]
fn other_characters_in_a_rank_stand_for_nothing() {
    let board = read("4-4/8/(8)/8/p.p.p.p.4/8/8/r+n+b+q+k+b+n+r! w - - 0 1").unwrap();
    assert_eq!(board.content[0], [None; 8]);
    assert_eq!(board.content[2], [None; 8]);
    let p = Some(Piece::Pawn(Color::Black));
    assert_eq!(board.content[4], [p, p, p, p, None, None, None, None]);
    assert_eq!(board.content[7], back_rank(Color::Black));
    let board = read("é8/8/8/8/8/8/8/٣8 w").unwrap();
    assert_eq!(board.content, [[None; 8]; 8]);
    assert_eq!(board.metadata, "w");
}

#[test]
fn no_board_is_padded_or_cut() {
    // eight ranks, each one square short or long
    assert!(refused("7/7/7/7/7/7/7/7 w - - 0 1"));
    assert!(refused("ppppppppp/8/8/8/8/8/8/8 w - - 0 1"));
    assert!(refused("8p/8/8/8/8/8/8/8 w - - 0 1"));
}

#[test]
fn a_board_can_be_printed() {
    let printed = format!("{:?}", Board::new());
    assert!(printed.contains("w KQkq - 0 1"));
    assert!(printed.contains("Rook"));
    assert!(printed.contains("Black"));
}
