use pgn_evals::position::MoveError;
use pgn_evals::visitor::{FenEval, GameWithEval};

const START: &str = "rnbqkbnr/pppppppp/8/8/8/8/PPPPPPPP/RNBQKBNR w KQkq - 0 1";
const AFTER_E4: &str = "rnbqkbnr/pppppppp/8/8/4P3/8/PPPP1PPP/RNBQKBNR b KQkq - 0 1";
const AFTER_E4_E5: &str = "rnbqkbnr/pppp1ppp/8/4p3/4P3/8/PPPP1PPP/RNBQKBNR w KQkq - 0 2";

fn fields(record: &FenEval) -> (&str, &str, &str, usize) {
    (record.link.as_str(), record.fen.as_str(), record.eval.as_str(), record.ply)
}

#[test]
fn two_annotated_moves() {
    let mut game = GameWithEval::new();
    assert_eq!(game.san("e4"), Ok(()));
    game.comment(b"[%eval 0.3]");
    assert_eq!(game.san("e5"), Ok(()));
    game.comment(b"[%eval 0.1]");
    let records = game.end_game();
    assert_eq!(records.len(), 2);
    assert_eq!(fields(&records[0]), ("", AFTER_E4, "0.3", 1));
    assert_eq!(fields(&records[1]), ("", AFTER_E4_E5, "0.1", 2));
}

#[test]
fn site_header_names_the_game() {
    let mut game = GameWithEval::new();
    game.header(b"Event", b"Rated Blitz game");
    game.header(b"Site", b"https://example.com/g1");
    game.header(b"White", b"someone");
    assert_eq!(game.san("d4"), Ok(()));
    game.comment(b" [%eval 0.2] ");
    let records = game.end_game();
    assert_eq!(records.len(), 1);
    assert_eq!(records[0].link, "https://example.com/g1");
    assert_eq!(records[0].eval, "0.2");
    assert_eq!(records[0].ply, 1);
}

#[test]
fn later_site_header_wins() {
    let mut game = GameWithEval::new();
    game.header(b"Site", b"first");
    game.header(b"Site", b"second");
    game.comment(b"%eval 1]");
    assert_eq!(game.end_game()[0].link, "second");
}

#[test]
fn header_key_is_matched_exactly() {
    let mut game = GameWithEval::new();
    game.header(b"site", b"lower");
    game.header(b"Sit", b"short");
    game.header(b"Sites", b"long");
    game.header(b"", b"empty");
    game.comment(b"%eval 1]");
    assert_eq!(game.end_game()[0].link, "");
}

#[test]
fn header_that_is_not_utf8_is_ignored() {
    let mut game = GameWithEval::new();
    game.header(b"Site", b"good");
    game.header(b"Site", &[0xff, 0xfe]);
    game.header(b"Site", &[0xc3]);
    game.comment(b"%eval 1]");
    assert_eq!(game.end_game()[0].link, "good");
}

#[test]
fn comment_without_marker_gives_nothing() {
    let mut game = GameWithEval::new();
    assert_eq!(game.san("e4"), Ok(()));
    game.comment(b"best by test");
    game.comment(b"[%clk 0:03:00]");
    game.comment(b"");
    assert_eq!(game.san("c5"), Ok(()));
    assert!(game.end_game().is_empty());
}

#[test]
fn comment_that_is_not_utf8_is_ignored() {
    let mut game = GameWithEval::new();
    game.comment(&[b'%', b'e', b'v', b'a', b'l', b' ', b'1', b']', 0xff]);
    game.comment(&[0xe2, 0x82]);
    assert!(game.end_game().is_empty());
}

#[test]
fn comment_before_any_move_refers_to_the_start() {
    let mut game = GameWithEval::new();
    game.comment(b"[%eval 0.0]");
    let records = game.end_game();
    assert_eq!(records.len(), 1);
    assert_eq!(fields(&records[0]), ("", START, "0.0", 0));
}

#[test]
fn several_annotations_in_one_comment_share_the_position() {
    let mut game = GameWithEval::new();
    assert_eq!(game.san("e4"), Ok(()));
    game.comment(b"[%eval 0.3] or rather [%eval 0.4]");
    let records = game.end_game();
    assert_eq!(records.len(), 2);
    assert_eq!(fields(&records[0]), ("", AFTER_E4, "0.3", 1));
    assert_eq!(fields(&records[1]), ("", AFTER_E4, "0.4", 1));
}

#[test]
fn illegal_move_is_reported_and_skipped() {
    let mut game = GameWithEval::new();
    assert_eq!(game.san("e4"), Ok(()));
    assert_eq!(game.san("e4"), Err(MoveError::Illegal));
    assert_eq!(game.san("Qxh7"), Err(MoveError::Illegal));
    assert_eq!(game.san("zz"), Err(MoveError::Illegal));
    game.comment(b"[%eval 0.3]");
    assert_eq!(game.san("e5"), Ok(()));
    game.comment(b"[%eval 0.1]");
    let records = game.end_game();
    assert_eq!(records.len(), 2);
    assert_eq!(fields(&records[0]), ("", AFTER_E4, "0.3", 1));
    assert_eq!(fields(&records[1]), ("", AFTER_E4_E5, "0.1", 2));
}

#[test]
fn variation_is_always_skipped() {
    let mut game = GameWithEval::new();
    assert!(game.begin_variation());
    assert_eq!(game.san("e4"), Ok(()));
    game.comment(b"[%eval 0.3]");
    assert!(game.begin_variation());
    assert!(game.begin_variation());
    let records = game.end_game();
    assert_eq!(records.len(), 1);
    assert_eq!(fields(&records[0]), ("", AFTER_E4, "0.3", 1));
}

#[test]
fn end_game_resets_position_and_ply() {
    let mut game = GameWithEval::new();
    for san in ["e4", "e5", "Nf3", "Nc6", "Bb5"] {
        assert_eq!(game.san(san), Ok(()), "{}", san);
    }
    game.comment(b"[%eval 0.4]");
    let first = game.end_game();
    assert_eq!(first.len(), 1);
    assert_eq!(first[0].ply, 5);

    game.comment(b"[%eval 0.0]");
    assert_eq!(game.san("e4"), Ok(()));
    game.comment(b"[%eval 0.3]");
    let second = game.end_game();
    assert_eq!(second.len(), 2);
    assert_eq!(fields(&second[0]), ("", START, "0.0", 0));
    assert_eq!(fields(&second[1]), ("", AFTER_E4, "0.3", 1));
}

#[test]
fn end_game_hands_the_records_out_once() {
    let mut game = GameWithEval::new();
    game.comment(b"[%eval 0.0]");
    assert_eq!(game.end_game().len(), 1);
    assert!(game.end_game().is_empty());
}

#[test]
fn identifier_belongs_to_one_game_only() {
    let mut game = GameWithEval::new();
    game.header(b"Site", b"g1");
    game.comment(b"[%eval 0.0]");
    assert_eq!(game.end_game()[0].link, "g1");
    assert_eq!(game.link(), "");
    game.comment(b"[%eval 0.1]");
    assert_eq!(game.end_game()[0].link, "");
    game.header(b"Site", b"g3");
    game.comment(b"[%eval 0.2]");
    assert_eq!(game.end_game()[0].link, "g3");
}

#[test]
fn game_without_site_header_after_a_named_game() {
    let mut game = GameWithEval::new();
    game.header(b"Site", b"https://example.com/g1");
    assert!(game.end_game().is_empty());
    game.comment(b"[%eval 0.0]");
    let records = game.end_game();
    assert_eq!(records.len(), 1);
    assert_eq!(fields(&records[0]), ("", START, "0.0", 0));
}

#[test]
fn identifier_is_the_one_current_at_the_comment() {
    let mut game = GameWithEval::new();
    game.comment(b"[%eval 0.0]");
    game.header(b"Site", b"late");
    game.comment(b"[%eval 0.1]");
    let records = game.end_game();
    assert_eq!(records[0].link, "");
    assert_eq!(records[1].link, "late");
}

#[test]
fn ply_never_goes_down_within_a_game() {
    let mut game = GameWithEval::new();
    let moves = ["d4", "d5", "c4", "bad", "e6", "Nc3", "Nf6", "Bg5", "O-O", "Be7"];
    for san in moves {
        let _ = game.san(san);
        game.comment(b"[%eval 0.1]");
    }
    let records = game.end_game();
    assert_eq!(records.len(), 10);
    let plies: Vec<usize> = records.iter().map(|r| r.ply).collect();
    assert_eq!(plies, vec![1, 2, 3, 3, 4, 5, 6, 7, 7, 8]);
}

#[test]
fn new_visitor_is_at_the_start() {
    let game = GameWithEval::new();
    assert_eq!(game.current_ply(), 0);
    assert_eq!(game.snapshot(), START);
    assert_eq!(game.link(), "");
}

#[test]
fn state_can_be_read_between_callbacks() {
    let mut game = GameWithEval::new();
    game.header(b"Site", b"https://example.com/g2");
    assert_eq!(game.link(), "https://example.com/g2");
    assert_eq!(game.san("e4"), Ok(()));
    assert_eq!(game.current_ply(), 1);
    assert_eq!(game.snapshot(), AFTER_E4);
    assert_eq!(game.san("Ke2"), Err(MoveError::Illegal));
    assert_eq!(game.current_ply(), 1);
    assert_eq!(game.snapshot(), AFTER_E4);
    let _ = game.end_game();
    assert_eq!(game.current_ply(), 0);
    assert_eq!(game.snapshot(), START);
    assert_eq!(game.link(), "");
}

#[test]
fn comment_in_a_degraded_game_keeps_the_last_position() {
    let mut game = GameWithEval::new();
    assert_eq!(game.san("e4"), Ok(()));
    assert_eq!(game.san("Nf3"), Err(MoveError::Illegal));
    assert_eq!(game.san("Nf6"), Ok(()));
    game.comment(b"{ [%eval 0.5] }");
    let records = game.end_game();
    assert_eq!(records.len(), 1);
    assert_eq!(records[0].ply, 2);
    assert_eq!(records[0].fen, "rnbqkb1r/pppppppp/5n2/8/4P3/8/PPPP1PPP/RNBQKBNR w KQkq - 1 2");
}

#[test]
fn try_san_answers_as_san_does() {
    let mut game = GameWithEval::new();
    assert_eq!(game.try_san("e4"), Some(Ok(())));
    assert_eq!(game.current_ply(), 1);
    assert_eq!(game.snapshot(), AFTER_E4);
    assert_eq!(game.try_san("e4"), Some(Err(MoveError::Illegal)));
    assert_eq!(game.try_san("??"), Some(Err(MoveError::Illegal)));
    assert_eq!(game.current_ply(), 1);
    assert_eq!(game.snapshot(), AFTER_E4);
    assert_eq!(game.try_san("e5"), Some(Ok(())));
    game.comment(b"[%eval 0.1]");
    let records = game.end_game();
    assert_eq!(records.len(), 1);
    assert_eq!(fields(&records[0]), ("", AFTER_E4_E5, "0.1", 2));
}
