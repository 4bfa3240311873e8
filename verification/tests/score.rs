use tetris_lib::board::GameBoardData;
use tetris_lib::score::{decimal_text, Score, Scoreboard};
use tetris_lib::tetromino::Shape;

#[test]
fn score_mapping_is_exact() {
    assert_eq!(Score::points_for(0), 0);
    assert_eq!(Score::points_for(1), 40);
    assert_eq!(Score::points_for(2), 100);
    assert_eq!(Score::points_for(3), 300);
    assert_eq!(Score::points_for(4), 1200);
}

#[test]
fn update_adds_points_and_lines() {
    let mut score = Score::new();
    score.update(0);
    assert_eq!(score, Score { points: 0, lines: 0 });
    score.update(1);
    assert_eq!(score, Score { points: 40, lines: 1 });
    score.update(2);
    assert_eq!(score, Score { points: 140, lines: 3 });
    score.update(3);
    assert_eq!(score, Score { points: 440, lines: 6 });
    score.update(4);
    assert_eq!(score, Score { points: 1640, lines: 10 });
}

#[test]
fn the_score_never_goes_down() {
    let mut score = Score { points: 77, lines: 5 };
    for rows in 0..=4usize {
        let before = score;
        score.update(rows);
        assert!(score.points >= before.points);
        assert!(score.lines >= before.lines);
    }
}

#[test]
fn reset_sets_the_score_to_zero() {
    let mut score = Score { points: 1640, lines: 10 };
    Score::reset(&mut score);
    assert_eq!(score, Score { points: 0, lines: 0 });
    Score::reset(&mut score);
    assert_eq!(score, Score::default());
}

#[test]
fn numbers_are_written_in_decimal() {
    assert_eq!(decimal_text(0), "0");
    assert_eq!(decimal_text(7), "7");
    assert_eq!(decimal_text(10), "10");
    assert_eq!(decimal_text(1200), "1200");
    assert_eq!(decimal_text(4294967295), "4294967295");
}

#[test]
fn score_and_lines_as_text() {
    let score = Score { points: 1340, lines: 6 };
    assert_eq!(score.score_text(), "Score: 1340\n");
    assert_eq!(score.lines_text(), "Lines: 6\n");
}

#[test]
fn the_scoreboard_shows_score_lines_and_held_shape() {
    let mut board = Scoreboard::setup();
    assert_eq!(board.score, "Score:\n");
    assert_eq!(board.lines, "Lines:\n");
    assert_eq!(board.held, "Held:\n");
    let score = Score { points: 100, lines: 2 };
    let mut data = GameBoardData { held: false, held_piece: None, next_piece: None };
    board.update(&score, &data);
    assert_eq!(board.score, "Score: 100\n");
    assert_eq!(board.lines, "Lines: 2\n");
    assert_eq!(board.held, "");
    data.hold(Shape::Z);
    board.update(&score, &data);
    assert_eq!(board.held, "Held: Z\n");
}
