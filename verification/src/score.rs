//! The score: points earned and lines cleared, and the text that shows them.
use crate::board::GameBoardData;
use crate::tetromino::Shape;
use vstd::prelude::*;
use vstd::string::*;

verus! {

/// The player's score.
#[derive(Clone, Copy, Debug, PartialEq, Eq, Structural)]
pub struct Score {
    /// Points earned.
    pub points: u32,
    /// Lines cleared.
    pub lines: u32,
}

/// The most rows that one landing piece can complete.
pub const MAX_ROWS_CLEARED: usize = 4;

/// The points earned for clearing the given number of rows at once.
pub open spec fn line_points(rows_cleared: int) -> int {
    if rows_cleared == 1 {
        40
    } else if rows_cleared == 2 {
        100
    } else if rows_cleared == 3 {
        300
    } else if rows_cleared == 4 {
        1200
    } else {
        0
    }
}

impl Score {
    /// The score after `rows_cleared` more rows were cleared at once.
    pub open spec fn after(self, rows_cleared: int) -> Score {
        Score {
            points: (self.points + line_points(rows_cleared)) as u32,
            lines: (self.lines + rows_cleared) as u32,
        }
    }

    /// Whether the score can take in `rows_cleared` more rows: they are at
    /// most four, and neither counter leaves the range of `u32`.
    pub open spec fn admits(self, rows_cleared: int) -> bool {
        &&& 0 <= rows_cleared <= MAX_ROWS_CLEARED
        &&& self.points + line_points(rows_cleared) <= u32::MAX
        &&& self.lines + rows_cleared <= u32::MAX
    }

    /// A score of no points and no lines.
    pub fn new() -> (r: Score)
        ensures
            r.points == 0,
            r.lines == 0,
    {
        Score { points: 0, lines: 0 }
    }

    /// Sets the score back to zero.
    pub fn reset(score: &mut Score)
        ensures
            final(score).points == 0,
            final(score).lines == 0,
    {
        score.lines = 0;
        score.points = 0;
    }

    /// The points earned for clearing `rows_cleared` rows at once: 0, 40, 100,
    /// 300 and 1200 for none to four rows.
    pub fn points_for(rows_cleared: usize) -> (r: u32)
        requires
            rows_cleared <= MAX_ROWS_CLEARED,
        ensures
            r == line_points(rows_cleared as int),
    {
        if rows_cleared == 0 {
            0
        } else if rows_cleared == 1 {
            40
        } else if rows_cleared == 2 {
            100
        } else if rows_cleared == 3 {
            300
        } else {
            1200
        }
    }

    /// Adds the rows cleared by one landing piece, and the points they earn,
    /// to the score.
    pub fn update(&mut self, rows_cleared: usize)
        requires
            old(self).admits(rows_cleared as int),
        ensures
            *final(self) == old(self).after(rows_cleared as int),
            final(self).points >= old(self).points,
            final(self).lines >= old(self).lines,
    {
        let points = Score::points_for(rows_cleared);
        self.lines += rows_cleared as u32;
        self.points += points;
    }
}

impl Default for Score {
    fn default() -> (r: Score)
        ensures
            r.points == 0,
            r.lines == 0,
    {
        Score::new()
    }
}

/// The character of a decimal digit.
pub open spec fn digit(d: nat) -> char {
    if d == 0 {
        '0'
    } else if d == 1 {
        '1'
    } else if d == 2 {
        '2'
    } else if d == 3 {
        '3'
    } else if d == 4 {
        '4'
    } else if d == 5 {
        '5'
    } else if d == 6 {
        '6'
    } else if d == 7 {
        '7'
    } else if d == 8 {
        '8'
    } else {
        '9'
    }
}

/// A number written in decimal digits, without leading zeros.
pub open spec fn decimal(n: nat) -> Seq<char>
    decreases n,
{
    if n < 10 {
        seq![digit(n)]
    } else {
        decimal(n / 10).push(digit(n % 10))
    }
}

/// The text of one decimal digit.
fn digit_text(d: u32) -> (r: &'static str)
    requires
        d < 10,
    ensures
        r@ == seq![digit(d as nat)],
{
    proof {
        reveal_strlit("0");
        reveal_strlit("1");
        reveal_strlit("2");
        reveal_strlit("3");
        reveal_strlit("4");
        reveal_strlit("5");
        reveal_strlit("6");
        reveal_strlit("7");
        reveal_strlit("8");
        reveal_strlit("9");
    }
    let r = if d == 0 {
        "0"
    } else if d == 1 {
        "1"
    } else if d == 2 {
        "2"
    } else if d == 3 {
        "3"
    } else if d == 4 {
        "4"
    } else if d == 5 {
        "5"
    } else if d == 6 {
        "6"
    } else if d == 7 {
        "7"
    } else if d == 8 {
        "8"
    } else {
        "9"
    };
    assert(r@ =~= seq![digit(d as nat)]);
    r
}

/// Writes a number in decimal digits.
pub fn decimal_text(n: u32) -> (r: String)
    ensures
        r@ == decimal(n as nat),
    decreases n,
{
    if n < 10 {
        String::from_str(digit_text(n))
    } else {
        let mut text = decimal_text(n / 10);
        text.append(digit_text(n % 10));
        assert(text@ =~= decimal(n as nat));
        text
    }
}

impl Score {
    /// The line that shows the points: the label, the points in decimal
    /// digits, and a line break.
    pub open spec fn spec_score_text(self) -> Seq<char> {
        "Score: "@ + decimal(self.points as nat) + "\n"@
    }

    /// The line that shows the lines cleared: the label, the count in decimal
    /// digits, and a line break.
    pub open spec fn spec_lines_text(self) -> Seq<char> {
        "Lines: "@ + decimal(self.lines as nat) + "\n"@
    }

    /// The points as a line of text.
    pub fn score_text(&self) -> (r: String)
        ensures
            r@ == self.spec_score_text(),
    {
        let mut text = String::from_str("Score: ");
        text.append(decimal_text(self.points).as_str());
        text.append("\n");
        text
    }

    /// The lines cleared as a line of text.
    pub fn lines_text(&self) -> (r: String)
        ensures
            r@ == self.spec_lines_text(),
    {
        let mut text = String::from_str("Lines: ");
        text.append(decimal_text(self.lines).as_str());
        text.append("\n");
        text
    }
}

/// The three lines of the scoreboard.
#[derive(Debug)]
pub struct Scoreboard {
    /// The line for the points.
    pub score: String,
    /// The line for the lines cleared.
    pub lines: String,
    /// The line for the held shape.
    pub held: String,
}

/// The line that shows the held shape: the label, the name of the shape and
/// a line break, or nothing while no shape is held.
pub open spec fn held_text(held_piece: Option<Shape>) -> Seq<char> {
    match held_piece {
        Some(shape) => "Held: "@ + shape.spec_name() + "\n"@,
        None => Seq::empty(),
    }
}

impl Scoreboard {
    /// The scoreboard before anything was scored: the three labels.
    pub fn setup() -> (r: Scoreboard)
        ensures
            r.score@ == "Score:\n"@,
            r.lines@ == "Lines:\n"@,
            r.held@ == "Held:\n"@,
    {
        Scoreboard {
            score: String::from_str("Score:\n"),
            lines: String::from_str("Lines:\n"),
            held: String::from_str("Held:\n"),
        }
    }

    /// Brings the three lines up to date with the score and the held shape.
    pub fn update(&mut self, score: &Score, data: &GameBoardData)
        ensures
            final(self).score@ == score.spec_score_text(),
            final(self).lines@ == score.spec_lines_text(),
            final(self).held@ == held_text(data.held_piece),
    {
        self.score = score.score_text();
        self.lines = score.lines_text();
        self.held = match data.held_piece {
            Some(shape) => {
                let mut text = String::from_str("Held: ");
                text.append(shape.name());
                text.append("\n");
                text
            },
            None => String::new(),
        };
    }
}

} // verus!
