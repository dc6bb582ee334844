//! The board as text: a frame around the field, with the snake and the food.
use vstd::prelude::*;

use crate::game::Game;
use crate::geometry::Point;

verus! {

/// The glyph of the frame.
pub const BORDER: char = '#';

/// The glyph of a cell under the snake.
pub const SNAKE: char = '*';

/// The glyph of the food's cell.
pub const FOOD: char = 'o';

/// The glyph of the framed board at column `col` and row `row`. The field's
/// cell `(x, y)` stands at column `x + 1` and row `y + 1`; the outer ring is
/// the frame.
pub open spec fn glyph(g: Game, col: int, row: int) -> char {
    let p = Point { x: (col - 1) as i32, y: (row - 1) as i32 };
    if col == 0 || col == g.grid.width + 1 || row == 0 || row == g.grid.height + 1 {
        BORDER
    } else if g.snake.segments().contains(p) {
        SNAKE
    } else if g.food.position == p {
        FOOD
    } else {
        ' '
    }
}

/// The first `cols` cells of row `row`, each glyph followed by a space.
pub open spec fn row_text(g: Game, row: int, cols: int) -> Seq<char>
    decreases cols,
{
    if cols <= 0 {
        Seq::empty()
    } else {
        row_text(g, row, cols - 1) + seq![glyph(g, cols - 1, row), ' ']
    }
}

/// The first `rows` rows of the framed board, each ended by a newline.
pub open spec fn board_text(g: Game, rows: int) -> Seq<char>
    decreases rows,
{
    if rows <= 0 {
        Seq::empty()
    } else {
        board_text(g, rows - 1) + row_text(g, rows - 1, g.grid.width + 2).push('\n')
    }
}

/// Relies on std's `FromIterator<&char>` for `String`: collecting characters
/// gives the string of those characters, in order.
#[verifier::external_body]
fn chars_to_string(chars: &Vec<char>) -> (r: String)
    ensures
        r@ == chars@,
{
    chars.iter().collect()
}

impl Game {
    /// The board as text: `height + 2` rows of `width + 2` cells.
    pub fn to_text(&self) -> (r: String)
        requires
            self.grid.wf(),
        ensures
            r@ == board_text(*self, self.grid.height + 2),
    {
        let rows: i64 = self.grid.height as i64 + 2;
        let cols: i64 = self.grid.width as i64 + 2;
        let mut out: Vec<char> = Vec::new();
        let mut row: i64 = 0;
        while row < rows
            invariant
                self.grid.wf(),
                rows == self.grid.height + 2,
                cols == self.grid.width + 2,
                0 <= row <= rows,
                out@ == board_text(*self, row as int),
            decreases rows - row,
        {
            let mut col: i64 = 0;
            while col < cols
                invariant
                    self.grid.wf(),
                    rows == self.grid.height + 2,
                    cols == self.grid.width + 2,
                    0 <= row < rows,
                    0 <= col <= cols,
                    out@ == board_text(*self, row as int) + row_text(*self, row as int, col as int),
                decreases cols - col,
            {
                let c: char = if col == 0 || col == cols - 1 || row == 0 || row == rows - 1 {
                    BORDER
                } else {
                    let p = Point { x: (col - 1) as i32, y: (row - 1) as i32 };
                    if self.snake.in_self(&p) {
                        SNAKE
                    } else if self.food.position == p {
                        FOOD
                    } else {
                        ' '
                    }
                };
                assert(c == glyph(*self, col as int, row as int));
                out.push(c);
                out.push(' ');
                assert(out@ =~= board_text(*self, row as int) + row_text(
                    *self,
                    row as int,
                    col + 1,
                ));
                col += 1;
            }
            out.push('\n');
            assert(out@ =~= board_text(*self, row + 1));
            row += 1;
        }
        chars_to_string(&out)
    }
}

} // verus!
