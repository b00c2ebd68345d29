//! The screen: a grid of cells, each a short string, drawn with a border.

use crate::entity::Entity;
use vstd::prelude::*;
use vstd::string::StringExecFns;

verus! {

/// `glyph` written `times` times.
pub open spec fn repeated(glyph: Seq<char>, times: nat) -> Seq<char>
    decreases times,
{
    if times == 0 {
        Seq::empty()
    } else {
        repeated(glyph, (times - 1) as nat) + glyph
    }
}

/// The cells of a row written one after the other.
pub open spec fn joined(row: Seq<Seq<char>>) -> Seq<char>
    decreases row.len(),
{
    if row.len() == 0 {
        Seq::empty()
    } else {
        joined(row.drop_last()) + row.last()
    }
}

/// A grid of `height` rows of `width` cells, each holding one space.
pub open spec fn blank(width: nat, height: nat) -> Seq<Seq<Seq<char>>> {
    Seq::new(height, |row: int| Seq::new(width, |column: int| " "@))
}

/// Every entity stands on a cell of a grid of this size.
pub open spec fn all_on_grid(entities: Seq<Entity>, width: nat, height: nat) -> bool {
    forall|at: int|
        0 <= at < entities.len() ==> 0 <= (#[trigger] entities[at]).pos().0 < width && 0
            <= entities[at].pos().1 < height
}

/// `cells` with each entity's sprite on its cell, in the order of the list:
/// of two entities on one cell the later one shows.
pub open spec fn drawn(cells: Seq<Seq<Seq<char>>>, entities: Seq<Entity>) -> Seq<Seq<Seq<char>>>
    decreases entities.len(),
{
    if entities.len() == 0 {
        cells
    } else {
        let before = drawn(cells, entities.drop_last());
        let entity = entities.last();
        let row = entity.pos().1 as int;
        let column = entity.pos().0 as int;
        before.update(row, before[row].update(column, entity.sprite()))
    }
}

/// The lines of a frame: a top border, each row between side borders, and
/// a bottom border. The two borders are one glyph wider than the grid.
pub open spec fn framed(cells: Seq<Seq<Seq<char>>>, width: nat) -> Seq<Seq<char>> {
    Seq::new(
        cells.len() + 2,
        |line: int|
            if line == 0 {
                repeated("▁"@, width + 1)
            } else if line <= cells.len() {
                "▏"@ + joined(cells[line - 1]) + "▏"@
            } else {
                repeated("▔"@, width + 1)
            },
    )
}

/// The grid that is drawn to the terminal.
pub struct Screen {
    width: usize,
    height: usize,
    filler_str: String,
    grid: Vec<Vec<String>>,
}

/// `count` copies of `cell`.
fn filled_row(cell: &String, count: usize) -> (row: Vec<String>)
    ensures
        row@.len() == count,
        forall|column: int| 0 <= column < count ==> (#[trigger] row@[column]) == *cell,
{
    let mut row: Vec<String> = Vec::new();
    let mut column: usize = 0;
    while column < count
        invariant
            column <= count,
            row@.len() == column,
            forall|before: int| 0 <= before < column ==> (#[trigger] row@[before]) == *cell,
        decreases count - column,
    {
        row.push(cell.clone());
        column += 1;
    }
    row
}

/// `height` rows of `width` copies of `cell`.
fn filled_grid(cell: &String, width: usize, height: usize) -> (grid: Vec<Vec<String>>)
    ensures
        grid@.len() == height,
        forall|row: int| 0 <= row < height ==> (#[trigger] grid@[row])@.len() == width,
        forall|row: int, column: int|
            0 <= row < height && 0 <= column < width ==> (#[trigger] grid@[row]@[column]) == *cell,
{
    let mut grid: Vec<Vec<String>> = Vec::new();
    let mut row: usize = 0;
    while row < height
        invariant
            row <= height,
            grid@.len() == row,
            forall|before: int| 0 <= before < row ==> (#[trigger] grid@[before])@.len() == width,
            forall|before: int, column: int|
                0 <= before < row && 0 <= column < width ==> (#[trigger] grid@[before]@[column])
                    == *cell,
        decreases height - row,
    {
        grid.push(filled_row(cell, width));
        row += 1;
    }
    grid
}

impl Screen {
    /// The number of cells in a row.
    pub closed spec fn spec_width(&self) -> usize {
        self.width
    }

    /// The number of rows.
    pub closed spec fn spec_height(&self) -> usize {
        self.height
    }

    /// The number of cells in a row.
    #[verifier::when_used_as_spec(spec_width)]
    pub fn width(&self) -> (width: usize)
        ensures
            width == self.spec_width(),
    {
        self.width
    }

    /// The number of rows.
    #[verifier::when_used_as_spec(spec_height)]
    pub fn height(&self) -> (height: usize)
        ensures
            height == self.spec_height(),
    {
        self.height
    }

    /// Tells whether every entity stands on a cell of this screen.
    pub fn holds_all(&self, entities: &Vec<Entity>) -> (fits: bool)
        ensures
            fits == all_on_grid(entities@, self.width() as nat, self.height() as nat),
    {
        let mut at: usize = 0;
        while at < entities.len()
            invariant
                at <= entities.len(),
                forall|before: int|
                    0 <= before < at ==> 0 <= (#[trigger] entities@[before]).pos().0 < self.width
                        && 0 <= entities@[before].pos().1 < self.height,
            decreases entities.len() - at,
        {
            let position = entities[at].get_pos();
            let on_grid = position.0 >= 0 && (position.0 as usize) < self.width && position.1 >= 0
                && (position.1 as usize) < self.height;
            if !on_grid {
                return false;
            }
            at += 1;
        }
        true
    }

    /// What the cells hold, row by row.
    pub closed spec fn cells(&self) -> Seq<Seq<Seq<char>>> {
        Seq::new(
            self.grid@.len(),
            |row: int| Seq::new(self.grid@[row]@.len(), |column: int| self.grid@[row]@[column]@),
        )
    }

    /// The grid has `height` rows of `width` cells, and a space fills an
    /// empty cell.
    pub closed spec fn wf(&self) -> bool {
        &&& self.filler_str@ == " "@
        &&& self.grid@.len() == self.height
        &&& forall|row: int| 0 <= row < self.height ==> (#[trigger] self.grid@[row])@.len() == self.width
    }

    /// A blank screen.
    pub fn new(width: usize, height: usize) -> (screen: Self)
        ensures
            screen.wf(),
            screen.width() == width,
            screen.height() == height,
            screen.cells() == blank(width as nat, height as nat),
    {
        let filler_str = String::from_str(" ");
        let grid = filled_grid(&filler_str, width, height);
        let screen = Self { width, height, filler_str, grid };
        assert(screen.cells() =~~= blank(width as nat, height as nat));
        screen
    }

    /// Blanks every cell.
    pub fn reset_grid(&mut self)
        requires
            old(self).wf(),
        ensures
            final(self).wf(),
            final(self).width() == old(self).width(),
            final(self).height() == old(self).height(),
            final(self).cells() == blank(old(self).width() as nat, old(self).height() as nat),
    {
        self.grid = filled_grid(&self.filler_str, self.width, self.height);
        assert(self.cells() =~~= blank(old(self).width() as nat, old(self).height() as nat));
    }

    /// Blanks the grid, then draws each entity's sprite on its cell, in the
    /// order of the list.
    pub fn update_grid(&mut self, entities: Vec<Entity>)
        requires
            old(self).wf(),
            all_on_grid(entities@, old(self).width() as nat, old(self).height() as nat),
        ensures
            final(self).wf(),
            final(self).width() == old(self).width(),
            final(self).height() == old(self).height(),
            final(self).cells() == drawn(blank(old(self).width() as nat, old(self).height() as nat), entities@),
    {
        self.reset_grid();
        let mut at: usize = 0;
        while at < entities.len()
            invariant
                at <= entities.len(),
                self.wf(),
                self.width() == old(self).width(),
                self.height() == old(self).height(),
                all_on_grid(entities@, self.width() as nat, self.height() as nat),
                self.cells() == drawn(
                    blank(old(self).width() as nat, old(self).height() as nat),
                    entities@.take(at as int),
                ),
            decreases entities.len() - at,
        {
            let entity = &entities[at];
            let position = entity.get_pos();
            let ghost before = self.cells();
            proof {
                let seen = entities@.take(at + 1);
                assert(seen.drop_last() =~= entities@.take(at as int));
                assert(seen.last() == entities@[at as int]);
            }
            self.grid[position.1 as usize][position.0 as usize] = entity.get_sprite();
            assert(self.cells() =~~= before.update(
                position.1 as int,
                before[position.1 as int].update(position.0 as int, entity.sprite()),
            ));
            at += 1;
        }
        assert(entities@.take(at as int) =~= entities@);
    }

    /// The lines of the frame that shows the grid, from top to bottom.
    pub fn render(&self) -> (lines: Vec<String>)
        requires
            self.wf(),
        ensures
            lines@.len() == self.height() + 2,
            forall|line: int|
                0 <= line < lines@.len() ==> (#[trigger] lines@[line])@ == framed(
                    self.cells(),
                    self.width() as nat,
                )[line],
    {
        let mut lines: Vec<String> = Vec::new();
        lines.push(self.border("▁"));
        let mut row: usize = 0;
        while row < self.height
            invariant
                row <= self.height,
                self.wf(),
                lines@.len() == row + 1,
                forall|line: int|
                    0 <= line < lines@.len() ==> (#[trigger] lines@[line])@ == framed(
                        self.cells(),
                        self.width() as nat,
                    )[line],
            decreases self.height - row,
        {
            let hline = &self.grid[row];
            let mut text = String::from_str("▏");
            let mut column: usize = 0;
            while column < hline.len()
                invariant
                    column <= hline@.len(),
                    row < self.height,
                    self.wf(),
                    *hline == self.grid@[row as int],
                    text@ == "▏"@ + joined(self.cells()[row as int].take(column as int)),
                decreases hline.len() - column,
            {
                proof {
                    let seen = self.cells()[row as int].take(column + 1);
                    assert(seen.drop_last() =~= self.cells()[row as int].take(column as int));
                    assert(seen.last() == hline@[column as int]@);
                }
                text.append(hline[column].as_str());
                assert(text@ =~= "▏"@ + joined(self.cells()[row as int].take(column + 1)));
                column += 1;
            }
            assert(self.cells()[row as int].take(column as int) =~= self.cells()[row as int]);
            text.append("▏");
            lines.push(text);
            row += 1;
        }
        lines.push(self.border("▔"));
        lines
    }

    /// A border of `glyph`, one glyph wider than the grid.
    fn border(&self, glyph: &str) -> (text: String)
        ensures
            text@ == repeated(glyph@, (self.width() + 1) as nat),
    {
        let mut text = String::from_str(glyph);
        assert(text@ =~= repeated(glyph@, 1)) by {
            assert(repeated(glyph@, 0) =~= Seq::empty());
            assert(repeated(glyph@, 1) == repeated(glyph@, 0) + glyph@);
        }
        let mut column: usize = 0;
        while column < self.width
            invariant
                column <= self.width,
                text@ == repeated(glyph@, (column + 1) as nat),
            decreases self.width - column,
        {
            text.append(glyph);
            column += 1;
        }
        text
    }
}

} // verus!
