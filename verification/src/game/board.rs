//! The Minesweeper board: a grid of cells, where the mines lie, how many mines
//! touch each cell, and which cells the players have revealed or flagged.

use crate::random::{draw_in_range, seeded_generator};
use crate::text::{digit_char, digit_glyph, push_char};
use vstd::prelude::*;

verus! {

/// A board operation was asked for a cell that cannot take it.
#[derive(Debug, Clone, Copy, PartialEq, Eq, Structural)]
pub struct BoardError;

/// What revealing one cell did.
#[derive(Debug, Clone, Copy, PartialEq, Eq, Structural)]
pub enum RevealResult {
    /// The cell holds a mine.
    Mine,
    /// The cell was revealed; it touches this many mines (at least one).
    Revealed(u8),
    /// The cell touches no mine, so the reveal spread to its surroundings.
    FloodRevealed,
    /// The cell was already revealed, or is flagged.
    DoNothing,
}

/// One cell of the grid.
#[derive(Debug, Clone, Copy, PartialEq, Eq, Structural)]
pub struct Cell {
    pub is_mine: bool,
    pub adjacent_mines: u8,
    pub is_revealed: bool,
    pub is_flagged: bool,
}

impl Cell {
    /// A fresh cell: hidden, unflagged, touching no mine yet.
    pub fn new(is_mine: bool) -> (cell: Cell)
        ensures
            cell == (Cell { is_mine, adjacent_mines: 0, is_revealed: false, is_flagged: false }),
    {
        Cell { is_mine, is_revealed: false, is_flagged: false, adjacent_mines: 0 }
    }
}

/// Two distinct cells that share an edge or a corner.
pub open spec fn touching(ax: int, ay: int, bx: int, by: int) -> bool {
    &&& ax != bx || ay != by
    &&& -1 <= ax - bx <= 1
    &&& -1 <= ay - by <= 1
}

/// 1 if the list names the position, else 0.
spec fn listed_weight(mines: Seq<(u8, u8)>, x: int, y: int) -> nat {
    if 0 <= x < 256 && 0 <= y < 256 && mines.contains((x as u8, y as u8)) {
        1
    } else {
        0
    }
}

/// How many of the eight positions around `(x, y)` the list names.
#[verifier::opaque]
spec fn listed_around(mines: Seq<(u8, u8)>, x: int, y: int) -> nat {
    listed_weight(mines, x - 1, y - 1) + listed_weight(mines, x, y - 1) + listed_weight(
        mines,
        x + 1,
        y - 1,
    ) + listed_weight(mines, x - 1, y) + listed_weight(mines, x + 1, y) + listed_weight(
        mines,
        x - 1,
        y + 1,
    ) + listed_weight(mines, x, y + 1) + listed_weight(mines, x + 1, y + 1)
}

proof fn lemma_contains_push(s: Seq<(u8, u8)>, e: (u8, u8), p: (u8, u8))
    ensures
        s.push(e).contains(p) <==> (s.contains(p) || p == e),
{
    let t = s.push(e);
    if s.contains(p) {
        let i = choose|i: int| 0 <= i < s.len() && s[i] == p;
        assert(t[i] == p);
    }
    if p == e {
        assert(t[s.len() as int] == p);
    }
    if t.contains(p) {
        let i = choose|i: int| 0 <= i < t.len() && t[i] == p;
        if i < s.len() {
            assert(s[i] == p);
        }
    }
}

/// Naming one more position raises the count around exactly the cells that
/// touch it.
proof fn lemma_listed_push(s: Seq<(u8, u8)>, e: (u8, u8), x: int, y: int)
    requires
        !s.contains(e),
    ensures
        listed_around(s.push(e), x, y) == listed_around(s, x, y) + (if touching(
            e.0 as int,
            e.1 as int,
            x,
            y,
        ) {
            1nat
        } else {
            0nat
        }),
{
    reveal(listed_around);
    assert forall|px: int, py: int|
        listed_weight(s.push(e), px, py) == #[trigger] listed_weight(s, px, py) + (if px == e.0
            && py == e.1 {
            1nat
        } else {
            0nat
        }) by {
        if 0 <= px < 256 && 0 <= py < 256 {
            lemma_contains_push(s, e, (px as u8, py as u8));
        }
    }
}

proof fn lemma_listed_bound(s: Seq<(u8, u8)>, x: int, y: int)
    ensures
        listed_around(s, x, y) <= 8,
{
    reveal(listed_around);
}

/// The grid with its dimensions, its mines and the seed they were drawn from.
#[derive(Debug)]
pub struct Board {
    width: u8,
    height: u8,
    created_mines: Vec<(u8, u8)>,
    cells: Vec<Vec<Cell>>,
    seed: u64,
}

impl Board {
    /// `(x, y)` names a cell of this board.
    pub open spec fn in_bounds(&self, x: int, y: int) -> bool {
        0 <= x < self.cols() && 0 <= y < self.rows()
    }

    /// The number of columns.
    pub closed spec fn cols(&self) -> int {
        self.width as int
    }

    /// The number of rows.
    pub closed spec fn rows(&self) -> int {
        self.height as int
    }

    /// The cell in column `x` of row `y`; meaningful only in bounds.
    pub closed spec fn at(&self, x: int, y: int) -> Cell {
        self.cells@[y]@[x]
    }

    /// The seed the board was made with.
    pub closed spec fn seed_value(&self) -> u64 {
        self.seed
    }

    /// There is a mine at `(x, y)`.
    pub open spec fn mine_at(&self, x: int, y: int) -> bool {
        self.in_bounds(x, y) && self.at(x, y).is_mine
    }

    /// 1 if there is a mine at `(x, y)`, else 0.
    pub open spec fn mine_weight(&self, x: int, y: int) -> nat {
        if self.mine_at(x, y) {
            1
        } else {
            0
        }
    }

    /// The number of mines among the up to eight cells around `(x, y)`.
    pub open spec fn mines_around(&self, x: int, y: int) -> nat {
        self.mine_weight(x - 1, y - 1) + self.mine_weight(x, y - 1) + self.mine_weight(
            x + 1,
            y - 1,
        ) + self.mine_weight(x - 1, y) + self.mine_weight(x + 1, y) + self.mine_weight(
            x - 1,
            y + 1,
        ) + self.mine_weight(x, y + 1) + self.mine_weight(x + 1, y + 1)
    }

    /// The positions that hold a mine.
    pub open spec fn mine_positions(&self) -> Set<(u8, u8)> {
        Set::new(|p: (u8, u8)| self.mine_at(p.0 as int, p.1 as int))
    }

    /// The number of cells that hold a mine.
    pub open spec fn mine_total(&self) -> nat {
        self.mine_positions().len()
    }

    /// The grid has `height` rows of `width` cells.
    pub closed spec fn shaped(&self) -> bool {
        &&& self.cells@.len() == self.height
        &&& forall|y: int|
            0 <= y < self.height ==> (#[trigger] self.cells@[y])@.len() == self.width
    }

    /// The positions of the mines, in the order in which they were placed.
    pub closed spec fn mine_list(&self) -> Seq<(u8, u8)> {
        self.created_mines@
    }

    /// The list of mines names each mine cell once and nothing else.
    pub open spec fn mines_listed(&self) -> bool {
        &&& self.mine_list().no_duplicates()
        &&& forall|i: int|
            0 <= i < self.mine_list().len() ==> self.mine_at(
                (#[trigger] self.mine_list()[i]).0 as int,
                self.mine_list()[i].1 as int,
            )
        &&& forall|x: int, y: int| #[trigger]
            self.mine_at(x, y) ==> self.mine_list().contains((x as u8, y as u8))
    }

    /// The mines among the cells around `(x, y)`.
    pub open spec fn mines_near(&self, x: int, y: int) -> Set<(int, int)> {
        Set::new(|p: (int, int)| self.mine_at(p.0, p.1) && touching(p.0, p.1, x, y))
    }

    /// `mines_around` counts the mines among the cells around `(x, y)`:
    /// it is the size of the set of those mines.
    pub proof fn lemma_mines_around_counts(&self, x: int, y: int)
        ensures
            self.mines_near(x, y).finite(),
            self.mines_near(x, y).len() == self.mines_around(x, y),
    {
        let s0 = Set::<(int, int)>::empty();
        let s1 = self.with_mine(s0, x - 1, y - 1);
        let s2 = self.with_mine(s1, x, y - 1);
        let s3 = self.with_mine(s2, x + 1, y - 1);
        let s4 = self.with_mine(s3, x - 1, y);
        let s5 = self.with_mine(s4, x + 1, y);
        let s6 = self.with_mine(s5, x - 1, y + 1);
        let s7 = self.with_mine(s6, x, y + 1);
        let s8 = self.with_mine(s7, x + 1, y + 1);
        assert(s1.finite() && s1.len() == self.mine_weight(x - 1, y - 1));
        assert(s2.finite() && s2.len() == s1.len() + self.mine_weight(x, y - 1));
        assert(s3.finite() && s3.len() == s2.len() + self.mine_weight(x + 1, y - 1));
        assert(s4.finite() && s4.len() == s3.len() + self.mine_weight(x - 1, y));
        assert(s5.finite() && s5.len() == s4.len() + self.mine_weight(x + 1, y));
        assert(s6.finite() && s6.len() == s5.len() + self.mine_weight(x - 1, y + 1));
        assert(s7.finite() && s7.len() == s6.len() + self.mine_weight(x, y + 1));
        assert(s8.finite() && s8.len() == s7.len() + self.mine_weight(x + 1, y + 1));
        assert(s8 =~= self.mines_near(x, y));
    }

    /// `among` and, if it holds a mine, the cell at `(x, y)`.
    spec fn with_mine(&self, among: Set<(int, int)>, x: int, y: int) -> Set<(int, int)> {
        if self.mine_at(x, y) {
            among.insert((x, y))
        } else {
            among
        }
    }

    /// Every cell's count is the number of mines around it.
    pub open spec fn counts_exact(&self) -> bool {
        forall|x: int, y: int|
            self.in_bounds(x, y) ==> (#[trigger] self.at(x, y)).adjacent_mines
                == self.mines_around(x, y)
    }

    /// The board's invariant.
    pub closed spec fn wf(&self) -> bool {
        &&& self.shaped()
        &&& self.mines_listed()
        &&& self.counts_exact()
    }

    /// No cell is revealed or flagged.
    pub open spec fn untouched(&self) -> bool {
        forall|x: int, y: int|
            self.in_bounds(x, y) ==> !(#[trigger] self.at(x, y)).is_revealed && !self.at(
                x,
                y,
            ).is_flagged
    }

    /// The same grid dimensions, mines and seed as `other`.
    pub closed spec fn same_layout(&self, other: &Board) -> bool {
        &&& self.width == other.width
        &&& self.height == other.height
        &&& self.seed == other.seed
        &&& self.created_mines@ == other.created_mines@
    }

    /// In a well-formed board every cell's count is the number of mines
    /// around it, which is at most eight, and the mines are finitely many.
    pub proof fn lemma_counts_exact(&self)
        requires
            self.wf(),
        ensures
            self.shaped(),
            self.mines_listed(),
            self.counts_exact(),
            self.mine_positions().finite(),
            forall|x: int, y: int|
                self.in_bounds(x, y) ==> (#[trigger] self.at(x, y)).adjacent_mines <= 8,
    {
        self.lemma_mines_listed();
    }

    proof fn lemma_mines_listed(&self)
        requires
            self.mines_listed(),
        ensures
            self.mine_positions() == self.created_mines@.to_set(),
            self.mine_positions().finite(),
            self.mine_total() == self.created_mines@.len(),
    {
        let listed = self.created_mines@;
        assert forall|p: (u8, u8)| self.mine_positions().contains(p) <==> listed.to_set().contains(
            p,
        ) by {
            if self.mine_positions().contains(p) {
                assert(self.mine_at(p.0 as int, p.1 as int));
                assert(listed.contains((p.0 as int as u8, p.1 as int as u8)));
            }
            if listed.to_set().contains(p) {
                let i = choose|i: int| 0 <= i < listed.len() && listed[i] == p;
                assert(self.mine_at(listed[i].0 as int, listed[i].1 as int));
            }
        }
        assert(self.mine_positions() =~= listed.to_set());
        vstd::seq_lib::seq_to_set_is_finite(listed);
        listed.unique_seq_to_set();
    }

    /// The number of columns.
    pub fn width(&self) -> (width: u8)
        ensures
            width == self.cols(),
    {
        self.width
    }

    /// The number of rows.
    pub fn height(&self) -> (height: u8)
        ensures
            height == self.rows(),
    {
        self.height
    }

    /// Whether `(x, y)` names a cell of this board.
    pub fn is_coordinate_valid(&self, x: u8, y: u8) -> (valid: bool)
        ensures
            valid == self.in_bounds(x as int, y as int),
    {
        x < self.width && y < self.height
    }

    /// The seed the board was made with.
    pub fn seed(&self) -> (seed: u64)
        ensures
            seed == self.seed_value(),
    {
        self.seed
    }

    /// The number of mines on the board.
    pub fn number_of_mines(&self) -> (count: usize)
        requires
            self.wf(),
        ensures
            count == self.mine_total(),
    {
        proof {
            self.lemma_mines_listed();
        }
        self.created_mines.len()
    }

    /// A copy of the cell at `(x, y)`, if there is one.
    pub fn cell(&self, x: u8, y: u8) -> (found: Option<Cell>)
        requires
            self.wf(),
        ensures
            found == (if self.in_bounds(x as int, y as int) {
                Some(self.at(x as int, y as int))
            } else {
                None
            }),
    {
        if x < self.width && y < self.height {
            Some(self.cells[y as usize][x as usize])
        } else {
            None
        }
    }
}

/// A row of `width` fresh cells without mines.
fn blank_row(width: u8) -> (row: Vec<Cell>)
    ensures
        row@.len() == width,
        forall|x: int| 0 <= x < width ==> #[trigger] row@[x] == Cell::blank(),
{
    let mut row: Vec<Cell> = Vec::new();
    let mut x: u8 = 0;
    while x < width
        invariant
            x <= width,
            row@.len() == x,
            forall|i: int| 0 <= i < x ==> #[trigger] row@[i] == Cell::blank(),
        decreases width - x,
    {
        row.push(Cell::new(false));
        x = x + 1;
    }
    row
}

/// Every position of a `width` by `height` grid, once, row by row.
fn all_positions(width: u8, height: u8) -> (all: Vec<(u8, u8)>)
    ensures
        all@.no_duplicates(),
        all@.len() == width * height,
        forall|i: int| 0 <= i < all@.len() ==> (#[trigger] all@[i]).0 < width && all@[i].1 < height,
{
    let mut all: Vec<(u8, u8)> = Vec::new();
    let mut y: u8 = 0;
    while y < height
        invariant
            y <= height,
            all@.no_duplicates(),
            all@.len() == width * y,
            forall|i: int| 0 <= i < all@.len() ==> (#[trigger] all@[i]).0 < width && all@[i].1 < y,
        decreases height - y,
    {
        let mut x: u8 = 0;
        while x < width
            invariant
                x <= width,
                y < height,
                all@.no_duplicates(),
                all@.len() == width * y + x,
                forall|i: int|
                    0 <= i < all@.len() ==> (#[trigger] all@[i]).0 < width && (all@[i].1 < y || (
                    all@[i].1 == y && all@[i].0 < x)),
            decreases width - x,
        {
            all.push((x, y));
            x = x + 1;
        }
        assert(width * y + width == width * (y + 1)) by (nonlinear_arith);
        y = y + 1;
    }
    all
}

impl Cell {
    /// The fresh cell without a mine.
    pub open spec fn blank() -> Cell {
        Cell { is_mine: false, adjacent_mines: 0, is_revealed: false, is_flagged: false }
    }

    /// The character that stands for the cell in a snapshot: `F` for a flag,
    /// `*` for a revealed mine, the count of mines around it where that is
    /// positive, `.` otherwise.
    pub open spec fn glyph_spec(&self) -> char {
        if self.is_flagged {
            'F'
        } else if self.is_mine && self.is_revealed {
            '*'
        } else if self.adjacent_mines > 0 {
            digit_char(self.adjacent_mines as int)
        } else {
            '.'
        }
    }

    /// The character that stands for the cell in a snapshot.
    pub fn glyph(&self) -> (c: char)
        ensures
            c == self.glyph_spec(),
    {
        if self.is_flagged {
            'F'
        } else if self.is_mine && self.is_revealed {
            '*'
        } else if self.adjacent_mines > 0 {
            digit_glyph(self.adjacent_mines)
        } else {
            '.'
        }
    }
}

impl Board {
    /// A board of fresh cells with no mine on it: the first step of
    /// building a board by hand, before `place_mine` and `evaluate_cells`.
    pub fn blank(width: u8, height: u8, seed: u64) -> (board: Board)
        ensures
            board.shaped(),
            board.mines_listed(),
            board.cols() == width,
            board.rows() == height,
            board.seed_value() == seed,
            board.mine_list().len() == 0,
            forall|x: int, y: int| board.in_bounds(x, y) ==> #[trigger] board.at(x, y) == Cell::blank(),
    {
        let mut cells: Vec<Vec<Cell>> = Vec::new();
        let mut y: u8 = 0;
        while y < height
            invariant
                y <= height,
                cells@.len() == y,
                forall|j: int| 0 <= j < y ==> (#[trigger] cells@[j])@.len() == width,
                forall|i: int, j: int|
                    0 <= j < y && 0 <= i < width ==> #[trigger] cells@[j]@[i] == Cell::blank(),
            decreases height - y,
        {
            let row = blank_row(width);
            cells.push(row);
            y = y + 1;
        }
        Board { width, height, created_mines: Vec::new(), cells, seed }
    }

    /// The cell at `(x, y)`, to be changed in place; an error outside the
    /// grid. Whatever is written to the cell is what the board holds there
    /// afterwards, and no other cell changes.
    fn get_cell_mut(&mut self, x: u8, y: u8) -> (found: Result<&mut Cell, BoardError>)
        requires
            old(self).shaped(),
        ensures
            found is Ok <==> old(self).in_bounds(x as int, y as int),
            found is Err ==> *final(self) == *old(self),
            found matches Ok(cell) ==> {
                &&& *cell == old(self).at(x as int, y as int)
                &&& final(self).shaped()
                &&& final(self).same_layout(old(self))
                &&& forall|cx: int, cy: int|
                    final(self).in_bounds(cx, cy) ==> #[trigger] final(self).at(cx, cy) == (if cx
                        == x && cy == y {
                        *final(cell)
                    } else {
                        old(self).at(cx, cy)
                    })
            },
    {
        if x >= self.width || y >= self.height {
            Err(BoardError)
        } else {
            Ok(&mut self.cells[y as usize][x as usize])
        }
    }

    /// A board that differs from a listed one in no mine is listed too.
    proof fn lemma_mines_kept(&self, other: &Board)
        requires
            other.mines_listed(),
            self.same_layout(other),
            forall|x: int, y: int|
                self.in_bounds(x, y) ==> (#[trigger] self.at(x, y)).is_mine == other.at(
                    x,
                    y,
                ).is_mine,
        ensures
            self.mines_listed(),
            forall|x: int, y: int| self.mine_at(x, y) == other.mine_at(x, y),
            forall|x: int, y: int| self.mines_around(x, y) == other.mines_around(x, y),
    {
        assert forall|x: int, y: int| self.mine_at(x, y) == other.mine_at(x, y) by {
            if self.in_bounds(x, y) {
                assert(self.at(x, y).is_mine == other.at(x, y).is_mine);
            }
        }
        assert forall|i: int| 0 <= i < self.created_mines@.len() implies self.mine_at(
            (#[trigger] self.created_mines@[i]).0 as int,
            self.created_mines@[i].1 as int,
        ) by {
            assert(other.mine_at(
                other.created_mines@[i].0 as int,
                other.created_mines@[i].1 as int,
            ));
        }
        assert forall|x: int, y: int| #[trigger] self.mine_at(x, y) implies self.created_mines@.contains(
            (x as u8, y as u8)) by {
            assert(other.mine_at(x, y));
        }
    }

    /// The counts that the list of mines gives are those of the grid.
    proof fn lemma_listed_counts(&self)
        requires
            self.mines_listed(),
        ensures
            forall|x: int, y: int|
                self.mines_around(x, y) == #[trigger] listed_around(self.created_mines@, x, y),
    {
        reveal(listed_around);
        let listed = self.created_mines@;
        assert forall|x: int, y: int| self.mine_weight(x, y) == #[trigger] listed_weight(
            listed,
            x,
            y,
        ) by {
            if self.mine_at(x, y) {
                assert(listed.contains((x as u8, y as u8)));
            }
            if 0 <= x < 256 && 0 <= y < 256 && listed.contains((x as u8, y as u8)) {
                let i = choose|i: int| 0 <= i < listed.len() && listed[i] == (x as u8, y as u8);
                assert(self.mine_at(listed[i].0 as int, listed[i].1 as int));
            }
        }
    }

    /// Marks `(x, y)` as a mine unless it lies outside the grid or is one
    /// already. The counts are left as they are: `evaluate_cells` sets them
    /// once all mines are placed.
    pub fn place_mine(&mut self, x: u8, y: u8)
        requires
            old(self).shaped(),
            old(self).mines_listed(),
        ensures
            final(self).shaped(),
            final(self).mines_listed(),
            final(self).same_frame(old(self)),
            final(self).mine_list() == (if old(self).in_bounds(x as int, y as int) && !old(
                self,
            ).at(x as int, y as int).is_mine {
                old(self).mine_list().push((x, y))
            } else {
                old(self).mine_list()
            }),
            forall|cx: int, cy: int|
                final(self).in_bounds(cx, cy) ==> #[trigger] final(self).at(cx, cy) == (Cell {
                    is_mine: old(self).at(cx, cy).is_mine || (cx == x && cy == y),
                    ..old(self).at(cx, cy)
                }),
    {
        let ghost before = *self;
        let mut fresh = false;
        match self.get_cell_mut(x, y) {
            Ok(cell) => {
                if !cell.is_mine {
                    cell.is_mine = true;
                    fresh = true;
                }
            },
            Err(_) => {},
        }
        let ghost marked = *self;
        assert(forall|cx: int, cy: int|
            marked.in_bounds(cx, cy) ==> #[trigger] marked.at(cx, cy) == (Cell {
                is_mine: before.at(cx, cy).is_mine || (cx == x && cy == y),
                ..before.at(cx, cy)
            }));
        if fresh {
            self.created_mines.push((x, y));
            proof {
                let listed = self.created_mines@;
                assert(forall|cx: int, cy: int| #[trigger] self.at(cx, cy) == marked.at(cx, cy));
                assert(forall|cx: int, cy: int|
                    #[trigger] self.in_bounds(cx, cy) == marked.in_bounds(cx, cy));
                assert(!before.created_mines@.contains((x, y))) by {
                    if before.created_mines@.contains((x, y)) {
                        let i = choose|i: int|
                            0 <= i < before.created_mines@.len() && before.created_mines@[i] == (
                                x,
                                y,
                            );
                        assert(before.mine_at(
                            before.created_mines@[i].0 as int,
                            before.created_mines@[i].1 as int,
                        ));
                    }
                }
                assert forall|i: int| 0 <= i < listed.len() implies self.mine_at(
                    (#[trigger] listed[i]).0 as int,
                    listed[i].1 as int,
                ) by {
                    let cx = listed[i].0 as int;
                    let cy = listed[i].1 as int;
                    if i < before.created_mines@.len() {
                        assert(before.mine_at(
                            before.created_mines@[i].0 as int,
                            before.created_mines@[i].1 as int,
                        ));
                    }
                    assert(marked.in_bounds(cx, cy));
                    assert(marked.at(cx, cy).is_mine);
                }
                assert forall|cx: int, cy: int| #[trigger] self.mine_at(cx, cy) implies listed.contains(
                    (cx as u8, cy as u8),
                ) by {
                    lemma_contains_push(before.created_mines@, (x, y), (cx as u8, cy as u8));
                    assert(marked.at(cx, cy).is_mine);
                    if !(cx == x && cy == y) {
                        assert(before.mine_at(cx, cy));
                    }
                }
            }
        } else {
            proof {
                self.lemma_mines_kept(&before);
            }
        }
    }

    /// Adds one to the count of each cell around `(x, y)`.
    fn evaluate_neighbors(&mut self, x: u8, y: u8)
        requires
            old(self).shaped(),
            old(self).in_bounds(x as int, y as int),
            forall|cx: int, cy: int|
                old(self).in_bounds(cx, cy) && touching(x as int, y as int, cx, cy) ==> (
                #[trigger] old(self).at(cx, cy)).adjacent_mines < 255,
        ensures
            final(self).shaped(),
            final(self).same_layout(old(self)),
            forall|cx: int, cy: int|
                final(self).in_bounds(cx, cy) ==> #[trigger] final(self).at(cx, cy) == (Cell {
                    adjacent_mines: (old(self).at(cx, cy).adjacent_mines + (if touching(
                        x as int,
                        y as int,
                        cx,
                        cy,
                    ) {
                        1int
                    } else {
                        0int
                    })) as u8,
                    ..old(self).at(cx, cy)
                }),
    {
        let ghost before = *self;
        let mut row: u8 = 0;
        while row < 3
            invariant
                row <= 3,
                self.shaped(),
                self.same_layout(&before),
                before.in_bounds(x as int, y as int),
                forall|cx: int, cy: int|
                    before.in_bounds(cx, cy) && touching(x as int, y as int, cx, cy) ==> (
                    #[trigger] before.at(cx, cy)).adjacent_mines < 255,
                forall|cx: int, cy: int|
                    self.in_bounds(cx, cy) ==> #[trigger] self.at(cx, cy) == (Cell {
                        adjacent_mines: (before.at(cx, cy).adjacent_mines + (if touching(
                            x as int,
                            y as int,
                            cx,
                            cy,
                        ) && cy - y + 1 < row {
                            1int
                        } else {
                            0int
                        })) as u8,
                        ..before.at(cx, cy)
                    }),
            decreases 3 - row,
        {
            let mut col: u8 = 0;
            while col < 3
                invariant
                    col <= 3,
                    row < 3,
                    self.shaped(),
                    self.same_layout(&before),
                    before.in_bounds(x as int, y as int),
                    forall|cx: int, cy: int|
                        before.in_bounds(cx, cy) && touching(x as int, y as int, cx, cy) ==> (
                        #[trigger] before.at(cx, cy)).adjacent_mines < 255,
                    forall|cx: int, cy: int|
                        self.in_bounds(cx, cy) ==> #[trigger] self.at(cx, cy) == (Cell {
                            adjacent_mines: (before.at(cx, cy).adjacent_mines + (if touching(
                                x as int,
                                y as int,
                                cx,
                                cy,
                            ) && (cy - y + 1 < row || (cy - y + 1 == row && cx - x + 1 < col)) {
                                1int
                            } else {
                                0int
                            })) as u8,
                            ..before.at(cx, cy)
                        }),
                decreases 3 - col,
            {
                let target_x: i16 = x as i16 + col as i16 - 1;
                let target_y: i16 = y as i16 + row as i16 - 1;
                if (col != 1 || row != 1) && 0 <= target_x && target_x < 256 && 0 <= target_y
                    && target_y < 256 {
                    let ghost prior = *self;
                    match self.get_cell_mut(target_x as u8, target_y as u8) {
                        Ok(cell) => {
                            assert(before.in_bounds(target_x as int, target_y as int));
                            assert(touching(x as int, y as int, target_x as int, target_y as int));
                            assert(prior.at(target_x as int, target_y as int).adjacent_mines
                                == before.at(target_x as int, target_y as int).adjacent_mines);
                            cell.adjacent_mines = cell.adjacent_mines + 1;
                        },
                        Err(_) => {},
                    }
                }
                col = col + 1;
            }
            row = row + 1;
        }
    }

    /// Counts, for every cell, the mines around it: each listed mine adds one
    /// to each of its neighbours. The counts must all be zero before; the
    /// mines, and what is revealed or flagged, stay as they are.
    pub fn evaluate_cells(&mut self)
        requires
            old(self).shaped(),
            old(self).mines_listed(),
            forall|x: int, y: int|
                old(self).in_bounds(x, y) ==> (#[trigger] old(self).at(x, y)).adjacent_mines == 0,
        ensures
            final(self).wf(),
            final(self).same_layout(old(self)),
            final(self).same_frame(old(self)),
            final(self).mine_list() == old(self).mine_list(),
            final(self).counts_exact(),
            forall|x: int, y: int|
                final(self).in_bounds(x, y) ==> #[trigger] final(self).at(x, y) == (Cell {
                    adjacent_mines: final(self).mines_around(x, y) as u8,
                    ..old(self).at(x, y)
                }),
    {
        let ghost before = *self;
        let total = self.created_mines.len();
        let mut index: usize = 0;
        proof {
            reveal(listed_around);
            assert(self.created_mines@.take(0).len() == 0);
        }
        while index < total
            invariant
                index <= total,
                total == self.created_mines@.len(),
                self.shaped(),
                self.mines_listed(),
                self.same_layout(&before),
                forall|x: int, y: int|
                    self.in_bounds(x, y) ==> #[trigger] self.at(x, y) == (Cell {
                        adjacent_mines: listed_around(
                            self.created_mines@.take(index as int),
                            x,
                            y,
                        ) as u8,
                        ..before.at(x, y)
                    }),
            decreases total - index,
        {
            let (mine_x, mine_y) = self.created_mines[index];
            let ghost prior = *self;
            let ghost done = self.created_mines@.take(index as int);
            let ghost next = self.created_mines@.take(index + 1);
            proof {
                assert(next == done.push((mine_x, mine_y)));
                assert(!done.contains((mine_x, mine_y)));
                assert(self.mine_at(
                    self.created_mines@[index as int].0 as int,
                    self.created_mines@[index as int].1 as int,
                ));
                assert forall|cx: int, cy: int|
                    self.in_bounds(cx, cy) && touching(
                        mine_x as int,
                        mine_y as int,
                        cx,
                        cy,
                    ) implies (#[trigger] self.at(cx, cy)).adjacent_mines < 255 by {
                    lemma_listed_bound(done, cx, cy);
                }
            }
            self.evaluate_neighbors(mine_x, mine_y);
            proof {
                assert forall|x: int, y: int| self.in_bounds(x, y) implies #[trigger] self.at(
                    x,
                    y,
                ) == (Cell { adjacent_mines: listed_around(next, x, y) as u8, ..before.at(x, y) }) by {
                    lemma_listed_push(done, (mine_x, mine_y), x, y);
                    lemma_listed_bound(done, x, y);
                    lemma_listed_bound(next, x, y);
                    assert(prior.at(x, y).adjacent_mines == listed_around(done, x, y));
                }
                self.lemma_mines_kept(&prior);
            }
            index = index + 1;
        }
        proof {
            assert(self.created_mines@.take(index as int) == self.created_mines@);
            self.lemma_listed_counts();
            assert forall|x: int, y: int| self.in_bounds(x, y) implies (#[trigger] self.at(
                x,
                y,
            )).adjacent_mines == self.mines_around(x, y) by {
                lemma_listed_bound(self.created_mines@, x, y);
            }
        }
    }

    /// The board with a mine on every listed position that lies inside the
    /// grid (a position listed twice counts once), every cell hidden and
    /// unflagged.
    pub fn with_mines(width: u8, height: u8, mines: &Vec<(u8, u8)>, seed: u64) -> (board: Board)
        ensures
            board.wf(),
            board.cols() == width,
            board.rows() == height,
            board.seed_value() == seed,
            board.untouched(),
            board.counts_exact(),
            forall|x: int, y: int|
                board.in_bounds(x, y) ==> ((#[trigger] board.at(x, y)).is_mine <==> mines@.contains(
                    (x as u8, y as u8),
                )),
            board.mine_positions().finite(),
            board.mine_total() <= mines@.len(),
    {
        let mut board = Board::blank(width, height, seed);
        let mut index: usize = 0;
        while index < mines.len()
            invariant
                index <= mines@.len(),
                board.shaped(),
                board.mines_listed(),
                board.cols() == width,
                board.rows() == height,
                board.seed_value() == seed,
                forall|x: int, y: int|
                    board.in_bounds(x, y) ==> #[trigger] board.at(x, y) == (Cell {
                        is_mine: mines@.take(index as int).contains((x as u8, y as u8)),
                        ..Cell::blank()
                    }),
            decreases mines@.len() - index,
        {
            let (x, y) = mines[index];
            proof {
                assert(mines@.take(index + 1) == mines@.take(index as int).push((x, y)));
                assert forall|p: (u8, u8)| #[trigger]
                    mines@.take(index + 1).contains(p) <==> (mines@.take(index as int).contains(p)
                        || p == (x, y)) by {
                    lemma_contains_push(mines@.take(index as int), (x, y), p);
                }
            }
            board.place_mine(x, y);
            index = index + 1;
        }
        assert(mines@.take(index as int) == mines@);
        let ghost placed = board;
        board.evaluate_cells();
        assert(board.cols() == placed.cols() && board.rows() == placed.rows() && board.seed_value()
            == placed.seed_value());
        proof {
            board.lemma_mines_listed();
            assert(board.mine_positions().subset_of(mines@.to_set())) by {
                assert forall|p: (u8, u8)| board.mine_positions().contains(p) implies mines@.contains(
                    p,
                ) by {
                    assert(board.at(p.0 as int, p.1 as int).is_mine);
                    assert(mines@.contains((p.0 as int as u8, p.1 as int as u8)));
                }
            }
            vstd::seq_lib::seq_to_set_is_finite(mines@);
            vstd::set_lib::lemma_len_subset(board.mine_positions(), mines@.to_set());
            mines@.lemma_cardinality_of_set();
        }
        board
    }

    /// A board of `width` by `height` cells with `number_of_mines` mines on
    /// distinct cells, drawn from a generator seeded with `seed`. Each mine
    /// is drawn uniformly from the cells still free, so no draw is wasted;
    /// when the grid has fewer cells than mines asked for, every cell gets
    /// one. All cells start hidden and unflagged.
    pub fn new(width: u8, height: u8, number_of_mines: u8, seed: u64) -> (board: Board)
        ensures
            board.wf(),
            board.cols() == width,
            board.rows() == height,
            board.seed_value() == seed,
            board.untouched(),
            board.counts_exact(),
            board.mine_positions().finite(),
            board.mine_total() == (if number_of_mines <= width * height {
                number_of_mines as int
            } else {
                width * height
            }),
    {
        let mut rng = seeded_generator(seed);
        let mut free = all_positions(width, height);
        let mut mines: Vec<(u8, u8)> = Vec::new();
        assert(width * height <= 255 * 255) by (nonlinear_arith)
            requires
                width <= 255,
                height <= 255,
        ;
        while mines.len() < number_of_mines as usize && free.len() > 0
            invariant
                free@.no_duplicates(),
                mines@.no_duplicates(),
                forall|i: int, j: int|
                    0 <= i < free@.len() && 0 <= j < mines@.len() ==> free@[i] != mines@[j],
                forall|i: int|
                    0 <= i < free@.len() ==> (#[trigger] free@[i]).0 < width && free@[i].1 < height,
                forall|i: int|
                    0 <= i < mines@.len() ==> (#[trigger] mines@[i]).0 < width && mines@[i].1
                        < height,
                mines@.len() + free@.len() == width * height,
                mines@.len() <= number_of_mines,
                width * height <= 255 * 255,
            decreases free@.len(),
        {
            let last: u32 = (free.len() - 1) as u32;
            let pick = draw_in_range(&mut rng, 0, last) as usize;
            let ghost before = free@;
            let position = free.swap_remove(pick);
            mines.push(position);
            assert(forall|i: int|
                0 <= i < free@.len() ==> #[trigger] free@[i] == (if i == pick {
                    before.last()
                } else {
                    before[i]
                }));
        }
        let board = Board::with_mines(width, height, &mines, seed);
        proof {
            board.lemma_mines_listed();
            assert forall|p: (u8, u8)| board.mine_positions().contains(p) <==> mines@.to_set().contains(
                p,
            ) by {
                if board.mine_positions().contains(p) {
                    assert(board.at(p.0 as int, p.1 as int).is_mine);
                    assert(mines@.contains((p.0 as int as u8, p.1 as int as u8)));
                }
                if mines@.to_set().contains(p) {
                    let i = choose|i: int| 0 <= i < mines@.len() && mines@[i] == p;
                    assert(board.in_bounds(p.0 as int, p.1 as int));
                    assert(mines@.contains((p.0 as int as u8, p.1 as int as u8)));
                }
            }
            assert(board.mine_positions() =~= mines@.to_set());
            mines@.unique_seq_to_set();
        }
        board
    }
}

impl Board {
    /// The cell at `(x, y)` is hidden, unflagged and no mine: a reveal that
    /// spreads may uncover it.
    pub open spec fn floodable(&self, x: int, y: int) -> bool {
        &&& self.in_bounds(x, y)
        &&& !self.at(x, y).is_revealed
        &&& !self.at(x, y).is_flagged
        &&& !self.at(x, y).is_mine
    }

    /// A reveal that reaches `(x, y)` goes on to the cells around it: the
    /// cell can be uncovered and touches no mine.
    pub open spec fn spreads(&self, x: int, y: int) -> bool {
        self.floodable(x, y) && self.at(x, y).adjacent_mines == 0
    }

    /// A walk from cell to touching cell along which a reveal spreads: every
    /// cell on it can be uncovered, and every cell but the last touches no
    /// mine.
    pub open spec fn flood_path(&self, path: Seq<(int, int)>) -> bool {
        &&& path.len() >= 1
        &&& forall|i: int|
            0 <= i < path.len() ==> self.floodable((#[trigger] path[i]).0, path[i].1)
        &&& forall|i: int|
            0 <= i < path.len() - 1 ==> self.spreads((#[trigger] path[i]).0, path[i].1)
                && touching(path[i].0, path[i].1, path[i + 1].0, path[i + 1].1)
    }

    /// A reveal at `(sx, sy)` spreads as far as `(x, y)`.
    pub open spec fn flood_reaches(&self, sx: int, sy: int, x: int, y: int) -> bool {
        exists|path: Seq<(int, int)>| #[trigger]
            self.flood_path(path) && path[0] == (sx, sy) && path.last() == (x, y)
    }

    /// What `reveal_at` answers for `(x, y)`.
    pub open spec fn reveal_outcome(&self, x: int, y: int) -> Result<RevealResult, BoardError> {
        if !self.in_bounds(x, y) {
            Err(BoardError)
        } else if self.at(x, y).is_revealed || self.at(x, y).is_flagged {
            Ok(RevealResult::DoNothing)
        } else if self.at(x, y).is_mine {
            Ok(RevealResult::Mine)
        } else if self.at(x, y).adjacent_mines > 0 {
            Ok(RevealResult::Revealed(self.at(x, y).adjacent_mines))
        } else {
            Ok(RevealResult::FloodRevealed)
        }
    }

    /// Whether `(cx, cy)` is revealed once `reveal_at` has been asked for
    /// `(x, y)`.
    pub open spec fn revealed_after(&self, x: int, y: int, cx: int, cy: int) -> bool {
        self.at(cx, cy).is_revealed || match self.reveal_outcome(x, y) {
            Ok(RevealResult::Revealed(_)) => cx == x && cy == y,
            Ok(RevealResult::FloodRevealed) => self.flood_reaches(x, y, cx, cy),
            _ => false,
        }
    }

    /// What `flag` answers for `(x, y)`: an error outside the grid and on a
    /// revealed cell.
    pub open spec fn can_flag(&self, x: int, y: int) -> bool {
        self.in_bounds(x, y) && !self.at(x, y).is_revealed
    }

    /// Every cell without a mine is revealed.
    pub open spec fn all_safe_revealed(&self) -> bool {
        forall|x: int, y: int|
            self.in_bounds(x, y) && !(#[trigger] self.at(x, y)).is_mine ==> self.at(
                x,
                y,
            ).is_revealed
    }

    /// The same dimensions and seed as `other`.
    pub open spec fn same_frame(&self, other: &Board) -> bool {
        &&& self.cols() == other.cols()
        &&& self.rows() == other.rows()
        &&& self.seed_value() == other.seed_value()
    }

    /// This board is what `reveal_at` makes of `before` when asked for
    /// `(x, y)`.
    pub open spec fn revealed_from(&self, before: &Board, x: int, y: int) -> bool {
        &&& self.same_frame(before)
        &&& forall|cx: int, cy: int|
            self.in_bounds(cx, cy) ==> #[trigger] self.at(cx, cy) == (Cell {
                is_revealed: before.revealed_after(x, y, cx, cy),
                ..before.at(cx, cy)
            })
    }

    /// This board is what `flag` makes of `before` when asked for `(x, y)`.
    pub open spec fn flagged_from(&self, before: &Board, x: int, y: int) -> bool {
        &&& self.same_frame(before)
        &&& forall|cx: int, cy: int|
            self.in_bounds(cx, cy) ==> #[trigger] self.at(cx, cy) == (Cell {
                is_flagged: before.at(cx, cy).is_flagged != (before.can_flag(x, y) && cx == x
                    && cy == y),
                ..before.at(cx, cy)
            })
    }

    /// This board is `before` with every cell revealed.
    pub open spec fn unveiled_from(&self, before: &Board) -> bool {
        &&& self.same_frame(before)
        &&& forall|cx: int, cy: int|
            self.in_bounds(cx, cy) ==> #[trigger] self.at(cx, cy) == (Cell {
                is_revealed: true,
                ..before.at(cx, cy)
            })
    }

    /// Two boards of the same dimensions whose cells agree on where the
    /// mines are have the same mines.
    pub proof fn lemma_same_mines(&self, other: &Board)
        requires
            self.same_frame(other),
            forall|x: int, y: int|
                self.in_bounds(x, y) ==> (#[trigger] self.at(x, y)).is_mine == other.at(
                    x,
                    y,
                ).is_mine,
        ensures
            self.mine_positions() == other.mine_positions(),
            self.mine_total() == other.mine_total(),
    {
        assert forall|p: (u8, u8)| self.mine_positions().contains(p)
            <==> other.mine_positions().contains(p) by {
            if self.in_bounds(p.0 as int, p.1 as int) {
                assert(self.at(p.0 as int, p.1 as int).is_mine == other.at(
                    p.0 as int,
                    p.1 as int,
                ).is_mine);
            }
        }
        assert(self.mine_positions() =~= other.mine_positions());
    }

    /// The hidden cells, each as `256 * y + x`.
    closed spec fn hidden_codes(&self) -> Set<int> {
        Set::new(
            |c: int|
                0 <= c < 65536 && self.in_bounds(c % 256, c / 256) && !self.at(
                    c % 256,
                    c / 256,
                ).is_revealed,
        )
    }

    /// The number of hidden cells.
    closed spec fn hidden_count(&self) -> nat {
        self.hidden_codes().len()
    }

    proof fn lemma_hidden_finite(&self)
        ensures
            self.hidden_codes().finite(),
    {
        vstd::set_lib::lemma_int_range(0, 65536);
        vstd::set_lib::lemma_len_subset(self.hidden_codes(), vstd::set_lib::set_int_range(0, 65536));
    }

    /// Uncovering one hidden cell leaves one hidden cell fewer.
    proof fn lemma_hidden_drop(&self, prior: &Board, x: int, y: int)
        requires
            self.same_layout(prior),
            prior.in_bounds(x, y),
            !prior.at(x, y).is_revealed,
            forall|cx: int, cy: int|
                prior.in_bounds(cx, cy) ==> (#[trigger] self.at(cx, cy)).is_revealed == (prior.at(
                    cx,
                    cy,
                ).is_revealed || (cx == x && cy == y)),
        ensures
            self.hidden_count() + 1 == prior.hidden_count(),
    {
        prior.lemma_hidden_finite();
        let code = 256 * y + x;
        assert(prior.hidden_codes().contains(code));
        assert forall|c: int| self.hidden_codes().contains(c) <==> prior.hidden_codes().remove(
            code,
        ).contains(c) by {
            if 0 <= c < 65536 && prior.in_bounds(c % 256, c / 256) {
                assert(self.at(c % 256, c / 256).is_revealed == (prior.at(
                    c % 256,
                    c / 256,
                ).is_revealed || (c % 256 == x && c / 256 == y)));
            }
        }
        assert(self.hidden_codes() =~= prior.hidden_codes().remove(code));
    }

    /// The cell at `(x, y)`, which must lie inside the grid.
    fn peek(&self, x: u8, y: u8) -> (cell: Cell)
        requires
            self.shaped(),
            self.in_bounds(x as int, y as int),
        ensures
            cell == self.at(x as int, y as int),
    {
        self.cells[y as usize][x as usize]
    }

    /// Reveals the one cell at `(x, y)`.
    fn uncover(&mut self, x: u8, y: u8)
        requires
            old(self).shaped(),
            old(self).in_bounds(x as int, y as int),
        ensures
            final(self).shaped(),
            final(self).same_layout(old(self)),
            forall|cx: int, cy: int|
                final(self).in_bounds(cx, cy) ==> #[trigger] final(self).at(cx, cy) == (Cell {
                    is_revealed: old(self).at(cx, cy).is_revealed || (cx == x && cy == y),
                    ..old(self).at(cx, cy)
                }),
            !old(self).at(x as int, y as int).is_revealed ==> final(self).hidden_count() + 1 == old(
                self,
            ).hidden_count(),
    {
        let ghost before = *self;
        match self.get_cell_mut(x, y) {
            Ok(cell) => {
                cell.is_revealed = true;
            },
            Err(_) => {},
        }
        proof {
            if !before.at(x as int, y as int).is_revealed {
                self.lemma_hidden_drop(&before, x as int, y as int);
            }
        }
    }

    /// A board that differs from a well-formed one only in what is revealed
    /// or flagged is well-formed.
    proof fn lemma_wf_kept(&self, other: &Board)
        requires
            other.wf(),
            self.shaped(),
            self.same_layout(other),
            forall|x: int, y: int|
                self.in_bounds(x, y) ==> (#[trigger] self.at(x, y)).is_mine == other.at(
                    x,
                    y,
                ).is_mine && self.at(x, y).adjacent_mines == other.at(x, y).adjacent_mines,
        ensures
            self.wf(),
    {
        self.lemma_mines_kept(other);
        assert forall|x: int, y: int| self.in_bounds(x, y) implies (#[trigger] self.at(
            x,
            y,
        )).adjacent_mines == self.mines_around(x, y) by {
            assert(other.at(x, y).adjacent_mines == other.mines_around(x, y));
        }
    }

    /// Flags the hidden cell at `(x, y)`, or takes its flag away. A revealed
    /// cell and a position outside the grid give an error and change
    /// nothing.
    pub fn flag(&mut self, x: u8, y: u8) -> (done: Result<(), BoardError>)
        requires
            old(self).wf(),
        ensures
            final(self).wf(),
            done is Ok <==> old(self).can_flag(x as int, y as int),
            final(self).flagged_from(old(self), x as int, y as int),
    {
        let ghost before = *self;
        let mut done: Result<(), BoardError> = Err(BoardError);
        match self.get_cell_mut(x, y) {
            Ok(cell) => {
                if !cell.is_revealed {
                    cell.is_flagged = !cell.is_flagged;
                    done = Ok(());
                }
            },
            Err(_) => {},
        }
        proof {
            self.lemma_wf_kept(&before);
        }
        done
    }

    /// Whether every cell without a mine is revealed.
    pub fn is_all_safe_cells_revealed(&self) -> (all: bool)
        requires
            self.wf(),
        ensures
            all == self.all_safe_revealed(),
    {
        let mut y: u8 = 0;
        while y < self.height
            invariant
                y <= self.height,
                self.shaped(),
                forall|cx: int, cy: int|
                    self.in_bounds(cx, cy) && cy < y && !(#[trigger] self.at(cx, cy)).is_mine
                        ==> self.at(cx, cy).is_revealed,
            decreases self.height - y,
        {
            let mut x: u8 = 0;
            while x < self.width
                invariant
                    x <= self.width,
                    y < self.height,
                    self.shaped(),
                    forall|cx: int, cy: int|
                        self.in_bounds(cx, cy) && (cy < y || (cy == y && cx < x)) && !(
                        #[trigger] self.at(cx, cy)).is_mine ==> self.at(cx, cy).is_revealed,
                decreases self.width - x,
            {
                let cell = self.peek(x, y);
                if !cell.is_mine && !cell.is_revealed {
                    return false;
                }
                x = x + 1;
            }
            y = y + 1;
        }
        true
    }

    /// Reveals every cell, mines included.
    pub fn reveal_all(&mut self)
        requires
            old(self).wf(),
        ensures
            final(self).wf(),
            final(self).unveiled_from(old(self)),
    {
        let ghost before = *self;
        let mut y: u8 = 0;
        while y < self.height
            invariant
                y <= self.height,
                self.shaped(),
                self.same_layout(&before),
                forall|cx: int, cy: int|
                    self.in_bounds(cx, cy) ==> #[trigger] self.at(cx, cy) == (Cell {
                        is_revealed: before.at(cx, cy).is_revealed || cy < y,
                        ..before.at(cx, cy)
                    }),
            decreases self.height - y,
        {
            let mut x: u8 = 0;
            while x < self.width
                invariant
                    x <= self.width,
                    y < self.height,
                    self.shaped(),
                    self.same_layout(&before),
                    forall|cx: int, cy: int|
                        self.in_bounds(cx, cy) ==> #[trigger] self.at(cx, cy) == (Cell {
                            is_revealed: before.at(cx, cy).is_revealed || cy < y || (cy == y && cx
                                < x),
                            ..before.at(cx, cy)
                        }),
                decreases self.width - x,
            {
                self.uncover(x, y);
                x = x + 1;
            }
            y = y + 1;
        }
        proof {
            self.lemma_wf_kept(&before);
        }
    }
}

/// `now` is `before` with some hidden cells revealed and nothing else changed.
spec fn grown(now: &Board, before: &Board) -> bool {
    &&& now.shaped()
    &&& now.same_layout(before)
    &&& forall|x: int, y: int|
        before.in_bounds(x, y) ==> #[trigger] now.at(x, y) == (Cell {
            is_revealed: now.at(x, y).is_revealed,
            ..before.at(x, y)
        })
    &&& forall|x: int, y: int|
        before.in_bounds(x, y) && before.at(x, y).is_revealed ==> (#[trigger] now.at(
            x,
            y,
        )).is_revealed
}

/// The cell at `(x, y)` was hidden in `before` and is revealed in `now`.
spec fn newly(now: &Board, before: &Board, x: int, y: int) -> bool {
    before.in_bounds(x, y) && now.at(x, y).is_revealed && !before.at(x, y).is_revealed
}

/// Around `(cx, cy)` no cell that the spreading could uncover is still hidden.
spec fn spread_done(now: &Board, before: &Board, cx: int, cy: int) -> bool {
    forall|nx: int, ny: int| #[trigger]
        touching(cx, cy, nx, ny) && before.floodable(nx, ny) ==> now.at(nx, ny).is_revealed
}

/// The offset `(nx - cx, ny - cy)` comes before `(col - 1, row - 1)` when
/// the eight neighbours are visited row by row.
spec fn visited(cx: int, cy: int, nx: int, ny: int, row: int, col: int) -> bool {
    ny - cy + 1 < row || (ny - cy + 1 == row && nx - cx + 1 < col)
}

/// Around `(cx, cy)` the neighbours visited so far are done.
#[verifier::opaque]
spec fn spread_partly(now: &Board, before: &Board, cx: int, cy: int, row: int, col: int) -> bool {
    forall|nx: int, ny: int| #[trigger]
        touching(cx, cy, nx, ny) && before.floodable(nx, ny) && visited(cx, cy, nx, ny, row, col)
            ==> now.at(nx, ny).is_revealed
}

/// What holds while a reveal spreads from `(sx, sy)`: only cells that the
/// spreading reaches have been uncovered, the cells still to be worked on are
/// among them, and around every other uncovered cell that touches no mine
/// the work is done. `cur` is the cell being worked on, if any.
#[verifier::opaque]
spec fn flood_inv(
    now: &Board,
    before: &Board,
    sx: int,
    sy: int,
    pending: Seq<(u8, u8)>,
    cur: Option<(int, int)>,
) -> bool {
    &&& before.spreads(sx, sy)
    &&& grown(now, before)
    &&& now.at(sx, sy).is_revealed
    &&& forall|x: int, y: int| #[trigger]
        newly(now, before, x, y) ==> before.flood_reaches(sx, sy, x, y)
    &&& forall|i: int|
        0 <= i < pending.len() ==> newly(
            now,
            before,
            (#[trigger] pending[i]).0 as int,
            pending[i].1 as int,
        ) && before.spreads(pending[i].0 as int, pending[i].1 as int)
    &&& forall|x: int, y: int| #[trigger]
        newly(now, before, x, y) && before.spreads(x, y) && !pending.contains((x as u8, y as u8))
            && cur != Some((x, y)) ==> spread_done(now, before, x, y)
}

/// Once nothing is left to work on, every cell at the end of a spreading walk
/// is revealed.
proof fn lemma_flood_complete(now: &Board, before: &Board, sx: int, sy: int, path: Seq<(int, int)>)
    requires
        flood_inv(now, before, sx, sy, Seq::empty(), None),
        before.flood_path(path),
        path[0] == (sx, sy),
    ensures
        now.at(path.last().0, path.last().1).is_revealed,
    decreases path.len(),
{
    reveal(flood_inv);
    if path.len() > 1 {
        let shorter = path.drop_last();
        assert(before.flood_path(shorter)) by {
            assert forall|i: int| 0 <= i < shorter.len() implies before.floodable(
                (#[trigger] shorter[i]).0,
                shorter[i].1,
            ) by {
                assert(before.floodable(path[i].0, path[i].1));
            }
            assert forall|i: int| 0 <= i < shorter.len() - 1 implies before.spreads(
                (#[trigger] shorter[i]).0,
                shorter[i].1,
            ) && touching(shorter[i].0, shorter[i].1, shorter[i + 1].0, shorter[i + 1].1) by {
                assert(before.spreads(path[i].0, path[i].1));
                assert(shorter[i + 1] == path[i + 1]);
            }
        }
        lemma_flood_complete(now, before, sx, sy, shorter);
        let prev = path[path.len() - 2];
        let end = path.last();
        assert(shorter.last() == prev);
        assert(before.spreads(prev.0, prev.1));
        assert(before.floodable(end.0, end.1));
        assert(newly(now, before, prev.0, prev.1));
        assert(!Seq::<(u8, u8)>::empty().contains((prev.0 as u8, prev.1 as u8)));
        assert(spread_done(now, before, prev.0, prev.1));
        assert(touching(prev.0, prev.1, end.0, end.1));
    }
}

/// A spreading walk that ends in a cell touching no mine goes on to any cell
/// around it that can be uncovered.
proof fn lemma_flood_extend(before: &Board, sx: int, sy: int, cx: int, cy: int, nx: int, ny: int)
    requires
        before.flood_reaches(sx, sy, cx, cy),
        before.spreads(cx, cy),
        touching(cx, cy, nx, ny),
        before.floodable(nx, ny),
    ensures
        before.flood_reaches(sx, sy, nx, ny),
{
    let path = choose|path: Seq<(int, int)>| #[trigger]
        before.flood_path(path) && path[0] == (sx, sy) && path.last() == (cx, cy);
    let longer = path.push((nx, ny));
    assert forall|i: int| 0 <= i < longer.len() implies before.floodable(
        (#[trigger] longer[i]).0,
        longer[i].1,
    ) by {
        if i < path.len() {
            assert(before.floodable(path[i].0, path[i].1));
        }
    }
    assert forall|i: int| 0 <= i < longer.len() - 1 implies before.spreads(
        (#[trigger] longer[i]).0,
        longer[i].1,
    ) && touching(longer[i].0, longer[i].1, longer[i + 1].0, longer[i + 1].1) by {
        if i < path.len() - 1 {
            assert(before.spreads(path[i].0, path[i].1));
            assert(longer[i + 1] == path[i + 1]);
        }
    }
    assert(before.flood_path(longer));
    assert(longer[0] == (sx, sy));
    assert(longer.last() == (nx, ny));
}

/// What the loop's invariant says outright.
proof fn lemma_flood_facts(
    now: &Board,
    before: &Board,
    sx: int,
    sy: int,
    pending: Seq<(u8, u8)>,
    cur: Option<(int, int)>,
)
    requires
        flood_inv(now, before, sx, sy, pending, cur),
    ensures
        now.shaped(),
        now.same_layout(before),
        forall|x: int, y: int|
            before.in_bounds(x, y) ==> #[trigger] now.at(x, y) == (Cell {
                is_revealed: now.at(x, y).is_revealed,
                ..before.at(x, y)
            }),
{
    reveal(flood_inv);
}

/// Taking the last cell off the list makes it the cell being worked on.
proof fn lemma_flood_pop(
    now: &Board,
    before: &Board,
    sx: int,
    sy: int,
    waiting: Seq<(u8, u8)>,
    cx: u8,
    cy: u8,
)
    requires
        flood_inv(now, before, sx, sy, waiting, None),
        waiting.len() > 0,
        waiting[waiting.len() - 1] == (cx, cy),
    ensures
        flood_inv(
            now,
            before,
            sx,
            sy,
            waiting.subrange(0, waiting.len() - 1),
            Some((cx as int, cy as int)),
        ),
        newly(now, before, cx as int, cy as int),
        before.spreads(cx as int, cy as int),
        spread_partly(now, before, cx as int, cy as int, 0, 0),
{
    reveal(flood_inv);
    reveal(spread_partly);
    let rest = waiting.subrange(0, waiting.len() - 1);
    assert forall|i: int| 0 <= i < rest.len() implies newly(
        now,
        before,
        (#[trigger] rest[i]).0 as int,
        rest[i].1 as int,
    ) && before.spreads(rest[i].0 as int, rest[i].1 as int) by {
        assert(rest[i] == waiting[i]);
    }
    assert forall|x: int, y: int| #[trigger]
        newly(now, before, x, y) && before.spreads(x, y) && !rest.contains((x as u8, y as u8))
            && Some((cx as int, cy as int)) != Some((x, y)) implies spread_done(
        now,
        before,
        x,
        y,
    ) by {
        if waiting.contains((x as u8, y as u8)) {
            let i = choose|i: int| 0 <= i < waiting.len() && waiting[i] == (x as u8, y as u8);
            if i < rest.len() {
                assert(rest[i] == (x as u8, y as u8));
            }
            assert(false);
        }
    }
}

/// Once all eight neighbours have been visited, the cell being worked on is
/// done.
proof fn lemma_flood_round(
    now: &Board,
    before: &Board,
    sx: int,
    sy: int,
    pending: Seq<(u8, u8)>,
    cx: int,
    cy: int,
)
    requires
        flood_inv(now, before, sx, sy, pending, Some((cx, cy))),
        spread_partly(now, before, cx, cy, 3, 0),
    ensures
        flood_inv(now, before, sx, sy, pending, None),
{
    reveal(flood_inv);
    reveal(spread_partly);
    assert(spread_done(now, before, cx, cy)) by {
        assert forall|mx: int, my: int| #[trigger]
            touching(cx, cy, mx, my) && before.floodable(mx, my) implies now.at(
            mx,
            my,
        ).is_revealed by {
            assert(visited(cx, cy, mx, my, 3, 0));
        }
    }
}

/// The end of one row of neighbours is the start of the next.
proof fn lemma_next_row(now: &Board, before: &Board, cx: int, cy: int, row: int)
    requires
        spread_partly(now, before, cx, cy, row, 3),
    ensures
        spread_partly(now, before, cx, cy, row + 1, 0),
{
    reveal(spread_partly);
    assert forall|mx: int, my: int| #[trigger]
        touching(cx, cy, mx, my) && before.floodable(mx, my) && visited(
            cx,
            cy,
            mx,
            my,
            row + 1,
            0,
        ) implies now.at(mx, my).is_revealed by {
        assert(visited(cx, cy, mx, my, row, 3));
    }
}

/// A neighbour that is no cell, or that cannot be uncovered, needs no work.
proof fn lemma_flood_skip(
    now: &Board,
    before: &Board,
    sx: int,
    sy: int,
    pending: Seq<(u8, u8)>,
    cx: int,
    cy: int,
    row: int,
    col: int,
)
    requires
        flood_inv(now, before, sx, sy, pending, Some((cx, cy))),
        spread_partly(now, before, cx, cy, row, col),
        !now.floodable(cx + col - 1, cy + row - 1) || (col == 1 && row == 1),
    ensures
        spread_partly(now, before, cx, cy, row, col + 1),
{
    reveal(flood_inv);
    reveal(spread_partly);
    assert forall|mx: int, my: int| #[trigger]
        touching(cx, cy, mx, my) && before.floodable(mx, my) && visited(
            cx,
            cy,
            mx,
            my,
            row,
            col + 1,
        ) implies now.at(mx, my).is_revealed by {
        if !visited(cx, cy, mx, my, row, col) {
            assert(mx == cx + col - 1 && my == cy + row - 1);
            assert(now.at(mx, my) == (Cell {
                is_revealed: now.at(mx, my).is_revealed,
                ..before.at(mx, my)
            }));
        }
    }
}

/// Uncovering a neighbour of the cell being worked on keeps the loop's
/// invariant; the neighbour joins the cells to work on if it touches no mine.
#[verifier::rlimit(50)]
proof fn lemma_flood_step(
    now: &Board,
    prior: &Board,
    before: &Board,
    sx: int,
    sy: int,
    pending: Seq<(u8, u8)>,
    cx: int,
    cy: int,
    row: int,
    col: int,
)
    requires
        flood_inv(prior, before, sx, sy, pending, Some((cx, cy))),
        spread_partly(prior, before, cx, cy, row, col),
        newly(prior, before, cx, cy),
        before.spreads(cx, cy),
        0 <= row < 3,
        0 <= col < 3,
        col != 1 || row != 1,
        0 <= cx + col - 1 < 256,
        0 <= cy + row - 1 < 256,
        prior.floodable(cx + col - 1, cy + row - 1),
        now.shaped(),
        now.same_layout(prior),
        forall|x: int, y: int|
            now.in_bounds(x, y) ==> #[trigger] now.at(x, y) == (Cell {
                is_revealed: prior.at(x, y).is_revealed || (x == cx + col - 1 && y == cy + row
                    - 1),
                ..prior.at(x, y)
            }),
    ensures
        flood_inv(
            now,
            before,
            sx,
            sy,
            if prior.at(cx + col - 1, cy + row - 1).adjacent_mines == 0 {
                pending.push(((cx + col - 1) as u8, (cy + row - 1) as u8))
            } else {
                pending
            },
            Some((cx, cy)),
        ),
        spread_partly(now, before, cx, cy, row, col + 1),
        newly(now, before, cx, cy),
{
    reveal(flood_inv);
    reveal(spread_partly);
    let nx = (cx + col - 1) as u8;
    let ny = (cy + row - 1) as u8;
    let after = if prior.at(nx as int, ny as int).adjacent_mines == 0 {
        pending.push((nx, ny))
    } else {
        pending
    };
    assert(touching(cx, cy, nx as int, ny as int));
    assert(prior.at(nx as int, ny as int) == (Cell {
        is_revealed: prior.at(nx as int, ny as int).is_revealed,
        ..before.at(nx as int, ny as int)
    }));
    assert(before.floodable(nx as int, ny as int));
    assert(grown(now, before)) by {
        assert forall|x: int, y: int| before.in_bounds(x, y) implies #[trigger] now.at(x, y) == (Cell {
            is_revealed: now.at(x, y).is_revealed,
            ..before.at(x, y)
        }) by {
            assert(prior.at(x, y) == (Cell {
                is_revealed: prior.at(x, y).is_revealed,
                ..before.at(x, y)
            }));
        }
        assert forall|x: int, y: int|
            before.in_bounds(x, y) && before.at(x, y).is_revealed implies (#[trigger] now.at(
            x,
            y,
        )).is_revealed by {
            assert(prior.at(x, y).is_revealed);
        }
    }
    assert forall|x: int, y: int| #[trigger] newly(now, before, x, y) implies before.flood_reaches(
        sx,
        sy,
        x,
        y,
    ) by {
        if x == nx && y == ny {
            assert(newly(prior, before, cx, cy));
            lemma_flood_extend(before, sx, sy, cx, cy, nx as int, ny as int);
        } else {
            assert(now.at(x, y).is_revealed == prior.at(x, y).is_revealed);
            assert(newly(prior, before, x, y));
        }
    }
    assert forall|i: int| 0 <= i < after.len() implies newly(
        now,
        before,
        (#[trigger] after[i]).0 as int,
        after[i].1 as int,
    ) && before.spreads(after[i].0 as int, after[i].1 as int) by {
        if i < pending.len() {
            assert(newly(prior, before, pending[i].0 as int, pending[i].1 as int));
            assert(now.at(pending[i].0 as int, pending[i].1 as int).is_revealed);
        } else {
            assert(now.at(nx as int, ny as int).is_revealed);
        }
    }
    assert forall|x: int, y: int| #[trigger]
        newly(now, before, x, y) && before.spreads(x, y) && !after.contains((x as u8, y as u8))
            && Some((cx, cy)) != Some((x, y)) implies spread_done(now, before, x, y) by {
        if x == nx && y == ny {
            if before.at(nx as int, ny as int).adjacent_mines == 0 {
                assert(after[pending.len() as int] == (nx, ny));
                assert(false);
            }
        } else {
            assert(now.at(x, y).is_revealed == prior.at(x, y).is_revealed);
            assert(newly(prior, before, x, y));
            if pending.contains((x as u8, y as u8)) {
                let i = choose|i: int| 0 <= i < pending.len() && pending[i] == (x as u8, y as u8);
                assert(after[i] == (x as u8, y as u8));
                assert(false);
            }
            assert(spread_done(prior, before, x, y));
            assert forall|mx: int, my: int| #[trigger]
                touching(x, y, mx, my) && before.floodable(mx, my) implies now.at(
                mx,
                my,
            ).is_revealed by {
                assert(prior.at(mx, my).is_revealed);
            }
        }
    }
    assert(now.at(sx, sy).is_revealed) by {
        assert(prior.at(sx, sy).is_revealed);
    }
    assert forall|mx: int, my: int| #[trigger]
        touching(cx, cy, mx, my) && before.floodable(mx, my) && visited(
            cx,
            cy,
            mx,
            my,
            row,
            col + 1,
        ) implies now.at(mx, my).is_revealed by {
        if visited(cx, cy, mx, my, row, col) {
            assert(prior.at(mx, my).is_revealed);
        }
    }
}

/// When the work on a reveal that spread is over, exactly the cells that
/// the spreading reaches have been uncovered.
proof fn lemma_flood_result(now: &Board, before: &Board, sx: int, sy: int)
    requires
        before.wf(),
        flood_inv(now, before, sx, sy, Seq::empty(), None),
    ensures
        now.wf(),
        now.same_layout(before),
        forall|tx: int, ty: int|
            now.in_bounds(tx, ty) ==> #[trigger] now.at(tx, ty) == (Cell {
                is_revealed: before.at(tx, ty).is_revealed || before.flood_reaches(sx, sy, tx, ty),
                ..before.at(tx, ty)
            }),
{
    assert forall|tx: int, ty: int| now.in_bounds(tx, ty) implies #[trigger] now.at(tx, ty) == (Cell {
        is_revealed: before.at(tx, ty).is_revealed || before.flood_reaches(sx, sy, tx, ty),
        ..before.at(tx, ty)
    }) by {
        if before.flood_reaches(sx, sy, tx, ty) {
            let path = choose|path: Seq<(int, int)>| #[trigger]
                before.flood_path(path) && path[0] == (sx, sy) && path.last() == (tx, ty);
            lemma_flood_complete(now, before, sx, sy, path);
        }
        reveal(flood_inv);
        assert(now.at(tx, ty) == (Cell {
            is_revealed: now.at(tx, ty).is_revealed,
            ..before.at(tx, ty)
        }));
        if now.at(tx, ty).is_revealed && !before.at(tx, ty).is_revealed {
            assert(newly(now, before, tx, ty));
        }
    }
    reveal(flood_inv);
    now.lemma_wf_kept(before);
}

/// The first cell of a reveal that spreads, uncovered and waiting for work.
proof fn lemma_flood_start(now: &Board, before: &Board, x: u8, y: u8)
    requires
        before.wf(),
        before.spreads(x as int, y as int),
        now.shaped(),
        now.same_layout(before),
        forall|cx: int, cy: int|
            now.in_bounds(cx, cy) ==> #[trigger] now.at(cx, cy) == (Cell {
                is_revealed: before.at(cx, cy).is_revealed || (cx == x && cy == y),
                ..before.at(cx, cy)
            }),
    ensures
        flood_inv(now, before, x as int, y as int, seq![(x, y)], None),
{
    reveal(flood_inv);
    let pending = seq![(x, y)];
    let start = seq![(x as int, y as int)];
    assert(before.flood_path(start));
    assert(start[0] == (x as int, y as int) && start.last() == (x as int, y as int));
    assert(before.flood_reaches(x as int, y as int, x as int, y as int));
    assert forall|cx: int, cy: int| #[trigger] newly(now, before, cx, cy) implies cx == x && cy
        == y by {
        assert(now.at(cx, cy).is_revealed == (before.at(cx, cy).is_revealed || (cx == x && cy
            == y)));
    }
    assert(pending[0] == (x, y));
    assert(pending.contains((x, y)));
    assert(now.at(x as int, y as int).is_revealed);
}

impl Board {
    /// One step of a spreading reveal: looks at the neighbour of `(cx, cy)`
    /// in row `row` and column `col` of the three by three cells around it,
    /// uncovers it if it is hidden, unflagged and no mine, and lists it for
    /// further work if it touches no mine itself.
    fn spread_to(
        &mut self,
        pending: &mut Vec<(u8, u8)>,
        cx: u8,
        cy: u8,
        row: u8,
        col: u8,
        Ghost(before): Ghost<Board>,
        Ghost(sx): Ghost<int>,
        Ghost(sy): Ghost<int>,
    )
        requires
            row < 3,
            col < 3,
            flood_inv(old(self), &before, sx, sy, old(pending)@, Some((cx as int, cy as int))),
            newly(old(self), &before, cx as int, cy as int),
            before.spreads(cx as int, cy as int),
            spread_partly(old(self), &before, cx as int, cy as int, row as int, col as int),
        ensures
            flood_inv(final(self), &before, sx, sy, final(pending)@, Some((cx as int, cy as int))),
            newly(final(self), &before, cx as int, cy as int),
            spread_partly(final(self), &before, cx as int, cy as int, row as int, col + 1),
            2 * final(self).hidden_count() + final(pending)@.len() <= 2 * old(self).hidden_count()
                + old(pending)@.len(),
    {
        let target_x: i16 = cx as i16 + col as i16 - 1;
        let target_y: i16 = cy as i16 + row as i16 - 1;
        let ghost prior = *self;
        let ghost queued = pending@;
        let mut spread = false;
        proof {
            lemma_flood_facts(self, &before, sx, sy, pending@, Some((cx as int, cy as int)));
        }
        if (col != 1 || row != 1) && 0 <= target_x && target_x < self.width as i16 && 0 <= target_y
            && target_y < self.height as i16 {
            let nx = target_x as u8;
            let ny = target_y as u8;
            let cell = self.peek(nx, ny);
            if !cell.is_revealed && !cell.is_flagged && !cell.is_mine {
                self.uncover(nx, ny);
                if cell.adjacent_mines == 0 {
                    pending.push((nx, ny));
                }
                spread = true;
                proof {
                    lemma_flood_step(
                        self,
                        &prior,
                        &before,
                        sx,
                        sy,
                        queued,
                        cx as int,
                        cy as int,
                        row as int,
                        col as int,
                    );
                }
            }
        }
        proof {
            if !spread {
                lemma_flood_skip(
                    self,
                    &before,
                    sx,
                    sy,
                    pending@,
                    cx as int,
                    cy as int,
                    row as int,
                    col as int,
                );
            }
        }
    }

    /// Reveals `(x, y)`, which touches no mine, and spreads from it: the
    /// cells around a revealed cell that touches no mine are revealed too,
    /// unless they are flagged, and so on from each of those.
    fn flood(&mut self, x: u8, y: u8)
        requires
            old(self).wf(),
            old(self).spreads(x as int, y as int),
        ensures
            final(self).wf(),
            final(self).same_layout(old(self)),
            forall|cx: int, cy: int|
                final(self).in_bounds(cx, cy) ==> #[trigger] final(self).at(cx, cy) == (Cell {
                    is_revealed: old(self).at(cx, cy).is_revealed || old(self).flood_reaches(
                        x as int,
                        y as int,
                        cx,
                        cy,
                    ),
                    ..old(self).at(cx, cy)
                }),
    {
        let ghost before = *self;
        self.uncover(x, y);
        let mut pending: Vec<(u8, u8)> = Vec::new();
        pending.push((x, y));
        proof {
            lemma_flood_start(self, &before, x, y);
            assert(pending@ == seq![(x, y)]);
        }
        while pending.len() > 0
            invariant
                before.wf(),
                flood_inv(self, &before, x as int, y as int, pending@, None),
            decreases 2 * self.hidden_count() + pending@.len(),
        {
            let ghost round = *self;
            let ghost waiting = pending@;
            let (cx, cy) = pending.pop().unwrap();
            proof {
                lemma_flood_pop(self, &before, x as int, y as int, waiting, cx, cy);
            }
            let mut row: u8 = 0;
            while row < 3
                invariant
                    row <= 3,
                    flood_inv(
                        self,
                        &before,
                        x as int,
                        y as int,
                        pending@,
                        Some((cx as int, cy as int)),
                    ),
                    newly(self, &before, cx as int, cy as int),
                    before.spreads(cx as int, cy as int),
                    spread_partly(self, &before, cx as int, cy as int, row as int, 0),
                    2 * self.hidden_count() + pending@.len() < 2 * round.hidden_count()
                        + waiting.len(),
                decreases 3 - row,
            {
                let mut col: u8 = 0;
                while col < 3
                    invariant
                        col <= 3,
                        row < 3,
                        flood_inv(
                            self,
                            &before,
                            x as int,
                            y as int,
                            pending@,
                            Some((cx as int, cy as int)),
                        ),
                        newly(self, &before, cx as int, cy as int),
                        before.spreads(cx as int, cy as int),
                        spread_partly(self, &before, cx as int, cy as int, row as int, col as int),
                        2 * self.hidden_count() + pending@.len() < 2 * round.hidden_count()
                            + waiting.len(),
                    decreases 3 - col,
                {
                    self.spread_to(
                        &mut pending,
                        cx,
                        cy,
                        row,
                        col,
                        Ghost(before),
                        Ghost(x as int),
                        Ghost(y as int),
                    );
                    col = col + 1;
                }
                proof {
                    lemma_next_row(self, &before, cx as int, cy as int, row as int);
                }
                row = row + 1;
            }
            proof {
                lemma_flood_round(
                    self,
                    &before,
                    x as int,
                    y as int,
                    pending@,
                    cx as int,
                    cy as int,
                );
            }
        }
        proof {
            assert(pending@ == Seq::<(u8, u8)>::empty());
            lemma_flood_result(self, &before, x as int, y as int);
        }
    }

    /// Reveals the cell at `(x, y)`. Outside the grid this is an error; on a
    /// revealed or flagged cell nothing happens; a mine is reported and
    /// stays hidden; a cell that touches mines is revealed alone; from a
    /// cell that touches none the reveal spreads.
    pub fn reveal_at(&mut self, x: u8, y: u8) -> (outcome: Result<RevealResult, BoardError>)
        requires
            old(self).wf(),
        ensures
            final(self).wf(),
            outcome == old(self).reveal_outcome(x as int, y as int),
            final(self).revealed_from(old(self), x as int, y as int),
    {
        if !self.is_coordinate_valid(x, y) {
            return Err(BoardError);
        }
        let ghost before = *self;
        let cell = self.peek(x, y);
        if cell.is_revealed || cell.is_flagged {
            Ok(RevealResult::DoNothing)
        } else if cell.is_mine {
            Ok(RevealResult::Mine)
        } else if cell.adjacent_mines > 0 {
            self.uncover(x, y);
            proof {
                self.lemma_wf_kept(&before);
            }
            Ok(RevealResult::Revealed(cell.adjacent_mines))
        } else {
            self.flood(x, y);
            Ok(RevealResult::FloodRevealed)
        }
    }
}

impl Board {
    /// The characters of row `y`, closed by a newline.
    pub open spec fn row_text(&self, y: int) -> Seq<char> {
        Seq::new(self.cols() as nat, |x: int| self.at(x, y).glyph_spec()).push('\n')
    }

    /// The text of the first `rows` rows.
    pub open spec fn text_upto(&self, rows: int) -> Seq<char>
        decreases rows,
    {
        if rows <= 0 {
            Seq::empty()
        } else {
            self.text_upto(rows - 1) + self.row_text(rows - 1)
        }
    }

    /// The board as text: one character per cell, each row closed by a
    /// newline, the top row first.
    pub open spec fn snapshot(&self) -> Seq<char> {
        self.text_upto(self.rows())
    }

    /// The board as text, as the players are shown it.
    pub fn render(&self) -> (text: String)
        requires
            self.wf(),
        ensures
            text@ == self.snapshot(),
    {
        let mut text = String::new();
        let mut y: u8 = 0;
        while y < self.height
            invariant
                y <= self.height,
                self.shaped(),
                text@ == self.text_upto(y as int),
            decreases self.height - y,
        {
            let ghost done = text@;
            let mut x: u8 = 0;
            while x < self.width
                invariant
                    x <= self.width,
                    y < self.height,
                    self.shaped(),
                    text@ == done + Seq::new(x as nat, |i: int| self.at(i, y as int).glyph_spec()),
                decreases self.width - x,
            {
                let cell = self.peek(x, y);
                push_char(&mut text, cell.glyph());
                assert(Seq::new((x + 1) as nat, |i: int| self.at(i, y as int).glyph_spec())
                    == Seq::new(x as nat, |i: int| self.at(i, y as int).glyph_spec()).push(
                    self.at(x as int, y as int).glyph_spec(),
                ));
                x = x + 1;
            }
            push_char(&mut text, '\n');
            assert(text@ == done + self.row_text(y as int));
            y = y + 1;
        }
        text
    }
}

} // verus!
