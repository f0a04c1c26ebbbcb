//! Board model: tri-state cells, win detection over the eight lines, and the
//! terminal game result (win or draw).

use vstd::prelude::*;

use crate::input::InputHandler;

verus! {

/// One cell of the 3x3 board. Doubles as a player identity; `Empty` is a
/// valid cell state but never a valid active player.
#[derive(Copy, Clone, Debug, PartialEq, Eq, Structural)]
pub enum TileState {
    X,
    O,
    Empty,
}

/// Index of the X glyph in the externally owned sprite table.
pub const X_SPRITE_INDEX: usize = 1;
/// Index of the O glyph in the externally owned sprite table.
pub const O_SPRITE_INDEX: usize = 2;

impl TileState {
    /// Sprite-table index of this player's glyph. `Empty` names no player and
    /// has no glyph, so callers must rule it out.
    pub fn get_sprite(&self) -> (idx: usize)
        requires
            !(self is Empty),
        ensures
            self is X ==> idx == X_SPRITE_INDEX,
            self is O ==> idx == O_SPRITE_INDEX,
    {
        match self {
            TileState::X => X_SPRITE_INDEX,
            TileState::O => O_SPRITE_INDEX,
            TileState::Empty => {
                proof {
                    assert(false);
                }
                X_SPRITE_INDEX
            },
        }
    }
}

/// The 3x3 playing field, row-major: cell (row, col) sits at index
/// `row * 3 + col` of the backing vector.
pub struct Board {
    tiles: Vec<TileState>,
}

impl Board {
    /// The board always holds exactly nine cells.
    pub closed spec fn wf(self) -> bool {
        self.tiles@.len() == 9
    }

    /// The state of cell (row, col).
    pub closed spec fn cell(self, row: int, col: int) -> TileState {
        self.tiles@[row * 3 + col]
    }

    pub fn new() -> (b: Board)
        ensures
            b.wf(),
            forall|r: int, c: int| 0 <= r < 3 && 0 <= c < 3 ==> b.cell(r, c) is Empty,
    {
        let mut tiles: Vec<TileState> = Vec::new();
        let mut i: usize = 0;
        while i < 9
            invariant
                i <= 9,
                tiles@.len() == i,
                forall|j: int| 0 <= j < i ==> tiles@[j] is Empty,
            decreases 9 - i,
        {
            tiles.push(TileState::Empty);
            i = i + 1;
        }
        let b = Board { tiles };
        proof {
            assert forall|r: int, c: int| 0 <= r < 3 && 0 <= c < 3 implies b.cell(r, c) is Empty by {
                assert(0 <= r * 3 + c < 9);
            }
        }
        b
    }

    /// Read one cell.
    pub fn get_tile(&self, col: usize, row: usize) -> (t: TileState)
        requires
            self.wf(),
            col < 3,
            row < 3,
        ensures
            t == self.cell(row as int, col as int),
    {
        self.tiles[row * 3 + col]
    }

    /// Write one cell unconditionally; exactly that cell changes.
    pub fn update_tile(&mut self, col: usize, row: usize, state: TileState)
        requires
            old(self).wf(),
            col < 3,
            row < 3,
        ensures
            final(self).wf(),
            final(self).cell(row as int, col as int) == state,
            forall|r: int, c: int|
                0 <= r < 3 && 0 <= c < 3 && !(r == row as int && c == col as int)
                    ==> final(self).cell(r, c) == old(self).cell(r, c),
    {
        let idx = row * 3 + col;
        self.tiles.set(idx, state);
        proof {
            assert forall|r: int, c: int|
                0 <= r < 3 && 0 <= c < 3 && !(r == row as int && c == col as int)
                    implies final(self).cell(r, c) == old(self).cell(r, c) by {
                assert(r * 3 + c != row as int * 3 + col as int);
            }
        }
    }

    /// The three cells of `row` are mutually equal and not empty.
    pub open spec fn row_won(self, row: int) -> bool {
        &&& !(self.cell(row, 0) is Empty)
        &&& self.cell(row, 0) == self.cell(row, 1)
        &&& self.cell(row, 1) == self.cell(row, 2)
    }

    /// The three cells of `col` are mutually equal and not empty.
    pub open spec fn col_won(self, col: int) -> bool {
        &&& !(self.cell(0, col) is Empty)
        &&& self.cell(0, col) == self.cell(1, col)
        &&& self.cell(1, col) == self.cell(2, col)
    }

    /// The top-left to bottom-right diagonal is uniform and not empty.
    pub open spec fn left_diag_won(self) -> bool {
        &&& !(self.cell(0, 0) is Empty)
        &&& self.cell(0, 0) == self.cell(1, 1)
        &&& self.cell(1, 1) == self.cell(2, 2)
    }

    /// The top-right to bottom-left diagonal is uniform and not empty.
    pub open spec fn right_diag_won(self) -> bool {
        &&& !(self.cell(0, 2) is Empty)
        &&& self.cell(0, 2) == self.cell(1, 1)
        &&& self.cell(1, 1) == self.cell(2, 0)
    }

    pub fn check_row_win(&self, row: usize) -> (won: bool)
        requires
            self.wf(),
            row < 3,
        ensures
            won == self.row_won(row as int),
    {
        let c1 = self.get_tile(0, row);
        let c2 = self.get_tile(1, row);
        let c3 = self.get_tile(2, row);
        c1 != TileState::Empty && c1 == c2 && c2 == c3
    }

    pub fn check_column_win(&self, column: usize) -> (won: bool)
        requires
            self.wf(),
            column < 3,
        ensures
            won == self.col_won(column as int),
    {
        let r1 = self.get_tile(column, 0);
        let r2 = self.get_tile(column, 1);
        let r3 = self.get_tile(column, 2);
        r1 != TileState::Empty && r1 == r2 && r2 == r3
    }

    pub fn check_left_diagonal(&self) -> (won: bool)
        requires
            self.wf(),
        ensures
            won == self.left_diag_won(),
    {
        let t1 = self.get_tile(0, 0);
        let t2 = self.get_tile(1, 1);
        let t3 = self.get_tile(2, 2);
        t1 != TileState::Empty && t1 == t2 && t2 == t3
    }

    pub fn check_right_diagonal(&self) -> (won: bool)
        requires
            self.wf(),
        ensures
            won == self.right_diag_won(),
    {
        let t1 = self.get_tile(2, 0);
        let t2 = self.get_tile(1, 1);
        let t3 = self.get_tile(0, 2);
        t1 != TileState::Empty && t1 == t2 && t2 == t3
    }

    /// Player `p` holds one of the eight winning lines: a row, a column or a
    /// diagonal whose three cells all carry `p`.
    pub open spec fn line_won_by(self, p: TileState) -> bool {
        &&& !(p is Empty)
        &&& {
            ||| (self.cell(0, 0) == p && self.cell(0, 1) == p && self.cell(0, 2) == p)
            ||| (self.cell(1, 0) == p && self.cell(1, 1) == p && self.cell(1, 2) == p)
            ||| (self.cell(2, 0) == p && self.cell(2, 1) == p && self.cell(2, 2) == p)
            ||| (self.cell(0, 0) == p && self.cell(1, 0) == p && self.cell(2, 0) == p)
            ||| (self.cell(0, 1) == p && self.cell(1, 1) == p && self.cell(2, 1) == p)
            ||| (self.cell(0, 2) == p && self.cell(1, 2) == p && self.cell(2, 2) == p)
            ||| (self.cell(0, 0) == p && self.cell(1, 1) == p && self.cell(2, 2) == p)
            ||| (self.cell(0, 2) == p && self.cell(1, 1) == p && self.cell(2, 0) == p)
        }
    }

    /// The winner, if any. When a board (unreachable in a real game) holds a
    /// line for each player, X is reported.
    pub open spec fn spec_winner(self) -> Option<TileState> {
        if self.line_won_by(TileState::X) {
            Some(TileState::X)
        } else if self.line_won_by(TileState::O) {
            Some(TileState::O)
        } else {
            None
        }
    }

    /// Every cell is occupied.
    pub open spec fn full(self) -> bool {
        &&& !(self.cell(0, 0) is Empty) && !(self.cell(0, 1) is Empty) && !(self.cell(0, 2) is Empty)
        &&& !(self.cell(1, 0) is Empty) && !(self.cell(1, 1) is Empty) && !(self.cell(1, 2) is Empty)
        &&& !(self.cell(2, 0) is Empty) && !(self.cell(2, 1) is Empty) && !(self.cell(2, 2) is Empty)
    }

    /// How many cells are occupied.
    pub open spec fn filled_count(self) -> int {
        (if self.cell(0, 0) is Empty { 0int } else { 1 })
        + (if self.cell(0, 1) is Empty { 0int } else { 1 })
        + (if self.cell(0, 2) is Empty { 0int } else { 1 })
        + (if self.cell(1, 0) is Empty { 0int } else { 1 })
        + (if self.cell(1, 1) is Empty { 0int } else { 1 })
        + (if self.cell(1, 2) is Empty { 0int } else { 1 })
        + (if self.cell(2, 0) is Empty { 0int } else { 1 })
        + (if self.cell(2, 1) is Empty { 0int } else { 1 })
        + (if self.cell(2, 2) is Empty { 0int } else { 1 })
    }

    /// The terminal state the board is in: a win for whoever holds a line, a
    /// draw once the board is full with no line, else the game goes on.
    pub open spec fn spec_result(self) -> GameResult {
        match self.spec_winner() {
            Some(p) => GameResult::Won(p),
            None => if self.full() {
                GameResult::Draw
            } else {
                GameResult::InProgress
            },
        }
    }

    /// Whether player `p` (X or O) holds a winning line.
    pub fn has_line(&self, p: TileState) -> (won: bool)
        requires
            self.wf(),
            !(p is Empty),
        ensures
            won == self.line_won_by(p),
    {
        (self.check_row_win(0) && self.get_tile(0, 0) == p)
            || (self.check_row_win(1) && self.get_tile(0, 1) == p)
            || (self.check_row_win(2) && self.get_tile(0, 2) == p)
            || (self.check_column_win(0) && self.get_tile(0, 0) == p)
            || (self.check_column_win(1) && self.get_tile(1, 0) == p)
            || (self.check_column_win(2) && self.get_tile(2, 0) == p)
            || (self.check_left_diagonal() && self.get_tile(0, 0) == p)
            || (self.check_right_diagonal() && self.get_tile(2, 0) == p)
    }

    /// All four win checks combined into one observable answer.
    pub fn check_win(&self) -> (winner: Option<TileState>)
        requires
            self.wf(),
        ensures
            winner == self.spec_winner(),
    {
        if self.has_line(TileState::X) {
            Some(TileState::X)
        } else if self.has_line(TileState::O) {
            Some(TileState::O)
        } else {
            None
        }
    }

    pub fn is_full(&self) -> (r: bool)
        requires
            self.wf(),
        ensures
            r == self.full(),
    {
        self.get_tile(0, 0) != TileState::Empty && self.get_tile(1, 0) != TileState::Empty
            && self.get_tile(2, 0) != TileState::Empty && self.get_tile(0, 1) != TileState::Empty
            && self.get_tile(1, 1) != TileState::Empty && self.get_tile(2, 1) != TileState::Empty
            && self.get_tile(0, 2) != TileState::Empty && self.get_tile(1, 2) != TileState::Empty
            && self.get_tile(2, 2) != TileState::Empty
    }

    /// The observable terminal state: a won game, a draw, or still in progress.
    pub fn game_result(&self) -> (res: GameResult)
        requires
            self.wf(),
        ensures
            res == self.spec_result(),
    {
        match self.check_win() {
            Some(p) => GameResult::Won(p),
            None => if self.is_full() {
                GameResult::Draw
            } else {
                GameResult::InProgress
            },
        }
    }
}

/// The observable outcome of a game session.
#[derive(Copy, Clone, Debug, PartialEq, Eq, Structural)]
pub enum GameResult {
    InProgress,
    Won(TileState),
    Draw,
}

/// Whether (row, col) lies on winning line `l`: lines 0..3 are the rows,
/// 3..6 the columns, 6 the top-left diagonal, 7 the top-right diagonal.
pub open spec fn on_line(l: int, r: int, c: int) -> bool {
    if 0 <= l < 3 {
        r == l
    } else if 3 <= l < 6 {
        c == l - 3
    } else if l == 6 {
        r == c
    } else {
        r + c == 2
    }
}

/// Win detection, line by line: a board whose winning line `l` is filled by
/// one player `p` while every other cell is empty reports a win for `p`.
pub proof fn lemma_line_fill_wins(b: Board, p: TileState, l: int)
    requires
        b.wf(),
        p is X || p is O,
        0 <= l < 8,
        forall|r: int, c: int|
            0 <= r < 3 && 0 <= c < 3
                ==> b.cell(r, c) == (if on_line(l, r, c) {
                    p
                } else {
                    TileState::Empty
                }),
    ensures
        b.spec_winner() == Some(p),
        b.spec_result() == GameResult::Won(p),
{
    assert(b.cell(0, 0) == (if on_line(l, 0, 0) { p } else { TileState::Empty }));
    assert(b.cell(0, 1) == (if on_line(l, 0, 1) { p } else { TileState::Empty }));
    assert(b.cell(0, 2) == (if on_line(l, 0, 2) { p } else { TileState::Empty }));
    assert(b.cell(1, 0) == (if on_line(l, 1, 0) { p } else { TileState::Empty }));
    assert(b.cell(1, 1) == (if on_line(l, 1, 1) { p } else { TileState::Empty }));
    assert(b.cell(1, 2) == (if on_line(l, 1, 2) { p } else { TileState::Empty }));
    assert(b.cell(2, 0) == (if on_line(l, 2, 0) { p } else { TileState::Empty }));
    assert(b.cell(2, 1) == (if on_line(l, 2, 1) { p } else { TileState::Empty }));
    assert(b.cell(2, 2) == (if on_line(l, 2, 2) { p } else { TileState::Empty }));
    assert(b.line_won_by(p));
}

/// An all-empty board reports no winner and a game still in progress.
pub proof fn lemma_empty_board_no_win(b: Board)
    requires
        b.wf(),
        forall|r: int, c: int| 0 <= r < 3 && 0 <= c < 3 ==> b.cell(r, c) is Empty,
    ensures
        b.spec_winner() is None,
        b.spec_result() == GameResult::InProgress,
{
    assert(b.cell(0, 0) is Empty);
    assert(b.cell(1, 1) is Empty);
    assert(b.cell(2, 2) is Empty);
}

/// A board none of whose eight lines is uniformly held reports no winner:
/// mixed lines never win.
pub proof fn lemma_mixed_lines_no_win(b: Board)
    requires
        b.wf(),
        forall|r: int| 0 <= r < 3 ==> !b.row_won(r),
        forall|c: int| 0 <= c < 3 ==> !b.col_won(c),
        !b.left_diag_won(),
        !b.right_diag_won(),
    ensures
        b.spec_winner() is None,
{
    assert(!b.row_won(0) && !b.row_won(1) && !b.row_won(2));
    assert(!b.col_won(0) && !b.col_won(1) && !b.col_won(2));
}

/// A fully filled board with no winning line reports a draw, not a win.
pub proof fn lemma_full_no_win_is_draw(b: Board)
    requires
        b.wf(),
        b.full(),
        !b.line_won_by(TileState::X),
        !b.line_won_by(TileState::O),
    ensures
        b.spec_result() == GameResult::Draw,
        !(b.spec_result() is Won),
{
}

/// Width of one board tile in milli-NDC.
pub const TILE_WIDTH: i64 = 500;
/// Height of one board tile in milli-NDC.
pub const TILE_HEIGHT: i64 = 500;
/// Horizontal margin between the window edge and the board in milli-NDC.
pub const X_OFFSET: i64 = 250;
/// Vertical margin between the window edge and the board in milli-NDC.
pub const Y_OFFSET: i64 = 250;

/// A renderable rectangle bound to a sprite: position of its top-left corner
/// and extent in milli-NDC, plus an index into the session's sprite table.
#[derive(Copy, Clone, Debug, PartialEq, Eq, Structural)]
pub struct Hitbox {
    pub x: i64,
    pub y: i64,
    pub width: i64,
    pub height: i64,
    pub sprite: usize,
}

/// A per-frame render instruction handed to the external renderer: position
/// and extent in milli-NDC and the opaque handle of the sprite to draw.
#[derive(Copy, Clone, Debug, PartialEq, Eq, Structural)]
pub struct RenderGroup {
    pub x: i64,
    pub y: i64,
    pub width: i64,
    pub height: i64,
    pub sprite_handle: u32,
}

/// The pointer lies inside the board's visual bounds, a fixed margin away
/// from every window edge.
pub open spec fn spec_in_bounds(nx: int, ny: int) -> bool {
    &&& -750 <= nx < 750
    &&& -750 <= ny < 750
}

/// Board column under a horizontal position (valid when in bounds).
pub open spec fn spec_col(nx: int) -> int {
    (nx + 750) / 500
}

/// Board row under a vertical position (valid when in bounds).
pub open spec fn spec_row(ny: int) -> int {
    (ny + 750) / 500
}

/// Map a pointer position in milli-NDC to the board cell (col, row) under
/// it, or nothing when the pointer lies outside the board's bounds.
pub open spec fn spec_cell_of(nx: int, ny: int) -> Option<(int, int)> {
    if spec_in_bounds(nx, ny) {
        Some((spec_col(nx), spec_row(ny)))
    } else {
        None
    }
}

/// Exact bounds validation before any indexing: the returned cell indices
/// are always below three.
pub fn cell_of(nx: i64, ny: i64) -> (cell: Option<(usize, usize)>)
    ensures
        (match cell {
            Some(cr) => {
                &&& spec_cell_of(nx as int, ny as int) == Some((cr.0 as int, cr.1 as int))
                &&& cr.0 < 3
                &&& cr.1 < 3
            },
            None => spec_cell_of(nx as int, ny as int) is None,
        }),
{
    if nx < -750 || nx >= 750 || ny < -750 || ny >= 750 {
        return None;
    }
    let ux = (nx + 750) as u64;
    let uy = (ny + 750) as u64;
    let col = (ux / 500) as usize;
    let row = (uy / 500) as usize;
    Some((col, row))
}

/// One game session: the board, whose turn it is, how many completed turns
/// have passed, and the append-only list of renderable placements.
pub struct GameState {
    sprites: Vec<u32>,
    ents: Vec<Hitbox>,
    board: Board,
    current_player: TileState,
    turns: u32,
    result: GameResult,
}

impl GameState {
    /// Opaque handles of the uploaded sprites, indexed by sprite number.
    pub closed spec fn spec_sprites(self) -> Seq<u32> {
        self.sprites@
    }

    /// The append-only placement list, oldest first.
    pub closed spec fn spec_ents(self) -> Seq<Hitbox> {
        self.ents@
    }

    pub closed spec fn spec_board(self) -> Board {
        self.board
    }

    /// The player whose move comes next.
    pub closed spec fn spec_player(self) -> TileState {
        self.current_player
    }

    /// Completed (non-terminal) turns so far.
    pub closed spec fn spec_turns(self) -> u32 {
        self.turns
    }

    /// The session's observable result.
    pub closed spec fn spec_status(self) -> GameResult {
        self.result
    }

    /// Session invariant: nine cells; an actual player to move; a sprite
    /// table with at least the grid, X and O glyphs; every placement's
    /// sprite index in range; the cached result agreeing with the board;
    /// and no more completed turns than occupied cells.
    pub open spec fn wf(self) -> bool {
        &&& self.spec_board().wf()
        &&& !(self.spec_player() is Empty)
        &&& self.spec_sprites().len() >= 3
        &&& forall|i: int|
            0 <= i < self.spec_ents().len()
                ==> (#[trigger] self.spec_ents()[i]).sprite < self.spec_sprites().len()
        &&& self.spec_status() == self.spec_board().spec_result()
        &&& self.spec_turns() <= self.spec_board().filled_count()
    }

    /// A fresh session: empty board, O to move first, no turns taken.
    pub fn new(sprites: Vec<u32>) -> (gs: GameState)
        requires
            sprites@.len() >= 3,
        ensures
            gs.wf(),
            gs.spec_sprites() == sprites@,
            gs.spec_ents().len() == 0,
            forall|r: int, c: int| 0 <= r < 3 && 0 <= c < 3 ==> gs.spec_board().cell(r, c) is Empty,
            gs.spec_player() is O,
            gs.spec_turns() == 0,
            gs.spec_status() == GameResult::InProgress,
    {
        let board = Board::new();
        proof {
            lemma_empty_board_no_win(board);
        }
        GameState {
            sprites,
            ents: Vec::new(),
            board,
            current_player: TileState::O,
            turns: 0,
            result: GameResult::InProgress,
        }
    }

    /// Append a renderable placement. The placement is rejected, and nothing
    /// changes, exactly when its sprite index lies outside the table.
    pub fn register_ent(&mut self, x: i64, y: i64, width: i64, height: i64, sprite: usize) -> (ok:
        bool)
        requires
            old(self).wf(),
        ensures
            final(self).wf(),
            ok <==> sprite < old(self).spec_sprites().len(),
            ok ==> final(self).spec_ents() == old(self).spec_ents().push(
                (Hitbox { x, y, width, height, sprite }),
            ),
            !ok ==> final(self).spec_ents() == old(self).spec_ents(),
            final(self).spec_sprites() == old(self).spec_sprites(),
            final(self).spec_board() == old(self).spec_board(),
            final(self).spec_player() == old(self).spec_player(),
            final(self).spec_turns() == old(self).spec_turns(),
            final(self).spec_status() == old(self).spec_status(),
    {
        if sprite >= self.sprites.len() {
            return false;
        }
        self.ents.push(Hitbox { x, y, width, height, sprite });
        proof {
            assert forall|i: int|
                0 <= i < self.spec_ents().len() implies (#[trigger] self.spec_ents()[i]).sprite
                < self.spec_sprites().len() by {
                if i < old(self).spec_ents().len() {
                    assert(old(self).spec_ents()[i].sprite < old(self).spec_sprites().len());
                }
            }
        }
        true
    }

    /// The read-only per-frame snapshot for the renderer: one render group
    /// per placement, in placement order, with the sprite index resolved to
    /// its opaque handle.
    pub fn get_meshes(&self) -> (v: Vec<RenderGroup>)
        requires
            self.wf(),
        ensures
            v@.len() == self.spec_ents().len(),
            forall|i: int|
                0 <= i < v@.len() ==> #[trigger] v@[i] == (RenderGroup {
                    x: self.spec_ents()[i].x,
                    y: self.spec_ents()[i].y,
                    width: self.spec_ents()[i].width,
                    height: self.spec_ents()[i].height,
                    sprite_handle: self.spec_sprites()[self.spec_ents()[i].sprite as int],
                }),
    {
        let mut v: Vec<RenderGroup> = Vec::new();
        let mut i: usize = 0;
        while i < self.ents.len()
            invariant
                self.wf(),
                i <= self.ents.len(),
                v@.len() == i,
                forall|j: int|
                    0 <= j < i ==> #[trigger] v@[j] == (RenderGroup {
                        x: self.spec_ents()[j].x,
                        y: self.spec_ents()[j].y,
                        width: self.spec_ents()[j].width,
                        height: self.spec_ents()[j].height,
                        sprite_handle: self.spec_sprites()[self.spec_ents()[j].sprite as int],
                    }),
            decreases self.ents.len() - i,
        {
            let e = self.ents[i];
            proof {
                assert(self.spec_ents()[i as int].sprite < self.spec_sprites().len());
            }
            let handle = self.sprites[e.sprite];
            v.push(
                RenderGroup {
                    x: e.x,
                    y: e.y,
                    width: e.width,
                    height: e.height,
                    sprite_handle: handle,
                },
            );
            i = i + 1;
        }
        v
    }

    /// The frame's pointer target, when the left button is held and the
    /// pointer lies over the board.
    pub open spec fn spec_target(self, inp: InputHandler) -> Option<(int, int)> {
        if inp.lmb {
            spec_cell_of(inp.spec_norm_x(), inp.spec_norm_y())
        } else {
            None
        }
    }

    /// This frame's input amounts to a valid move: a held left button over
    /// an empty cell of a game still in progress.
    pub open spec fn move_applies(self, inp: InputHandler) -> bool {
        match self.spec_target(inp) {
            Some(cr) => self.spec_status() is InProgress && self.spec_board().cell(
                cr.1,
                cr.0,
            ) is Empty,
            None => false,
        }
    }

    /// One frame of the controller: read the pointer; reject the frame (as a
    /// no-op) unless it amounts to a valid move; otherwise append the mark's
    /// placement, write the cell, re-evaluate the game result, and on a
    /// non-won outcome swap the player and count the turn. Returns the
    /// session result after the frame.
    #[verifier::rlimit(60)]
    pub fn update(&mut self, inp: &InputHandler) -> (res: GameResult)
        requires
            old(self).wf(),
            inp.wf(),
        ensures
            final(self).wf(),
            res == final(self).spec_status(),
            final(self).spec_sprites() == old(self).spec_sprites(),
            !old(self).move_applies(*inp) ==> *final(self) == *old(self),
            old(self).move_applies(*inp) ==> ({
                let col = spec_col(inp.spec_norm_x());
                let row = spec_row(inp.spec_norm_y());
                let p = old(self).spec_player();
                &&& final(self).spec_board().cell(row, col) == p
                &&& forall|r: int, c: int|
                    0 <= r < 3 && 0 <= c < 3 && !(r == row && c == col)
                        ==> final(self).spec_board().cell(r, c) == old(self).spec_board().cell(r, c)
                &&& final(self).spec_ents() == old(self).spec_ents().push(
                    (Hitbox {
                        x: (col * 500 - 750) as i64,
                        y: (row * 500 - 250) as i64,
                        width: TILE_WIDTH,
                        height: TILE_HEIGHT,
                        sprite: if p is X {
                            X_SPRITE_INDEX
                        } else {
                            O_SPRITE_INDEX
                        },
                    }),
                )
                &&& res == final(self).spec_board().spec_result()
                &&& (res is Won ==> final(self).spec_player() == p && final(self).spec_turns()
                    == old(self).spec_turns())
                &&& (!(res is Won) ==> final(self).spec_player() == (if p is X {
                    TileState::O
                } else {
                    TileState::X
                }) && final(self).spec_turns() == old(self).spec_turns() + 1)
            }),
    {
        let mpos = inp.get_screen_mouse_position();
        if !inp.lmb {
            return self.result;
        }
        let cell = cell_of(mpos.0, mpos.1);
        match cell {
            None => self.result,
            Some((col, row)) => {
                if !matches!(self.result, GameResult::InProgress) {
                    return self.result;
                }
                if !matches!(self.board.get_tile(col, row), TileState::Empty) {
                    return self.result;
                }
                let p = self.current_player;
                let sprite_idx = p.get_sprite();
                let x = (col as i64) * TILE_WIDTH + X_OFFSET - 1000;
                let y = (row as i64) * TILE_HEIGHT + Y_OFFSET - 500;
                let _ok = self.register_ent(x, y, TILE_WIDTH, TILE_HEIGHT, sprite_idx);
                let ghost ob = self.board;
                self.board.update_tile(col, row, p);
                proof {
                    let nb = self.board;
                    assert(nb.filled_count() == ob.filled_count() + 1) by {
                        assert(nb.cell(row as int, col as int) == p);
                        assert forall|r: int, c: int|
                            0 <= r < 3 && 0 <= c < 3 && !(r == row as int && c == col as int)
                                implies nb.cell(r, c) == ob.cell(r, c) by {}
                    }
                }
                let res = self.board.game_result();
                self.result = res;
                if !matches!(res, GameResult::Won(_)) {
                    self.current_player = if matches!(p, TileState::X) {
                        TileState::O
                    } else {
                        TileState::X
                    };
                    self.turns = self.turns + 1;
                }
                res
            },
        }
    }
}

} // verus!
