use vstd::prelude::*;
use crate::grid::{in_bounds, cell_of_index, Grid, BOARD_SIZE};
use crate::piece_registry::{Movement, MovementKind, PieceKind, PieceRegistry};
use crate::selection::{PossibleChoice, Selection};

verus! {

/// One of the two sides. `Black` holds rows 0 and 1 at the start and reads
/// movement offsets as written; `White` holds rows 6 and 7, moves first, and
/// reads them with `dy` negated.
#[derive(Debug, Clone, Copy, PartialEq, Eq, Structural)]
pub enum Player {
    Black,
    White,
}

impl Player {
    /// The opposing side.
    pub open spec fn other(self) -> Player {
        match self {
            Player::Black => Player::White,
            Player::White => Player::Black,
        }
    }

    /// The factor applied to a rule's `dy` for this side.
    pub open spec fn direction(self) -> int {
        match self {
            Player::Black => 1,
            Player::White => -1,
        }
    }

    /// Switches to the opposing side.
    pub fn flip(&mut self)
        ensures
            *final(self) == old(self).other(),
    {
        *self = match self {
            Player::Black => Player::White,
            Player::White => Player::Black,
        }
    }
}

/// A piece on the board.
#[derive(Debug, Clone, Copy, PartialEq, Eq, Structural)]
pub struct Piece {
    pub player: Player,
    pub piece_kind: PieceKind,
    /// True until the piece is moved for the first time.
    pub not_moved: bool,
}

/// The kind standing in column `x` of a side's back row.
pub open spec fn heavy_kind(x: int) -> u8 {
    if x == 0 || x == 7 {
        1
    } else if x == 1 || x == 6 {
        2
    } else if x == 2 || x == 5 {
        3
    } else if x == 3 {
        4
    } else {
        5
    }
}

/// A piece of `player` and `kind` that has not moved yet.
pub open spec fn fresh_piece(player: Player, kind: u8) -> Option<Piece> {
    Some(Piece { player, piece_kind: PieceKind(kind), not_moved: true })
}

/// The content of cell `(x, y)` at the start of a game.
pub open spec fn initial_cell(x: int, y: int) -> Option<Piece> {
    if y == 0 {
        fresh_piece(Player::Black, heavy_kind(x))
    } else if y == 1 {
        fresh_piece(Player::Black, 0)
    } else if y == 6 {
        fresh_piece(Player::White, 0)
    } else if y == 7 {
        fresh_piece(Player::White, heavy_kind(x))
    } else {
        None
    }
}

impl Piece {
    /// A piece that has not moved yet.
    pub fn new(player: Player, piece_kind: PieceKind) -> (r: Option<Self>)
        ensures
            r == fresh_piece(player, piece_kind.0),
    {
        Some(Self { player, piece_kind, not_moved: true })
    }

    /// A side's front row: eight pieces of kind 0.
    pub fn pawn_row(player: Player) -> (r: [Option<Self>; 8])
        ensures
            forall|x: int| 0 <= x < 8 ==> #[trigger] r@[x] == fresh_piece(player, 0),
    {
        [Self::new(player, PieceKind(0)); 8]
    }

    /// A side's back row: kinds 1, 2, 3, 4, 5, 3, 2, 1.
    pub fn heavy_row(player: Player) -> (r: [Option<Self>; 8])
        ensures
            forall|x: int| 0 <= x < 8 ==> #[trigger] r@[x] == fresh_piece(player, heavy_kind(x)),
    {
        [
            Self::new(player, PieceKind(1)),
            Self::new(player, PieceKind(2)),
            Self::new(player, PieceKind(3)),
            Self::new(player, PieceKind(4)),
            Self::new(player, PieceKind(5)),
            Self::new(player, PieceKind(3)),
            Self::new(player, PieceKind(2)),
            Self::new(player, PieceKind(1)),
        ]
    }
}

/// The board: a grid of optional pieces and the side to move.
#[derive(Clone, Copy)]
pub struct ChessBoard {
    grid: Grid<Option<Piece>>,
    turn: Player,
}

/// Cell `i` steps along the ray from `(x, y)` with step `(dx, dy)`.
pub open spec fn ray(x: int, y: int, dx: int, dy: int, i: int) -> (int, int) {
    (x + dx * i, y + dy * i)
}

/// `(tx, ty)` is one of steps `1 .. n` of the ray.
spec fn on_ray_before(x: int, y: int, dx: int, dy: int, n: int, tx: int, ty: int) -> bool {
    exists|j: int| 1 <= j < n && #[trigger] ray(x, y, dx, dy, j) == (tx, ty)
}

/// A ray with a nonzero step leaves the board within `BOARD_SIZE` steps.
proof fn lemma_ray_bound(x: int, y: int, dx: int, dy: int, i: int)
    requires
        in_bounds(x, y),
        in_bounds(ray(x, y, dx, dy, i).0, ray(x, y, dx, dy, i).1),
        1 <= i,
        dx != 0 || dy != 0,
    ensures
        i < BOARD_SIZE,
{
    if dx > 0 {
        assert(dx * i >= i) by (nonlinear_arith)
            requires
                dx >= 1,
                i >= 1,
        ;
    } else if dx < 0 {
        assert(dx * i <= -i) by (nonlinear_arith)
            requires
                dx <= -1,
                i >= 1,
        ;
    } else if dy > 0 {
        assert(dy * i >= i) by (nonlinear_arith)
            requires
                dy >= 1,
                i >= 1,
        ;
    } else {
        assert(dy * i <= -i) by (nonlinear_arith)
            requires
                dy <= -1,
                i >= 1,
        ;
    }
}

/// Reaching a cell with the first `k + 1` rules is reaching it with the first
/// `k` rules or with rule `k`.
proof fn lemma_reachable_extend(
    b: ChessBoard,
    rules: Seq<Movement>,
    k: int,
    piece: Piece,
    x: int,
    y: int,
    tx: int,
    ty: int,
)
    requires
        0 <= k < rules.len(),
    ensures
        b.reachable(rules.subrange(0, k + 1), piece, x, y, tx, ty) == (b.reachable(
            rules.subrange(0, k),
            piece,
            x,
            y,
            tx,
            ty,
        ) || b.rule_marks(piece, x, y, rules[k], tx, ty)),
{
    let longer = rules.subrange(0, k + 1);
    let shorter = rules.subrange(0, k);
    if b.reachable(longer, piece, x, y, tx, ty) {
        let w = choose|w: int| 0 <= w < longer.len() && #[trigger] b.rule_marks(piece, x, y, longer[w], tx, ty);
        if w < k {
            assert(shorter[w] == longer[w]);
        }
    }
    if b.reachable(shorter, piece, x, y, tx, ty) {
        let w = choose|w: int| 0 <= w < shorter.len() && #[trigger] b.rule_marks(piece, x, y, shorter[w], tx, ty);
        assert(longer[w] == shorter[w]);
    }
    if b.rule_marks(piece, x, y, rules[k], tx, ty) {
        assert(longer[k] == rules[k]);
    }
}

/// What a moved piece becomes: the same piece, marked as moved.
pub open spec fn moved_piece(o: Option<Piece>) -> Option<Piece> {
    match o {
        Some(p) => Some(Piece { not_moved: false, ..p }),
        None => None,
    }
}

impl ChessBoard {
    /// The content of cell `(x, y)`.
    pub closed spec fn cell(&self, x: int, y: int) -> Option<Piece> {
        self.grid.at(x, y)
    }

    /// The side to move.
    pub closed spec fn whose_turn(&self) -> Player {
        self.turn
    }

    /// `(x, y)` is on the board and empty.
    pub open spec fn spec_is_empty(&self, x: int, y: int) -> bool {
        in_bounds(x, y) && self.cell(x, y) is None
    }

    /// `(x, y)` is on the board and holds a piece of the side opposing `player`.
    pub open spec fn spec_is_opponent(&self, player: Player, x: int, y: int) -> bool {
        in_bounds(x, y) && self.cell(x, y) is Some && self.cell(x, y).unwrap().player != player
    }

    /// `(x, y)` is on the board and holds no piece of `player`.
    pub open spec fn spec_is_not_friend(&self, player: Player, x: int, y: int) -> bool {
        in_bounds(x, y) && (self.cell(x, y) is None || self.cell(x, y).unwrap().player != player)
    }

    /// Step `j` of the ray is an empty cell of the board.
    pub open spec fn ray_empty(&self, x: int, y: int, dx: int, dy: int, j: int) -> bool {
        self.spec_is_empty(ray(x, y, dx, dy, j).0, ray(x, y, dx, dy, j).1)
    }

    /// A sliding piece of `player` reaches step `i` of the ray: every earlier
    /// step is empty and step `i` holds no piece of its own side.
    pub open spec fn trail_step(&self, player: Player, x: int, y: int, dx: int, dy: int, i: int) -> bool {
        &&& 1 <= i
        &&& self.spec_is_not_friend(player, ray(x, y, dx, dy, i).0, ray(x, y, dx, dy, i).1)
        &&& forall|j: int| 1 <= j < i ==> #[trigger] self.ray_empty(x, y, dx, dy, j)
    }

    /// Cell `(tx, ty)` is some step of the ray that a sliding piece reaches.
    pub open spec fn trail_marks(
        &self,
        player: Player,
        x: int,
        y: int,
        dx: int,
        dy: int,
        tx: int,
        ty: int,
    ) -> bool {
        exists|i: int| #[trigger]
            self.trail_step(player, x, y, dx, dy, i) && ray(x, y, dx, dy, i) == (tx, ty)
    }

    /// Rule `m` lets `piece`, standing at `(x, y)`, reach `(tx, ty)`.
    pub open spec fn rule_marks(&self, piece: Piece, x: int, y: int, m: Movement, tx: int, ty: int) -> bool {
        let dx = m.1 as int;
        let dy = m.2 as int * piece.player.direction();
        let single = tx == x + dx && ty == y + dy;
        match m.0 {
            MovementKind::Blocking => single && self.spec_is_empty(tx, ty),
            MovementKind::FirstMove => single && piece.not_moved && self.spec_is_empty(tx, ty),
            MovementKind::Eating => single && self.spec_is_opponent(piece.player, tx, ty),
            MovementKind::NotFriend => single && self.spec_is_not_friend(piece.player, tx, ty),
            MovementKind::Trailing => self.trail_marks(piece.player, x, y, dx, dy, tx, ty),
        }
    }

    /// Some rule of `rules` lets `piece`, standing at `(x, y)`, reach `(tx, ty)`.
    pub open spec fn reachable(
        &self,
        rules: Seq<Movement>,
        piece: Piece,
        x: int,
        y: int,
        tx: int,
        ty: int,
    ) -> bool {
        exists|k: int| 0 <= k < rules.len() && #[trigger] self.rule_marks(piece, x, y, rules[k], tx, ty)
    }

    /// `r` is the selection of the piece at `(x, y)`: `None` when the cell is
    /// empty or its piece is not of the side to move; otherwise a selection of
    /// `(x, y)` marking exactly the cells that the rules of its kind reach.
    pub open spec fn selection_of(&self, registry: PieceRegistry, x: int, y: int, r: Option<Selection>) -> bool {
        &&& r is None <==> (self.cell(x, y) is None || self.cell(x, y).unwrap().player != self.whose_turn())
        &&& r is Some ==> r.unwrap().x == x && r.unwrap().y == y
        &&& r is Some ==> forall|tx: int, ty: int|
            in_bounds(tx, ty) ==> (#[trigger] r.unwrap().choice.has(tx, ty) <==> self.reachable(
                registry.rules_of(self.cell(x, y).unwrap().piece_kind),
                self.cell(x, y).unwrap(),
                x,
                y,
                tx,
                ty,
            ))
    }

    /// `after` is this board once the piece at `(fx, fy)` has moved to `(tx, ty)`:
    /// the origin is empty, the destination holds the moved piece (whatever it held
    /// is gone) and the other side is to move.
    pub open spec fn moved_to(&self, after: ChessBoard, fx: int, fy: int, tx: int, ty: int) -> bool {
        &&& after.whose_turn() == self.whose_turn().other()
        &&& forall|i: int, j: int|
            in_bounds(i, j) ==> #[trigger] after.cell(i, j) == if i == tx && j == ty {
                moved_piece(self.cell(fx, fy))
            } else if i == fx && j == fy {
                None
            } else {
                self.cell(i, j)
            }
    }

    /// The starting layout.
    pub fn new_grid() -> (r: Grid<Option<Piece>>)
        ensures
            forall|x: int, y: int| in_bounds(x, y) ==> #[trigger] r.at(x, y) == initial_cell(x, y),
    {
        let heavy_black = Piece::heavy_row(Player::Black);
        let pawn_black = Piece::pawn_row(Player::Black);
        let pawn_white = Piece::pawn_row(Player::White);
        let heavy_white = Piece::heavy_row(Player::White);
        let rows = [
            heavy_black,
            pawn_black,
            [None; 8],
            [None; 8],
            [None; 8],
            [None; 8],
            pawn_white,
            heavy_white,
        ];
        let r = Grid::from(rows);
        assert forall|x: int, y: int| in_bounds(x, y) implies #[trigger] r.at(x, y) == initial_cell(x, y) by {
            assert(r.at(x, y) == rows@[y]@[x]);
        }
        r
    }

    /// A board in the starting layout, `White` to move.
    pub fn new() -> (r: Self)
        ensures
            r.whose_turn() == Player::White,
            forall|x: int, y: int| in_bounds(x, y) ==> #[trigger] r.cell(x, y) == initial_cell(x, y),
    {
        Self { grid: Self::new_grid(), turn: Player::White }
    }

    /// A board with the given cells and side to move.
    pub fn from_parts(grid: Grid<Option<Piece>>, turn: Player) -> (r: Self)
        ensures
            r.whose_turn() == turn,
            forall|x: int, y: int| in_bounds(x, y) ==> #[trigger] r.cell(x, y) == grid.at(x, y),
    {
        Self { grid, turn }
    }

    /// The content of cell `(x, y)`.
    pub fn get_piece(&self, x: usize, y: usize) -> (r: Option<Piece>)
        requires
            in_bounds(x as int, y as int),
        ensures
            r == self.cell(x as int, y as int),
    {
        *self.grid.get(x, y)
    }

    /// The side to move.
    pub fn turn(&self) -> (r: Player)
        ensures
            r == self.whose_turn(),
    {
        self.turn
    }

    /// Whether `(x, y)` is on the board.
    pub fn is_in_grid(x: i64, y: i64) -> (r: bool)
        ensures
            r == in_bounds(x as int, y as int),
    {
        0 <= x && x < BOARD_SIZE as i64 && 0 <= y && y < BOARD_SIZE as i64
    }

    /// Whether `(x, y)` is on the board and empty.
    pub fn is_empty(&self, x: i64, y: i64) -> (r: bool)
        ensures
            r == self.spec_is_empty(x as int, y as int),
    {
        Self::is_in_grid(x, y) && self.get_piece(x as usize, y as usize).is_none()
    }

    /// Whether `(x, y)` is on the board and holds a piece opposing `player`.
    pub fn is_opponent(&self, player: Player, x: i64, y: i64) -> (r: bool)
        ensures
            r == self.spec_is_opponent(player, x as int, y as int),
    {
        if Self::is_in_grid(x, y) {
            match self.get_piece(x as usize, y as usize) {
                Some(piece) => piece.player != player,
                None => false,
            }
        } else {
            false
        }
    }

    /// Whether `(x, y)` is on the board and holds no piece of `player`.
    pub fn is_not_friend(&self, player: Player, x: i64, y: i64) -> (r: bool)
        ensures
            r == self.spec_is_not_friend(player, x as int, y as int),
    {
        if Self::is_in_grid(x, y) {
            match self.get_piece(x as usize, y as usize) {
                Some(piece) => piece.player != player,
                None => true,
            }
        } else {
            false
        }
    }

    /// Moves whatever stands at `(from_x, from_y)` to `(x, y)`, marks it as moved,
    /// and hands the turn to the other side. Returns what `(x, y)` held before, if
    /// it is not the origin itself. Legality is the caller's affair.
    pub fn move_piece(&mut self, from_x: usize, from_y: usize, x: usize, y: usize) -> (r: Option<Piece>)
        requires
            in_bounds(from_x as int, from_y as int),
            in_bounds(x as int, y as int),
        ensures
            old(self).moved_to(*final(self), from_x as int, from_y as int, x as int, y as int),
            r == if from_x == x && from_y == y {
                None
            } else {
                old(self).cell(x as int, y as int)
            },
    {
        let mut temp: Option<Piece> = None;
        std::mem::swap(self.grid.get_mut(from_x, from_y), &mut temp);
        if let Some(piece) = &mut temp {
            piece.not_moved = false;
        }
        std::mem::swap(self.grid.get_mut(x, y), &mut temp);
        self.turn.flip();
        temp
    }

    /// The selection of the piece at `(x, y)`: `None` when the cell is empty or
    /// its piece is not of the side to move; otherwise every cell that one of the
    /// rules of its kind reaches (none for a kind missing from `registry`).
    pub fn possible_choice(&self, registry: &PieceRegistry, x: usize, y: usize) -> (r: Option<Selection>)
        requires
            in_bounds(x as int, y as int),
        ensures
            self.selection_of(*registry, x as int, y as int, r),
    {
        let piece = match self.get_piece(x, y) {
            Some(piece) => piece,
            None => return None,
        };
        if piece.player != self.turn {
            return None;
        }
        let mut selection = Selection::new(x, y);
        let rules = match registry.get_movement(piece.piece_kind) {
            Some(rules) => rules,
            None => return Some(selection),
        };
        let ghost gx = x as int;
        let ghost gy = y as int;
        let xi = x as i64;
        let yi = y as i64;
        let mut k: usize = 0;
        while k < rules.len()
            invariant
                k <= rules@.len(),
                gx == xi && gy == yi && gx == x && gy == y,
                in_bounds(gx, gy),
                self.cell(gx, gy) == Some(piece),
                rules@ == registry.rules_of(piece.piece_kind),
                selection.x == x,
                selection.y == y,
                forall|tx: int, ty: int|
                    in_bounds(tx, ty) ==> (#[trigger] selection.choice.has(tx, ty) <==> self.reachable(
                        rules@.subrange(0, k as int),
                        piece,
                        gx,
                        gy,
                        tx,
                        ty,
                    )),
            decreases rules@.len() - k,
        {
            let m = rules[k];
            let dx = m.1 as i64;
            let dy: i64 = match piece.player {
                Player::Black => m.2 as i64,
                Player::White => -(m.2 as i64),
            };
            assert(dy as int == m.2 as int * piece.player.direction());
            let ghost before = selection.choice;
            match m.0 {
                MovementKind::Blocking => {
                    if self.is_empty(xi + dx, yi + dy) {
                        selection.choice.add((xi + dx) as i32, (yi + dy) as i32);
                    }
                },
                MovementKind::FirstMove => {
                    if self.is_empty(xi + dx, yi + dy) && piece.not_moved {
                        selection.choice.add((xi + dx) as i32, (yi + dy) as i32);
                    }
                },
                MovementKind::Eating => {
                    if self.is_opponent(piece.player, xi + dx, yi + dy) {
                        selection.choice.add((xi + dx) as i32, (yi + dy) as i32);
                    }
                },
                MovementKind::NotFriend => {
                    if self.is_not_friend(piece.player, xi + dx, yi + dy) {
                        selection.choice.add((xi + dx) as i32, (yi + dy) as i32);
                    }
                },
                MovementKind::Trailing => {
                    self.add_trail(&mut selection.choice, piece.player, xi, yi, dx, dy);
                },
            }
            proof {
                assert forall|tx: int, ty: int| in_bounds(tx, ty) implies (#[trigger] selection.choice.has(
                    tx,
                    ty,
                ) <==> self.reachable(rules@.subrange(0, k + 1), piece, gx, gy, tx, ty)) by {
                    assert(before.has(tx, ty) <==> self.reachable(rules@.subrange(0, k as int), piece, gx, gy, tx, ty));
                    lemma_reachable_extend(*self, rules@, k as int, piece, gx, gy, tx, ty);
                }
            }
            k = k + 1;
        }
        assert(rules@.subrange(0, rules@.len() as int) =~= rules@);
        Some(selection)
    }

    /// Marks in `choice` every cell that a sliding piece of `player` at `(x, y)`
    /// reaches along step `(dx, dy)`.
    fn add_trail(
        &self,
        choice: &mut PossibleChoice,
        player: Player,
        x: i64,
        y: i64,
        dx: i64,
        dy: i64,
    )
        requires
            in_bounds(x as int, y as int),
            self.cell(x as int, y as int) is Some,
            self.cell(x as int, y as int).unwrap().player == player,
            -0x8000_0000 <= dx <= 0x8000_0000,
            -0x8000_0000 <= dy <= 0x8000_0000,
        ensures
            forall|tx: int, ty: int|
                in_bounds(tx, ty) ==> #[trigger] final(choice).has(tx, ty) == (old(choice).has(tx, ty)
                    || self.trail_marks(player, x as int, y as int, dx as int, dy as int, tx, ty)),
    {
        let ghost (gx, gy, gdx, gdy) = (x as int, y as int, dx as int, dy as int);
        let mut i: i64 = 1;
        loop
            invariant_except_break
                forall|tx: int, ty: int|
                    in_bounds(tx, ty) ==> #[trigger] choice.has(tx, ty) == (old(choice).has(tx, ty)
                        || on_ray_before(gx, gy, gdx, gdy, i as int, tx, ty)),
            invariant
                1 <= i <= BOARD_SIZE,
                gx == x && gy == y && gdx == dx && gdy == dy,
                in_bounds(gx, gy),
                self.cell(gx, gy) is Some,
                self.cell(gx, gy).unwrap().player == player,
                -0x8000_0000 <= dx <= 0x8000_0000,
                -0x8000_0000 <= dy <= 0x8000_0000,
                forall|j: int| 1 <= j < i ==> #[trigger] self.ray_empty(gx, gy, gdx, gdy, j),
            ensures
                forall|tx: int, ty: int|
                    in_bounds(tx, ty) ==> #[trigger] choice.has(tx, ty) == (old(choice).has(tx, ty)
                        || self.trail_marks(player, gx, gy, gdx, gdy, tx, ty)),
            decreases BOARD_SIZE - i,
        {
            assert(-0x4_0000_0000 <= dx * i <= 0x4_0000_0000) by (nonlinear_arith)
                requires
                    -0x8000_0000 <= dx <= 0x8000_0000,
                    1 <= i <= 8,
            ;
            assert(-0x4_0000_0000 <= dy * i <= 0x4_0000_0000) by (nonlinear_arith)
                requires
                    -0x8000_0000 <= dy <= 0x8000_0000,
                    1 <= i <= 8,
            ;
            let cx = x + dx * i;
            let cy = y + dy * i;
            let ghost gi = i as int;
            assert(ray(gx, gy, gdx, gdy, gi) == (cx as int, cy as int));
            if !self.is_not_friend(player, cx, cy) {
                proof {
                    assert forall|tx: int, ty: int| in_bounds(tx, ty) implies #[trigger] choice.has(tx, ty) == (
                    old(choice).has(tx, ty) || self.trail_marks(player, gx, gy, gdx, gdy, tx, ty)) by {
                        if self.trail_marks(player, gx, gy, gdx, gdy, tx, ty) {
                            let i2 = choose|i2: int|
                                #[trigger] self.trail_step(player, gx, gy, gdx, gdy, i2) && ray(
                                    gx,
                                    gy,
                                    gdx,
                                    gdy,
                                    i2,
                                ) == (tx, ty);
                            if i2 > gi {
                                assert(self.ray_empty(gx, gy, gdx, gdy, gi));
                            }
                            assert(on_ray_before(gx, gy, gdx, gdy, gi, tx, ty));
                        }
                        if on_ray_before(gx, gy, gdx, gdy, gi, tx, ty) {
                            let j = choose|j: int| 1 <= j < gi && #[trigger] ray(gx, gy, gdx, gdy, j) == (tx, ty);
                            assert(self.ray_empty(gx, gy, gdx, gdy, j));
                            assert(self.trail_step(player, gx, gy, gdx, gdy, j));
                        }
                    }
                }
                break;
            }
            let ghost before = *choice;
            choice.add(cx as i32, cy as i32);
            if self.is_opponent(player, cx, cy) {
                proof {
                    assert forall|tx: int, ty: int| in_bounds(tx, ty) implies #[trigger] choice.has(tx, ty) == (
                    old(choice).has(tx, ty) || self.trail_marks(player, gx, gy, gdx, gdy, tx, ty)) by {
                        assert(before.has(tx, ty) == (old(choice).has(tx, ty) || on_ray_before(gx, gy, gdx, gdy, gi, tx, ty)));
                        if self.trail_marks(player, gx, gy, gdx, gdy, tx, ty) {
                            let i2 = choose|i2: int|
                                #[trigger] self.trail_step(player, gx, gy, gdx, gdy, i2) && ray(
                                    gx,
                                    gy,
                                    gdx,
                                    gdy,
                                    i2,
                                ) == (tx, ty);
                            if i2 > gi {
                                assert(self.ray_empty(gx, gy, gdx, gdy, gi));
                            }
                            if i2 < gi {
                                assert(on_ray_before(gx, gy, gdx, gdy, gi, tx, ty));
                            }
                        }
                        if on_ray_before(gx, gy, gdx, gdy, gi, tx, ty) {
                            let j = choose|j: int| 1 <= j < gi && #[trigger] ray(gx, gy, gdx, gdy, j) == (tx, ty);
                            assert(self.ray_empty(gx, gy, gdx, gdy, j));
                            assert(self.trail_step(player, gx, gy, gdx, gdy, j));
                        }
                        if tx == cx && ty == cy {
                            assert(self.trail_step(player, gx, gy, gdx, gdy, gi));
                        }
                    }
                }
                break;
            }
            proof {
                assert(self.ray_empty(gx, gy, gdx, gdy, gi));
                lemma_ray_bound(gx, gy, gdx, gdy, gi);
                assert forall|tx: int, ty: int| in_bounds(tx, ty) implies #[trigger] choice.has(tx, ty) == (
                old(choice).has(tx, ty) || on_ray_before(gx, gy, gdx, gdy, gi + 1, tx, ty)) by {
                    assert(before.has(tx, ty) == (old(choice).has(tx, ty) || on_ray_before(gx, gy, gdx, gdy, gi, tx, ty)));
                    if on_ray_before(gx, gy, gdx, gdy, gi, tx, ty) {
                        let j = choose|j: int| 1 <= j < gi && #[trigger] ray(gx, gy, gdx, gdy, j) == (tx, ty);
                        assert(on_ray_before(gx, gy, gdx, gdy, gi + 1, tx, ty));
                    }
                    if tx == cx && ty == cy {
                        assert(on_ray_before(gx, gy, gdx, gdy, gi + 1, tx, ty));
                    }
                    if on_ray_before(gx, gy, gdx, gdy, gi + 1, tx, ty) {
                        let j = choose|j: int| 1 <= j < gi + 1 && #[trigger] ray(gx, gy, gdx, gdy, j) == (tx, ty);
                        if j < gi {
                            assert(on_ray_before(gx, gy, gdx, gdy, gi, tx, ty));
                        }
                    }
                }
            }
            i = i + 1;
        }
    }

    /// Every cell with its content, row by row (`y` outer, `x` inner).
    pub fn iter(&self) -> (r: Vec<(usize, usize, Option<Piece>)>)
        ensures
            r@.len() == 64,
            forall|i: int|
                0 <= i < r@.len() ==> #[trigger] r@[i] == (
                    cell_of_index(i).0 as usize,
                    cell_of_index(i).1 as usize,
                    self.cell(cell_of_index(i).0, cell_of_index(i).1),
                ),
    {
        self.grid.iter()
    }
}

} // verus!

verus! {

/// Law of sliding rules: a sliding rule never reaches a cell that holds a piece
/// of the mover's own side, and it never reaches past the first occupied cell
/// of its ray (in particular past the first opposing piece): when step `j` of
/// the ray is occupied, no later step `i` is reached through that rule.
pub proof fn lemma_trailing_stops(
    b: ChessBoard,
    piece: Piece,
    x: int,
    y: int,
    m: Movement,
    j: int,
    i: int,
    tx: int,
    ty: int,
)
    requires
        in_bounds(x, y),
        b.cell(x, y) == Some(piece),
        m.0 == MovementKind::Trailing,
    ensures
        b.rule_marks(piece, x, y, m, tx, ty) ==> b.spec_is_not_friend(piece.player, tx, ty),
        ({
            let dx = m.1 as int;
            let dy = m.2 as int * piece.player.direction();
            (1 <= j < i && in_bounds(ray(x, y, dx, dy, j).0, ray(x, y, dx, dy, j).1) && b.cell(
                ray(x, y, dx, dy, j).0,
                ray(x, y, dx, dy, j).1,
            ) is Some) ==> !b.rule_marks(piece, x, y, m, ray(x, y, dx, dy, i).0, ray(x, y, dx, dy, i).1)
        }),
{
    let dx = m.1 as int;
    let dy = m.2 as int * piece.player.direction();
    let target = ray(x, y, dx, dy, i);
    if 1 <= j < i && in_bounds(ray(x, y, dx, dy, j).0, ray(x, y, dx, dy, j).1) && b.cell(
        ray(x, y, dx, dy, j).0,
        ray(x, y, dx, dy, j).1,
    ) is Some && b.rule_marks(piece, x, y, m, target.0, target.1) {
        let i2 = choose|i2: int|
            #[trigger] b.trail_step(piece.player, x, y, dx, dy, i2) && ray(x, y, dx, dy, i2) == target;
        if dx == 0 && dy == 0 {
            assert(ray(x, y, dx, dy, i2) == (x, y));
        } else {
            if dx != 0 {
                assert(i2 == i) by (nonlinear_arith)
                    requires
                        dx * i2 == dx * i,
                        dx != 0,
                ;
            } else {
                assert(i2 == i) by (nonlinear_arith)
                    requires
                        dy * i2 == dy * i,
                        dy != 0,
                ;
            }
            assert(b.ray_empty(x, y, dx, dy, j));
        }
    }
}

/// Law of first moves, first half: a first-move rule reaches a cell only for a
/// piece that has not moved yet.
pub proof fn lemma_first_move_needs_unmoved(
    b: ChessBoard,
    piece: Piece,
    x: int,
    y: int,
    m: Movement,
    tx: int,
    ty: int,
)
    requires
        m.0 == MovementKind::FirstMove,
    ensures
        b.rule_marks(piece, x, y, m, tx, ty) ==> piece.not_moved,
{
}

/// Law of first moves, second half: once a piece has been moved to `(tx, ty)`,
/// no first-move rule of it reaches any cell.
pub proof fn lemma_first_move_gone_after_move(
    b: ChessBoard,
    after: ChessBoard,
    fx: int,
    fy: int,
    tx: int,
    ty: int,
    m: Movement,
    cx: int,
    cy: int,
)
    requires
        in_bounds(tx, ty),
        b.cell(fx, fy) is Some,
        b.moved_to(after, fx, fy, tx, ty),
        m.0 == MovementKind::FirstMove,
    ensures
        after.cell(tx, ty) is Some,
        !after.cell(tx, ty).unwrap().not_moved,
        !after.rule_marks(after.cell(tx, ty).unwrap(), tx, ty, m, cx, cy),
{
    assert(after.cell(tx, ty) == moved_piece(b.cell(fx, fy)));
}

/// Law of turns: every move hands the turn to the other side, so two moves
/// give it back.
pub proof fn lemma_turn_alternates(
    b0: ChessBoard,
    b1: ChessBoard,
    b2: ChessBoard,
    fx1: int,
    fy1: int,
    tx1: int,
    ty1: int,
    fx2: int,
    fy2: int,
    tx2: int,
    ty2: int,
)
    requires
        b0.moved_to(b1, fx1, fy1, tx1, ty1),
        b1.moved_to(b2, fx2, fy2, tx2, ty2),
    ensures
        b1.whose_turn() != b0.whose_turn(),
        b2.whose_turn() == b0.whose_turn(),
{
}

} // verus!
