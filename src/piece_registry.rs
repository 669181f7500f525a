use vstd::prelude::*;

verus! {

/// How a movement rule decides whether its target cell is reachable.
#[derive(Debug, Clone, Copy, PartialEq, Eq, Structural)]
pub enum MovementKind {
    /// Only onto an empty cell.
    Blocking,
    /// Only onto a cell held by an opponent.
    Eating,
    /// Onto an empty cell or one held by an opponent.
    NotFriend,
    /// Every multiple of the offset, up to and including the first occupied cell
    /// when an opponent holds it.
    Trailing,
    /// Like `Blocking`, but only while the piece has not moved yet.
    FirstMove,
}

/// A movement rule: its kind and its offset `(dx, dy)`, written for the side
/// whose offsets are not mirrored.
#[derive(Debug, Clone, Copy, PartialEq, Eq, Structural)]
pub struct Movement(pub MovementKind, pub i32, pub i32);

/// Identifies a kind of piece in a [`PieceRegistry`].
#[derive(Hash, Debug, Clone, Copy, PartialEq, Eq, Structural)]
pub struct PieceKind(pub u8);

/// The description of one kind of piece, as a configuration gives it.
pub struct PieceConfig {
    pub name: String,
    pub movements: Vec<Movement>,
    pub black_sprite: String,
    pub white_sprite: String,
}

/// The piece kinds of a game, in the order in which they are registered.
pub struct Config {
    pub pieces: Vec<PieceConfig>,
}

/// The movement table: for each registered piece kind, its ordered movement rules.
/// Kinds are numbered from zero in the order of registration.
pub struct PieceRegistry {
    id_allocator: u8,
    pieces: Vec<Vec<Movement>>,
}

/// The largest number of piece kinds a registry can hold.
pub const MAX_PIECE_KINDS: usize = 255;

/// Copies a list of movement rules.
fn copy_movements(m: &Vec<Movement>) -> (r: Vec<Movement>)
    ensures
        r@ == m@,
{
    let mut r: Vec<Movement> = Vec::new();
    let mut i: usize = 0;
    while i < m.len()
        invariant
            i <= m@.len(),
            r@ == m@.subrange(0, i as int),
        decreases m@.len() - i,
    {
        r.push(m[i]);
        i = i + 1;
        assert(r@ =~= m@.subrange(0, i as int));
    }
    assert(r@ =~= m@);
    r
}

/// The rules of the pawn.
pub open spec fn pawn_rules() -> Seq<Movement> {
    seq![
        Movement(MovementKind::Blocking, 0i32, 1i32),
        Movement(MovementKind::Eating, 1i32, 1i32),
        Movement(MovementKind::Eating, -1i32, 1i32),
        Movement(MovementKind::FirstMove, 0i32, 2i32),
    ]
}

/// The rules of the rook.
pub open spec fn rook_rules() -> Seq<Movement> {
    seq![
        Movement(MovementKind::Trailing, 0i32, 1i32),
        Movement(MovementKind::Trailing, 0i32, -1i32),
        Movement(MovementKind::Trailing, 1i32, 0i32),
        Movement(MovementKind::Trailing, -1i32, 0i32),
    ]
}

/// The rules of the knight.
pub open spec fn knight_rules() -> Seq<Movement> {
    seq![
        Movement(MovementKind::NotFriend, 1i32, 2i32),
        Movement(MovementKind::NotFriend, 2i32, 1i32),
        Movement(MovementKind::NotFriend, 1i32, -2i32),
        Movement(MovementKind::NotFriend, 2i32, -1i32),
        Movement(MovementKind::NotFriend, -1i32, 2i32),
        Movement(MovementKind::NotFriend, -2i32, 1i32),
        Movement(MovementKind::NotFriend, -1i32, -2i32),
        Movement(MovementKind::NotFriend, -2i32, -1i32),
    ]
}

/// The rules of the bishop.
pub open spec fn bishop_rules() -> Seq<Movement> {
    seq![
        Movement(MovementKind::Trailing, 1i32, 1i32),
        Movement(MovementKind::Trailing, 1i32, -1i32),
        Movement(MovementKind::Trailing, -1i32, 1i32),
        Movement(MovementKind::Trailing, -1i32, -1i32),
    ]
}

/// The rules of the queen.
pub open spec fn queen_rules() -> Seq<Movement> {
    seq![
        Movement(MovementKind::Trailing, 0i32, 1i32),
        Movement(MovementKind::Trailing, 0i32, -1i32),
        Movement(MovementKind::Trailing, 1i32, 0i32),
        Movement(MovementKind::Trailing, -1i32, 0i32),
        Movement(MovementKind::Trailing, 1i32, 1i32),
        Movement(MovementKind::Trailing, 1i32, -1i32),
        Movement(MovementKind::Trailing, -1i32, 1i32),
        Movement(MovementKind::Trailing, -1i32, -1i32),
    ]
}

/// The rules of the king.
pub open spec fn king_rules() -> Seq<Movement> {
    seq![
        Movement(MovementKind::Blocking, 0i32, 1i32),
        Movement(MovementKind::Blocking, 0i32, -1i32),
        Movement(MovementKind::Blocking, 1i32, 0i32),
        Movement(MovementKind::Blocking, -1i32, 0i32),
        Movement(MovementKind::Blocking, 1i32, 1i32),
        Movement(MovementKind::Blocking, 1i32, -1i32),
        Movement(MovementKind::Blocking, -1i32, 1i32),
        Movement(MovementKind::Blocking, -1i32, -1i32),
    ]
}

/// The standard set of kinds, numbered pawn, rook, knight, bishop, queen, king.
pub open spec fn standard_rules() -> Seq<Seq<Movement>> {
    seq![pawn_rules(), rook_rules(), knight_rules(), bishop_rules(), queen_rules(), king_rules()]
}

impl PieceRegistry {
    /// The rules of each kind, indexed by the kind's number.
    pub closed spec fn view(&self) -> Seq<Seq<Movement>> {
        self.pieces@.map_values(|v: Vec<Movement>| v@)
    }

    /// The numbering of kinds follows the table.
    pub closed spec fn wf(&self) -> bool {
        self.id_allocator as int == self.pieces@.len()
    }

    /// The rules of `kind`: empty for a kind that was never registered.
    pub open spec fn rules_of(&self, kind: PieceKind) -> Seq<Movement> {
        if (kind.0 as int) < self@.len() {
            self@[kind.0 as int]
        } else {
            Seq::empty()
        }
    }

    /// An empty registry.
    pub fn new() -> (r: Self)
        ensures
            r.wf(),
            r@ == Seq::<Seq<Movement>>::empty(),
    {
        let r = Self { id_allocator: 0, pieces: Vec::new() };
        assert(r@ =~= Seq::<Seq<Movement>>::empty());
        r
    }

    /// Registers a kind with the given rules and returns its number, the next free one.
    pub fn register_piece(&mut self, movements: Vec<Movement>) -> (r: PieceKind)
        requires
            old(self).wf(),
            old(self)@.len() < MAX_PIECE_KINDS,
        ensures
            final(self).wf(),
            r.0 as int == old(self)@.len(),
            final(self)@ == old(self)@.push(movements@),
    {
        let piece = PieceKind(self.id_allocator);
        self.id_allocator = self.id_allocator + 1;
        self.pieces.push(movements);
        assert(self@ =~= old(self)@.push(movements@));
        piece
    }

    /// The rules of `piece`, or `None` for a kind that was never registered.
    pub fn get_movement(&self, piece: PieceKind) -> (r: Option<&[Movement]>)
        ensures
            r is Some <==> (piece.0 as int) < self@.len(),
            r is Some ==> r.unwrap()@ == self@[piece.0 as int],
    {
        let i = piece.0 as usize;
        if i < self.pieces.len() {
            Some(self.pieces[i].as_slice())
        } else {
            None
        }
    }

    /// The number of registered kinds.
    pub fn len(&self) -> (r: usize)
        ensures
            r == self@.len(),
    {
        self.pieces.len()
    }

    /// A registry holding the standard set of kinds.
    pub fn fake_it() -> (r: Self)
        ensures
            r.wf(),
            r@ == standard_rules(),
    {
        let mut registry = Self::new();
        let pawn = vec![
            Movement(MovementKind::Blocking, 0, 1),
            Movement(MovementKind::Eating, 1, 1),
            Movement(MovementKind::Eating, -1, 1),
            Movement(MovementKind::FirstMove, 0, 2),
        ];
        assert(pawn@ =~= pawn_rules());
        registry.register_piece(pawn);
        let rook = vec![
            Movement(MovementKind::Trailing, 0, 1),
            Movement(MovementKind::Trailing, 0, -1),
            Movement(MovementKind::Trailing, 1, 0),
            Movement(MovementKind::Trailing, -1, 0),
        ];
        assert(rook@ =~= rook_rules());
        registry.register_piece(rook);
        let knight = vec![
            Movement(MovementKind::NotFriend, 1, 2),
            Movement(MovementKind::NotFriend, 2, 1),
            Movement(MovementKind::NotFriend, 1, -2),
            Movement(MovementKind::NotFriend, 2, -1),
            Movement(MovementKind::NotFriend, -1, 2),
            Movement(MovementKind::NotFriend, -2, 1),
            Movement(MovementKind::NotFriend, -1, -2),
            Movement(MovementKind::NotFriend, -2, -1),
        ];
        assert(knight@ =~= knight_rules());
        registry.register_piece(knight);
        let bishop = vec![
            Movement(MovementKind::Trailing, 1, 1),
            Movement(MovementKind::Trailing, 1, -1),
            Movement(MovementKind::Trailing, -1, 1),
            Movement(MovementKind::Trailing, -1, -1),
        ];
        assert(bishop@ =~= bishop_rules());
        registry.register_piece(bishop);
        let queen = vec![
            Movement(MovementKind::Trailing, 0, 1),
            Movement(MovementKind::Trailing, 0, -1),
            Movement(MovementKind::Trailing, 1, 0),
            Movement(MovementKind::Trailing, -1, 0),
            Movement(MovementKind::Trailing, 1, 1),
            Movement(MovementKind::Trailing, 1, -1),
            Movement(MovementKind::Trailing, -1, 1),
            Movement(MovementKind::Trailing, -1, -1),
        ];
        assert(queen@ =~= queen_rules());
        registry.register_piece(queen);
        let king = vec![
            Movement(MovementKind::Blocking, 0, 1),
            Movement(MovementKind::Blocking, 0, -1),
            Movement(MovementKind::Blocking, 1, 0),
            Movement(MovementKind::Blocking, -1, 0),
            Movement(MovementKind::Blocking, 1, 1),
            Movement(MovementKind::Blocking, 1, -1),
            Movement(MovementKind::Blocking, -1, 1),
            Movement(MovementKind::Blocking, -1, -1),
        ];
        assert(king@ =~= king_rules());
        registry.register_piece(king);
        assert(registry@ =~= standard_rules());
        registry
    }

    /// A registry holding the kinds of `config`, numbered in their order there.
    pub fn from_config(config: &Config) -> (r: Self)
        requires
            config.pieces@.len() <= MAX_PIECE_KINDS,
        ensures
            r.wf(),
            r@.len() == config.pieces@.len(),
            forall|i: int| 0 <= i < r@.len() ==> #[trigger] r@[i] == config.pieces@[i].movements@,
    {
        let mut registry = Self::new();
        let mut i: usize = 0;
        while i < config.pieces.len()
            invariant
                i <= config.pieces@.len(),
                config.pieces@.len() <= MAX_PIECE_KINDS,
                registry.wf(),
                registry@.len() == i,
                forall|k: int| 0 <= k < i ==> #[trigger] registry@[k] == config.pieces@[k].movements@,
            decreases config.pieces@.len() - i,
        {
            let movements = copy_movements(&config.pieces[i].movements);
            registry.register_piece(movements);
            i = i + 1;
        }
        registry
    }
}

} // verus!
