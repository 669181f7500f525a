use vstd::prelude::*;
use crate::chess_board::{initial_cell, ChessBoard, Player};
use crate::grid::{in_bounds, BOARD_SIZE};
use crate::piece_registry::PieceRegistry;
use crate::selection::Selection;

verus! {

/// The history after going back one move: the last board is dropped unless it
/// is the only one.
pub open spec fn undo_history(boards: Seq<ChessBoard>) -> Seq<ChessBoard> {
    if boards.len() > 1 {
        boards.drop_last()
    } else {
        boards
    }
}

/// A game: the movement table, the boards played so far (the last one is the
/// current board) and the pending selection, if any.
pub struct ChessGame {
    registry: PieceRegistry,
    boards: Vec<ChessBoard>,
    selection: Option<Selection>,
}

impl ChessGame {
    /// The boards played so far, the first one being the starting board.
    pub closed spec fn history(&self) -> Seq<ChessBoard> {
        self.boards@
    }

    /// The pending selection.
    pub closed spec fn pending(&self) -> Option<Selection> {
        self.selection
    }

    /// The movement table.
    pub closed spec fn table(&self) -> PieceRegistry {
        self.registry
    }

    /// The current board.
    pub open spec fn current(&self) -> ChessBoard {
        self.history().last()
    }

    /// The history is never empty and a pending selection is of a cell of the board.
    pub closed spec fn wf(&self) -> bool {
        &&& self.boards@.len() >= 1
        &&& self.selection is Some ==> in_bounds(
            self.selection.unwrap().x as int,
            self.selection.unwrap().y as int,
        )
    }

    /// A game on the starting board, with nothing selected.
    pub fn new(registry: PieceRegistry) -> (r: Self)
        ensures
            r.wf(),
            r.table() == registry,
            r.pending() is None,
            r.history().len() == 1,
            r.current().whose_turn() == Player::White,
            forall|x: int, y: int|
                in_bounds(x, y) ==> #[trigger] r.current().cell(x, y) == initial_cell(x, y),
    {
        let mut boards: Vec<ChessBoard> = Vec::new();
        boards.push(ChessBoard::new());
        Self { registry, boards, selection: None }
    }

    /// The current board.
    pub fn actual_board(&self) -> (r: &ChessBoard)
        requires
            self.wf(),
        ensures
            *r == self.current(),
    {
        self.boards.last().unwrap()
    }

    /// The pending selection, if any.
    pub fn pending_selection(&self) -> (r: Option<&Selection>)
        ensures
            r is Some <==> self.pending() is Some,
            r is Some ==> *r.unwrap() == self.pending().unwrap(),
    {
        match &self.selection {
            Some(selection) => Some(selection),
            None => None,
        }
    }

    /// Reacts to the activation of cell `(x, y)`.
    ///
    /// With nothing selected, selects the piece there if it is of the side to
    /// move. With a selection pending, plays the selected piece to `(x, y)` if
    /// the selection marks it, pushing the new board on the history; either
    /// way the selection is then dropped. A cell off the board drops the
    /// selection and does nothing else.
    pub fn activate(&mut self, x: usize, y: usize)
        requires
            old(self).wf(),
        ensures
            final(self).wf(),
            final(self).table() == old(self).table(),
            !in_bounds(x as int, y as int) ==> final(self).history() == old(self).history()
                && final(self).pending() is None,
            in_bounds(x as int, y as int) && old(self).pending() is None ==> final(self).history()
                == old(self).history() && old(self).current().selection_of(
                old(self).table(),
                x as int,
                y as int,
                final(self).pending(),
            ),
            in_bounds(x as int, y as int) && old(self).pending() is Some ==> final(self).pending() is None,
            in_bounds(x as int, y as int) && old(self).pending() is Some && !old(
                self,
            ).pending().unwrap().choice.has(x as int, y as int) ==> final(self).history() == old(
                self,
            ).history(),
            in_bounds(x as int, y as int) && old(self).pending() is Some && old(
                self,
            ).pending().unwrap().choice.has(x as int, y as int) ==> {
                &&& final(self).history() == old(self).history().push(final(self).current())
                &&& old(self).current().moved_to(
                    final(self).current(),
                    old(self).pending().unwrap().x as int,
                    old(self).pending().unwrap().y as int,
                    x as int,
                    y as int,
                )
            },
    {
        if x >= BOARD_SIZE || y >= BOARD_SIZE {
            self.selection = None;
            return;
        }
        match &self.selection {
            None => {
                let selection = self.actual_board().possible_choice(&self.registry, x, y);
                self.selection = selection;
            },
            Some(selection) => {
                if selection.choice.is_available(x, y) {
                    let mut new_board = *self.actual_board();
                    new_board.move_piece(selection.x, selection.y, x, y);
                    self.boards.push(new_board);
                }
                self.selection = None;
            },
        }
    }

    /// Drops the pending selection, if any.
    pub fn clear_selection(&mut self)
        requires
            old(self).wf(),
        ensures
            final(self).wf(),
            final(self).table() == old(self).table(),
            final(self).history() == old(self).history(),
            final(self).pending() is None,
    {
        self.selection = None;
    }

    /// Drops the pending selection and goes back one move, unless only the
    /// starting board is left.
    pub fn undo_or_exit(&mut self)
        requires
            old(self).wf(),
        ensures
            final(self).wf(),
            final(self).table() == old(self).table(),
            final(self).pending() is None,
            final(self).history() == undo_history(old(self).history()),
    {
        self.selection = None;
        if self.boards.len() > 1 {
            self.boards.pop();
        }
    }
}

} // verus!

verus! {

/// Law of undo: a move committed by `activate`, followed by `undo_or_exit`,
/// gives back the history from before the move, so the current board is again
/// the one the move was played on, cell by cell and turn included.
pub proof fn lemma_undo_after_commit(before: ChessGame, committed: ChessGame, undone: ChessGame)
    requires
        before.wf(),
        committed.history() == before.history().push(committed.current()),
        undone.history() == undo_history(committed.history()),
    ensures
        undone.history() == before.history(),
        undone.current() == before.current(),
        undone.current().whose_turn() == before.current().whose_turn(),
        forall|x: int, y: int|
            in_bounds(x, y) ==> #[trigger] undone.current().cell(x, y) == before.current().cell(x, y),
{
    assert(committed.history().drop_last() =~= before.history());
}

} // verus!
