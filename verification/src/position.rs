//! The position tracker: the current board position of a game and its ply.
//!
//! Move legality and the textual form of a position come from the `shakmaty`
//! rules engine. Its position type is carried as an opaque value; what the
//! contracts say of a position they say of its FEN, the standard text form
//! that determines the board, the side to move, the castling rights, the en
//! passant square and the two move counters.

use vstd::prelude::*;

verus! {

/// A position of standard chess, as the rules engine holds it.
#[verifier::external_type_specification]
#[verifier::external_body]
pub struct ExChess(shakmaty::Chess);

/// The FEN of a position: what `shakmaty::fen::fen` renders for it.
pub uninterp spec fn fen_of(pos: shakmaty::Chess) -> Seq<char>;

/// The FEN of the position reached by playing the move that `san` denotes in
/// the position with FEN `fen`, or `None` where `san` is not the notation of
/// exactly one legal move there.
pub uninterp spec fn fen_after(fen: Seq<char>, san: Seq<char>) -> Option<Seq<char>>;

/// The FEN of the starting position of a game of chess.
pub open spec fn initial_fen() -> Seq<char> {
    "rnbqkbnr/pppppppp/8/8/8/8/PPPPPPPP/RNBQKBNR w KQkq - 0 1"@
}

/// Calls `shakmaty::Chess::default`, which gives the starting position of a
/// game: all pieces on their home squares, White to move, every castling
/// right, no en passant square, the halfmove clock at 0 and the move number
/// at 1.
#[verifier::external_body]
fn starting_position() -> (pos: shakmaty::Chess)
    ensures
        fen_of(pos) == initial_fen(),
{
    shakmaty::Chess::default()
}

/// Calls `shakmaty::fen::fen`, which renders the FEN of a position.
#[verifier::external_body]
fn render_fen(pos: &shakmaty::Chess) -> (fen: String)
    ensures
        fen@ == fen_of(*pos),
{
    shakmaty::fen::fen(pos)
}

/// Parses `san` with `shakmaty::san::San::from_ascii`, looks the move up
/// among the legal moves of `pos` with `San::to_move`, and plays it with
/// `Position::play_unchecked`. Where the text does not parse, or matches no
/// legal move or more than one, nothing is played and the position is left
/// as it was. The legal moves of a position and the position that a move
/// leads to are determined by what the FEN records.
#[verifier::external_body]
fn play_san(pos: &mut shakmaty::Chess, san: &str) -> (played: bool)
    ensures
        played == fen_after(fen_of(*old(pos)), san@).is_some(),
        fen_of(*final(pos)) == match fen_after(fen_of(*old(pos)), san@) {
            Some(next) => next,
            None => fen_of(*old(pos)),
        },
{
    match shakmaty::san::San::from_ascii(san.as_bytes()) {
        Ok(parsed) => match parsed.to_move(pos) {
            Ok(m) => {
                shakmaty::Position::play_unchecked(pos, &m);
                true
            },
            Err(_) => false,
        },
        Err(_) => false,
    }
}

/// Calls `Clone::clone` of `shakmaty::Chess`, which copies the position
/// field by field.
#[verifier::external_body]
fn copy_position(pos: &shakmaty::Chess) -> (copy: shakmaty::Chess)
    ensures
        fen_of(copy) == fen_of(*pos),
{
    pos.clone()
}

/// Why a move was not applied.
#[derive(Clone, Copy, Debug, PartialEq, Eq, Structural)]
pub enum MoveError {
    /// The text is not the notation of exactly one legal move in the
    /// current position.
    Illegal,
}

/// The current position of a game, with the number of moves applied so far.
pub struct PositionTracker {
    pos: shakmaty::Chess,
    ply: usize,
}

impl PositionTracker {
    /// The FEN of the current position.
    pub closed spec fn fen(&self) -> Seq<char> {
        fen_of(self.pos)
    }

    /// The number of half-moves applied since the start of the game.
    pub closed spec fn ply(&self) -> nat {
        self.ply as nat
    }

    /// A tracker at the starting position, with no move applied.
    pub fn new() -> (tracker: PositionTracker)
        ensures
            tracker.fen() == initial_fen(),
            tracker.ply() == 0,
    {
        PositionTracker { pos: starting_position(), ply: 0 }
    }

    /// Tests whether `san` denotes a legal move in the current position,
    /// without playing it.
    pub fn would_apply(&self, san: &str) -> (legal: bool)
        ensures
            legal == fen_after(self.fen(), san@).is_some(),
    {
        let mut trial = copy_position(&self.pos);
        play_san(&mut trial, san)
    }

    /// Applies the move that `san` denotes. An illegal or unreadable move
    /// changes neither the position nor the ply, whatever the ply is; a
    /// legal move needs a ply that can still be counted up.
    pub fn apply(&mut self, san: &str) -> (result: Result<(), MoveError>)
        requires
            fen_after(old(self).fen(), san@).is_some() ==> old(self).ply() < usize::MAX,
        ensures
            match fen_after(old(self).fen(), san@) {
                Some(next) => {
                    &&& result == Ok::<(), MoveError>(())
                    &&& final(self).fen() == next
                    &&& final(self).ply() == old(self).ply() + 1
                },
                None => {
                    &&& result == Err::<(), MoveError>(MoveError::Illegal)
                    &&& final(self).fen() == old(self).fen()
                    &&& final(self).ply() == old(self).ply()
                },
            },
    {
        if play_san(&mut self.pos, san) {
            self.ply = self.ply + 1;
            Ok(())
        } else {
            Err(MoveError::Illegal)
        }
    }

    /// Applies the move that `san` denotes wherever [`Self::apply`] can take
    /// it, and answers with its result. A legal move at a ply that cannot be
    /// counted up is not played: the answer is `None` and nothing changes.
    pub fn try_apply(&mut self, san: &str) -> (result: Option<Result<(), MoveError>>)
        ensures
            match fen_after(old(self).fen(), san@) {
                Some(next) => if old(self).ply() < usize::MAX {
                    &&& result == Some(Ok::<(), MoveError>(()))
                    &&& final(self).fen() == next
                    &&& final(self).ply() == old(self).ply() + 1
                } else {
                    &&& result.is_none()
                    &&& final(self).fen() == old(self).fen()
                    &&& final(self).ply() == old(self).ply()
                },
                None => {
                    &&& result == Some(Err::<(), MoveError>(MoveError::Illegal))
                    &&& final(self).fen() == old(self).fen()
                    &&& final(self).ply() == old(self).ply()
                },
            },
    {
        if self.ply < usize::MAX || !self.would_apply(san) {
            Some(self.apply(san))
        } else {
            None
        }
    }

    /// The number of half-moves applied since the start of the game.
    pub fn current_ply(&self) -> (ply: usize)
        ensures
            ply == self.ply(),
    {
        self.ply
    }

    /// The FEN of the current position.
    pub fn snapshot(&self) -> (fen: String)
        ensures
            fen@ == self.fen(),
    {
        render_fen(&self.pos)
    }

    /// Goes back to the starting position and to ply 0.
    pub fn reset(&mut self)
        ensures
            final(self).fen() == initial_fen(),
            final(self).ply() == 0,
    {
        self.pos = starting_position();
        self.ply = 0;
    }
}

} // verus!
