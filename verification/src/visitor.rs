//! The game visitor: the state that one game's callbacks act on, and the
//! records that it collects.

use vstd::prelude::*;
use vstd::utf8::{decode_utf8, valid_utf8};
use crate::extract::{eval_payloads, extract};
use crate::position::{fen_after, initial_fen, MoveError, PositionTracker};
use crate::text::decode;

verus! {

/// One evaluation found in a comment, with the position it refers to.
#[derive(Clone, Debug)]
pub struct FenEval {
    /// The identifier of the game: the value of its `Site` header, or the
    /// empty string.
    pub link: String,
    /// The FEN of the position that the evaluation refers to.
    pub fen: String,
    /// The evaluation as written, not interpreted.
    pub eval: String,
    /// The number of mainline half-moves played before the comment.
    pub ply: usize,
}

/// The mathematical value of a [`FenEval`].
pub struct FenEvalView {
    pub link: Seq<char>,
    pub fen: Seq<char>,
    pub eval: Seq<char>,
    pub ply: nat,
}

impl View for FenEval {
    type V = FenEvalView;

    open spec fn view(&self) -> FenEvalView {
        FenEvalView { link: self.link@, fen: self.fen@, eval: self.eval@, ply: self.ply as nat }
    }
}

impl DeepView for FenEval {
    type V = FenEvalView;

    open spec fn deep_view(&self) -> FenEvalView {
        self@
    }
}

/// The header whose value identifies a game: the bytes of `Site`.
pub open spec fn site_key() -> Seq<u8> {
    seq![0x53u8, 0x69u8, 0x74u8, 0x65u8]
}

/// The mathematical value of a [`GameWithEval`].
pub struct GameView {
    /// The FEN of the current position.
    pub fen: Seq<char>,
    /// The number of mainline half-moves applied in the current game.
    pub ply: nat,
    /// The identifier of the current game: the value of the last `Site`
    /// header seen in it, or the empty string.
    pub link: Seq<char>,
    /// The records collected in the current game, oldest first.
    pub evals: Seq<FenEvalView>,
}

impl GameView {
    /// The state of a new visitor.
    pub open spec fn initial() -> GameView {
        GameView { fen: initial_fen(), ply: 0, link: Seq::empty(), evals: Seq::empty() }
    }

    /// The record that an evaluation found now would give.
    pub open spec fn record(self, eval: Seq<char>) -> FenEvalView {
        FenEvalView { link: self.link, fen: self.fen, eval, ply: self.ply }
    }

    /// One record for each of `payloads`, in the same order.
    pub open spec fn records(self, payloads: Seq<Seq<char>>) -> Seq<FenEvalView> {
        Seq::new(payloads.len(), |i: int| self.record(payloads[i]))
    }

    /// Whether the records are in the order of their plies, none of them
    /// beyond the current ply.
    pub open spec fn plies_ordered(self) -> bool {
        &&& forall|i: int, j: int|
            0 <= i <= j < self.evals.len() ==> self.evals[i].ply <= self.evals[j].ply
        &&& forall|i: int| 0 <= i < self.evals.len() ==> self.evals[i].ply <= self.ply
    }

    /// The state after a header: a `Site` header with a well-formed value
    /// sets the identifier, any other header changes nothing.
    pub open spec fn after_header(self, key: Seq<u8>, value: Seq<u8>) -> GameView {
        if key == site_key() && valid_utf8(value) {
            GameView { link: decode_utf8(value), ..self }
        } else {
            self
        }
    }

    /// The state after a comment: one record more for each evaluation in a
    /// well-formed comment, nothing for a comment that is not UTF-8.
    pub open spec fn after_comment(self, comment: Seq<u8>) -> GameView {
        if valid_utf8(comment) {
            GameView {
                evals: self.evals + self.records(eval_payloads(decode_utf8(comment))),
                ..self
            }
        } else {
            self
        }
    }

    /// The state after a move: a legal move changes the position and adds
    /// one to the ply, any other changes nothing.
    pub open spec fn after_san(self, san: Seq<char>) -> GameView {
        match fen_after(self.fen, san) {
            Some(next) => GameView { fen: next, ply: self.ply + 1, ..self },
            None => self,
        }
    }

    /// The state after the end of a game: that of a new visitor. Nothing of
    /// the game that ended stays, its identifier included, so a game without
    /// a `Site` header has the empty identifier.
    pub open spec fn after_end_game(self) -> GameView {
        GameView::initial()
    }
}

/// The visitor of a game: the position tracker, the game's identifier and
/// the records collected so far.
pub struct GameWithEval {
    tracker: PositionTracker,
    link: String,
    evals: Vec<FenEval>,
}

impl View for GameWithEval {
    type V = GameView;

    closed spec fn view(&self) -> GameView {
        GameView {
            fen: self.tracker.fen(),
            ply: self.tracker.ply(),
            link: self.link@,
            evals: self.evals.deep_view(),
        }
    }
}

/// Tests whether `key` is the name of the identifying header.
fn is_site_key(key: &[u8]) -> (is_site: bool)
    ensures
        is_site == (key@ == site_key()),
{
    let is_site = key.len() == 4 && key[0] == 0x53u8 && key[1] == 0x69u8 && key[2] == 0x74u8
        && key[3] == 0x65u8;
    proof {
        if is_site {
            assert(key@ =~= site_key());
        } else if key.len() == 4 {
            assert(site_key()[0] == 0x53u8 && site_key()[1] == 0x69u8 && site_key()[2] == 0x74u8
                && site_key()[3] == 0x65u8);
        } else {
            assert(site_key().len() == 4);
        }
    }
    is_site
}

impl GameWithEval {
    /// A visitor before its first game: the starting position, ply 0, an
    /// empty identifier and no records.
    pub fn new() -> (game: GameWithEval)
        ensures
            game@ == GameView::initial(),
    {
        let game = GameWithEval {
            tracker: PositionTracker::new(),
            link: String::new(),
            evals: Vec::new(),
        };
        assert(game.evals.deep_view() =~= Seq::<FenEvalView>::empty());
        game
    }

    /// The number of mainline half-moves applied in the current game.
    pub fn current_ply(&self) -> (ply: usize)
        ensures
            ply == self@.ply,
    {
        self.tracker.current_ply()
    }

    /// The FEN of the current position.
    pub fn snapshot(&self) -> (fen: String)
        ensures
            fen@ == self@.fen,
    {
        self.tracker.snapshot()
    }

    /// The identifier of the current game: the value of the last `Site`
    /// header seen in it, or the empty string.
    pub fn link(&self) -> (link: &str)
        ensures
            link@ == self@.link,
    {
        self.link.as_str()
    }

    /// Takes a header. The value of a `Site` header becomes the game's
    /// identifier if it is well-formed UTF-8; every other header is ignored.
    pub fn header(&mut self, key: &[u8], value: &[u8])
        ensures
            final(self)@ == old(self)@.after_header(key@, value@),
    {
        if is_site_key(key) {
            if let Some(link) = decode(value) {
                self.link = link.to_owned();
            }
        }
    }

    /// Takes a comment. Each evaluation found in it is recorded with the
    /// current position, ply and identifier; a comment that is not UTF-8 is
    /// ignored.
    pub fn comment(&mut self, comment: &[u8])
        ensures
            final(self)@ == old(self)@.after_comment(comment@),
    {
        if let Some(text) = decode(comment) {
            let found = extract(text);
            let ghost start = self@;
            let mut i: usize = 0;
            assert(self.evals.deep_view() =~= start.evals + start.records(
                found.deep_view().take(0),
            ));
            while i < found.len()
                invariant
                    i <= found.len(),
                    self@.fen == start.fen,
                    self@.ply == start.ply,
                    self@.link == start.link,
                    self@.evals == start.evals + start.records(found.deep_view().take(i as int)),
                decreases found.len() - i,
            {
                let record = FenEval {
                    link: self.link.clone(),
                    fen: self.tracker.snapshot(),
                    eval: found[i].clone(),
                    ply: self.tracker.current_ply(),
                };
                let ghost before = self.evals.deep_view();
                let ghost seen = found.deep_view().take(i as int);
                assert(record@ == start.record(found.deep_view()[i as int]));
                self.evals.push(record);
                i += 1;
                assert(self.evals.deep_view() =~= before.push(record@));
                assert(found.deep_view().take(i as int) =~= seen.push(found.deep_view()[i - 1]));
                assert(start.records(seen.push(found.deep_view()[i - 1])) =~= start.records(
                    seen,
                ).push(record@));
                assert(self.evals.deep_view() =~= start.evals + start.records(
                    found.deep_view().take(i as int),
                ));
            }
            assert(found.deep_view().take(found.len() as int) =~= found.deep_view());
        }
    }

    /// Takes a mainline move. A legal move is played and counted; an illegal
    /// or unreadable one is reported and changes nothing, whatever the ply
    /// is. A legal move needs a ply that can still be counted up.
    pub fn san(&mut self, san: &str) -> (result: Result<(), MoveError>)
        requires
            fen_after(old(self)@.fen, san@).is_some() ==> old(self)@.ply < usize::MAX,
        ensures
            final(self)@ == old(self)@.after_san(san@),
            result is Ok <==> fen_after(old(self)@.fen, san@) is Some,
            result is Err ==> result == Err::<(), MoveError>(MoveError::Illegal),
    {
        self.tracker.apply(san)
    }

    /// Takes a mainline move wherever [`Self::san`] can take it, and answers
    /// with its result. A legal move at a ply that cannot be counted up is
    /// not played: the answer is `None` and nothing changes.
    pub fn try_san(&mut self, san: &str) -> (result: Option<Result<(), MoveError>>)
        ensures
            fen_after(old(self)@.fen, san@).is_some() && old(self)@.ply >= usize::MAX ==> {
                &&& result.is_none()
                &&& final(self)@ == old(self)@
            },
            fen_after(old(self)@.fen, san@).is_none() || old(self)@.ply < usize::MAX ==> {
                &&& final(self)@ == old(self)@.after_san(san@)
                &&& result matches Some(answer)
                &&& answer is Ok <==> fen_after(old(self)@.fen, san@) is Some
                &&& answer is Err ==> answer == Err::<(), MoveError>(MoveError::Illegal)
            },
    {
        if self.tracker.current_ply() < usize::MAX || !self.tracker.would_apply(san) {
            Some(self.san(san))
        } else {
            None
        }
    }

    /// Takes the start of a variation: always answers that the variation is
    /// to be skipped, and changes nothing.
    pub fn begin_variation(&mut self) -> (skip: bool)
        ensures
            skip,
            final(self)@ == old(self)@,
    {
        true
    }

    /// Ends the game: hands out the records collected in it and puts the
    /// visitor back into the state of a new one, so that nothing of this
    /// game, its identifier included, reaches the next.
    pub fn end_game(&mut self) -> (result: Vec<FenEval>)
        ensures
            result.deep_view() == old(self)@.evals,
            final(self)@ == old(self)@.after_end_game(),
    {
        self.tracker.reset();
        self.link = String::new();
        let mut result: Vec<FenEval> = Vec::new();
        core::mem::swap(&mut self.evals, &mut result);
        assert(self.evals.deep_view() =~= Seq::<FenEvalView>::empty());
        result
    }
}

} // verus!
