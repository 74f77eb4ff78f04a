//! A game as the sequence of callbacks that the visitor receives, and what
//! holds of every such sequence.
//!
//! The reader that drives the visitor delivers the mainline only: when the
//! visitor answers the start of a variation with "skip", as it always does,
//! nothing of that variation is delivered.

use vstd::prelude::*;
use vstd::utf8::{decode_utf8, valid_utf8};
use crate::extract::{eval_payloads, lemma_no_payload_iff_no_marker, marker_at};
use crate::position::fen_after;
use crate::visitor::{site_key, GameView};

verus! {

/// One callback, with what it carries.
pub enum GameEvent {
    /// A header with its name and its raw value.
    Header { key: Seq<u8>, value: Seq<u8> },
    /// A comment with its raw text.
    Comment(Seq<u8>),
    /// A mainline move in standard algebraic notation.
    San(Seq<char>),
    /// The start of a variation.
    BeginVariation,
    /// The end of the game.
    EndGame,
}

/// The state after one callback.
pub open spec fn step(state: GameView, event: GameEvent) -> GameView {
    match event {
        GameEvent::Header { key, value } => state.after_header(key, value),
        GameEvent::Comment(comment) => state.after_comment(comment),
        GameEvent::San(san) => state.after_san(san),
        GameEvent::BeginVariation => state,
        GameEvent::EndGame => state.after_end_game(),
    }
}

/// The state after a sequence of callbacks, taken in order.
pub open spec fn feed(state: GameView, events: Seq<GameEvent>) -> GameView
    decreases events.len(),
{
    if events.len() == 0 {
        state
    } else {
        step(feed(state, events.drop_last()), events.last())
    }
}

/// Whether the move `san` is applied when it arrives in `state`.
pub open spec fn is_applied(state: GameView, san: Seq<char>) -> bool {
    fen_after(state.fen, san) is Some
}

/// The number of moves among `events` that are applied when they arrive.
pub open spec fn moves_applied(state: GameView, events: Seq<GameEvent>) -> nat
    decreases events.len(),
{
    if events.len() == 0 {
        0
    } else {
        let earlier = events.drop_last();
        let counted: nat = match events.last() {
            GameEvent::San(san) => if is_applied(feed(state, earlier), san) {
                1
            } else {
                0
            },
            _ => 0,
        };
        moves_applied(state, earlier) + counted
    }
}

/// Whether no game ends within `events`.
pub open spec fn within_one_game(events: Seq<GameEvent>) -> bool {
    forall|k: int| 0 <= k < events.len() ==> !(events[k] is EndGame)
}

/// Whether an annotation stands in the comment `comment`.
pub open spec fn holds_annotation(comment: Seq<u8>) -> bool {
    valid_utf8(comment) && exists|p: int| marker_at(decode_utf8(comment), p)
}

/// Whether `event` brings no annotation: it is no comment, or a comment that
/// holds none.
pub open spec fn brings_no_annotation(event: GameEvent) -> bool {
    match event {
        GameEvent::Comment(comment) => !holds_annotation(comment),
        _ => true,
    }
}

/// Feeding two sequences one after the other is feeding them joined.
pub proof fn lemma_feed_joined(state: GameView, first: Seq<GameEvent>, second: Seq<GameEvent>)
    ensures
        feed(state, first + second) == feed(feed(state, first), second),
    decreases second.len(),
{
    if second.len() == 0 {
        assert(first + second =~= first);
    } else {
        lemma_feed_joined(state, first, second.drop_last());
        assert((first + second).drop_last() =~= first + second.drop_last());
        assert((first + second).last() == second.last());
    }
}

/// Feeding one callback is taking one step.
pub proof fn lemma_feed_one(state: GameView, event: GameEvent)
    ensures
        feed(state, seq![event]) == step(state, event),
{
    assert(seq![event].drop_last() =~= Seq::<GameEvent>::empty());
    assert(feed(state, Seq::<GameEvent>::empty()) == state);
}

/// A game in which no comment holds an annotation gives no record.
pub proof fn lemma_no_annotation_no_record(state: GameView, events: Seq<GameEvent>)
    requires
        state.evals.len() == 0,
        forall|k: int| 0 <= k < events.len() ==> brings_no_annotation(events[k]),
    ensures
        feed(state, events).evals.len() == 0,
    decreases events.len(),
{
    if events.len() > 0 {
        let earlier = events.drop_last();
        assert forall|k: int| 0 <= k < earlier.len() implies brings_no_annotation(earlier[k]) by {
            assert(earlier[k] == events[k]);
        }
        lemma_no_annotation_no_record(state, earlier);
        let last = events[events.len() - 1];
        assert(brings_no_annotation(last));
        if let GameEvent::Comment(comment) = last {
            if valid_utf8(comment) {
                lemma_no_payload_iff_no_marker(decode_utf8(comment));
            }
        }
    }
}

/// Within a game the ply is the number of moves applied so far.
pub proof fn lemma_ply_counts_applied_moves(state: GameView, events: Seq<GameEvent>)
    requires
        within_one_game(events),
    ensures
        feed(state, events).ply == state.ply + moves_applied(state, events),
    decreases events.len(),
{
    if events.len() > 0 {
        let earlier = events.drop_last();
        assert forall|k: int| 0 <= k < earlier.len() implies !(earlier[k] is EndGame) by {
            assert(earlier[k] == events[k]);
        }
        lemma_ply_counts_applied_moves(state, earlier);
        assert(!(events[events.len() - 1] is EndGame));
    }
}

/// Every record that a comment adds carries the position at the comment and
/// the number of moves applied before it in the game, whatever the comment
/// holds and whether or not moves before it were refused.
pub proof fn lemma_record_ply_counts_moves_before(
    state: GameView,
    events: Seq<GameEvent>,
    k: int,
    comment: Seq<u8>,
)
    requires
        0 <= k < events.len(),
        events[k] == GameEvent::Comment(comment),
        within_one_game(events.take(k)),
    ensures
        ({
            let before = feed(state, events.take(k));
            let after = feed(state, events.take(k + 1));
            &&& before.evals.len() <= after.evals.len()
            &&& after.evals.take(before.evals.len() as int) == before.evals
            &&& forall|i: int|
                before.evals.len() <= i < after.evals.len() ==> {
                    &&& (#[trigger] after.evals[i]).ply == state.ply + moves_applied(
                        state,
                        events.take(k),
                    )
                    &&& after.evals[i].fen == before.fen
                    &&& after.evals[i].link == before.link
                }
        }),
{
    let before = feed(state, events.take(k));
    let after = feed(state, events.take(k + 1));
    assert(events.take(k + 1).drop_last() =~= events.take(k));
    assert(events.take(k + 1).last() == events[k]);
    assert(after == before.after_comment(comment));
    lemma_ply_counts_applied_moves(state, events.take(k));
    assert(after.evals.take(before.evals.len() as int) =~= before.evals);
}

/// The end of a game leaves the state of a new visitor, whatever the game
/// was: the starting position, ply 0, no record and the empty identifier.
pub proof fn lemma_end_game_resets(state: GameView, events: Seq<GameEvent>)
    requires
        events.len() > 0,
        events.last() is EndGame,
    ensures
        feed(state, events) == GameView::initial(),
{
}

/// Whether `event` is a header that sets the identifier.
pub open spec fn names_game(event: GameEvent) -> bool {
    match event {
        GameEvent::Header { key, value } => key == site_key() && valid_utf8(value),
        _ => false,
    }
}

/// The records of a game without an identifying header carry the empty
/// identifier, whatever the games before it were called: from the state that
/// the end of a game leaves, callbacks that set no identifier give records
/// with the empty identifier only.
pub proof fn lemma_unnamed_game_has_empty_identifier(
    state: GameView,
    earlier: Seq<GameEvent>,
    game: Seq<GameEvent>,
)
    requires
        earlier.len() > 0,
        earlier.last() is EndGame,
        forall|k: int| 0 <= k < game.len() ==> !names_game(game[k]),
    ensures
        feed(state, earlier + game).link.len() == 0,
        forall|i: int|
            0 <= i < feed(state, earlier + game).evals.len() ==> (#[trigger] feed(
                state,
                earlier + game,
            ).evals[i]).link.len() == 0,
{
    lemma_feed_joined(state, earlier, game);
    lemma_end_game_resets(state, earlier);
    lemma_unnamed_from(GameView::initial(), game);
}

proof fn lemma_unnamed_from(state: GameView, events: Seq<GameEvent>)
    requires
        state.link.len() == 0,
        forall|i: int| 0 <= i < state.evals.len() ==> (#[trigger] state.evals[i]).link.len() == 0,
        forall|k: int| 0 <= k < events.len() ==> !names_game(events[k]),
    ensures
        feed(state, events).link.len() == 0,
        forall|i: int|
            0 <= i < feed(state, events).evals.len() ==> (#[trigger] feed(
                state,
                events,
            ).evals[i]).link.len() == 0,
    decreases events.len(),
{
    if events.len() > 0 {
        let earlier = events.drop_last();
        assert forall|k: int| 0 <= k < earlier.len() implies !names_game(earlier[k]) by {
            assert(earlier[k] == events[k]);
        }
        lemma_unnamed_from(state, earlier);
        assert(!names_game(events[events.len() - 1]));
    }
}

/// The start of a variation changes nothing, wherever it stands.
pub proof fn lemma_variation_start_changes_nothing(
    state: GameView,
    before: Seq<GameEvent>,
    after: Seq<GameEvent>,
)
    ensures
        feed(state, before + seq![GameEvent::BeginVariation] + after) == feed(
            state,
            before + after,
        ),
{
    let one = seq![GameEvent::BeginVariation];
    lemma_feed_joined(state, before + one, after);
    lemma_feed_joined(state, before, one);
    lemma_feed_one(feed(state, before), GameEvent::BeginVariation);
    lemma_feed_joined(state, before, after);
}

/// A move that is refused changes nothing: what follows it is handled from
/// the position and the ply before it.
pub proof fn lemma_refused_move_changes_nothing(
    state: GameView,
    before: Seq<GameEvent>,
    san: Seq<char>,
    after: Seq<GameEvent>,
)
    requires
        !is_applied(feed(state, before), san),
    ensures
        feed(state, before + seq![GameEvent::San(san)] + after) == feed(state, before + after),
{
    let one = seq![GameEvent::San(san)];
    lemma_feed_joined(state, before + one, after);
    lemma_feed_joined(state, before, one);
    lemma_feed_one(feed(state, before), GameEvent::San(san));
    lemma_feed_joined(state, before, after);
}

/// In every state that a new visitor can reach, the records are in the
/// order of their plies and none lies beyond the current ply.
pub proof fn lemma_reachable_plies_ordered(events: Seq<GameEvent>)
    ensures
        feed(GameView::initial(), events).plies_ordered(),
{
    lemma_plies_stay_ordered(GameView::initial(), events);
}

/// The records of a game stay in the order of their plies.
pub proof fn lemma_plies_stay_ordered(state: GameView, events: Seq<GameEvent>)
    requires
        state.plies_ordered(),
    ensures
        feed(state, events).plies_ordered(),
    decreases events.len(),
{
    if events.len() > 0 {
        lemma_plies_stay_ordered(state, events.drop_last());
    }
}

} // verus!
