//! The board behind its shared atomic word: rendering, resetting,
//! refilling at random, and the full move request.
//!
//! Every mutation goes through the compare-and-swap retry helper with a
//! pure transition, so concurrent movers never tear the board: each
//! accepted move is the pure transition of a word the cell really held.

use crate::board::Board;
use crate::board::GameOutcome;
use crate::board::Tile;
use crate::board::decoded;
use crate::board::lemma_encode_fields;
use crate::board::lowest_empty_row;
use crate::board::spec_encode;
use crate::board::spec_outcome;
use crate::board::spec_render;
use crate::board::word_fields_ok;
use crate::board::word_fields_valid;
use crate::digits::parse_u64_radix;
use crate::digits::spec_parse_u64;
use crate::retry::Updated;
use crate::retry::fetch_update;
use crate::text::str_eq;
use core::sync::atomic::AtomicU64;
use core::sync::atomic::Ordering;
use vstd::prelude::*;

verus! {

/// The player a team token names: exactly `cookie` or `milk`.
pub open spec fn team_tile(team: Seq<char>) -> Option<Tile> {
    if team == "cookie"@ {
        Some(Tile::Cookie)
    } else if team == "milk"@ {
        Some(Tile::Milk)
    } else {
        None
    }
}

/// The zero-based column a column token names: the tokens reading 1 to 4.
pub open spec fn column_of(column: Seq<char>) -> Option<int> {
    match spec_parse_u64(column, 10) {
        Some(c) => if 1 <= c <= 4 {
            Some(c - 1)
        } else {
            None
        },
        None => None,
    }
}

/// The pure move transition on packed words: drop the player's piece into
/// the column under gravity. Declined when the word is corrupt or the
/// column is full.
pub open spec fn place_transition(w: u64, col: int, t: Tile) -> Option<u64> {
    if word_fields_ok(w) {
        match lowest_empty_row(decoded(w), col) {
            Some(row) => Some(spec_encode(decoded(w).update(col + 4 * row, t))),
            None => None,
        }
    } else {
        None
    }
}

/// Every word a move installs is canonical: valid cell fields and a clear
/// upper half. Corrupt state can therefore never enter through this
/// transition.
pub proof fn lemma_place_preserves_canonical(w: u64, col: int, t: Tile)
    requires
        0 <= col < 4,
    ensures
        place_transition(w, col, t) matches Some(nw) ==> crate::board::word_canonical(nw),
{
    if place_transition(w, col, t) is Some {
        let row = lowest_empty_row(decoded(w), col)->Some_0;
        lemma_encode_fields(decoded(w).update(col + 4 * row, t));
    }
}

/// How a move request ends.
pub enum PlaceOutcome {
    /// The team or column token is malformed; shared state was not touched.
    Invalid,
    /// The game was already won or drawn before the move; the rendering of
    /// the board as then observed.
    Finished(String),
    /// The move was installed and the game is in progress or just won; the
    /// rendering of the board the move produced.
    Placed(String),
    /// The move was installed and filled the board without a win; the
    /// rendering of the board the move produced.
    DrawAfter(String),
    /// The column was already full; the board is unchanged.
    Full,
    /// An observed word held a corrupt cell encoding: state can only have
    /// been tampered with, and the caller should treat it as fatal.
    Corrupt,
    /// The whole retry budget was lost to concurrent writers.
    Busy,
}

/// A process-wide board: the whole 4x4 grid packed into one atomic word,
/// read and written by any number of request handlers without a lock.
pub struct BoardHandle {
    word: AtomicU64,
}

impl BoardHandle {
    /// A fresh handle holding the empty board.
    pub fn new() -> BoardHandle {
        BoardHandle { word: AtomicU64::new(0) }
    }

    /// Renders the board as currently observed; refused only when the
    /// observed word is corrupt.
    pub fn render_board(&self) -> (r: Option<String>)
        ensures
            r matches Some(s) ==> exists|w: u64|
                #[trigger] word_fields_ok(w) && s@ == spec_render(decoded(w)),
    {
        let w = self.word.load(Ordering::Acquire);
        if !word_fields_valid(w) {
            return None;
        }
        let b = Board::decode(w);
        Some(b.render())
    }

    /// Clears the board to all empty and reports the rendering then
    /// observed.
    pub fn reset(&self) -> (r: Option<String>)
        ensures
            r matches Some(s) ==> exists|w: u64|
                #[trigger] word_fields_ok(w) && s@ == spec_render(decoded(w)),
    {
        self.word.store(0, Ordering::Release);
        self.render_board()
    }

    /// Replaces the board by a random demonstration board and reports the
    /// rendering then observed.
    pub fn random_board(&self, rng: &mut rand::rngs::StdRng) -> (r: Option<String>)
        ensures
            r matches Some(s) ==> exists|w: u64|
                #[trigger] word_fields_ok(w) && s@ == spec_render(decoded(w)),
    {
        let b = Board::new_random(rng);
        let w = b.encode();
        self.word.store(w, Ordering::Release);
        self.render_board()
    }

    /// The full move request: reads the team and column tokens, refuses a
    /// finished game, and installs the move atomically.
    ///
    /// The game can finish between the pre-check and the swap through a
    /// concurrent mover, so the caller must read the outcome of this call,
    /// not of the pre-check, as authoritative.
    pub fn place(&self, team: &str, column: &str) -> (r: PlaceOutcome)
        ensures
            r is Invalid <==> (team_tile(team@) is None || column_of(column@) is None),
            r matches PlaceOutcome::Finished(s) ==> exists|w: u64|
                #[trigger] word_fields_ok(w) && spec_outcome(decoded(w)) != GameOutcome::InProgress
                    && s@ == spec_render(decoded(w)),
            r matches PlaceOutcome::Placed(s) ==> exists|w: u64|
                #[trigger] place_transition(
                    w,
                    column_of(column@)->Some_0,
                    team_tile(team@)->Some_0,
                ) matches Some(nw) && spec_outcome(decoded(nw)) != GameOutcome::Draw && s@
                    == spec_render(decoded(nw)),
            r matches PlaceOutcome::DrawAfter(s) ==> exists|w: u64|
                #[trigger] place_transition(
                    w,
                    column_of(column@)->Some_0,
                    team_tile(team@)->Some_0,
                ) matches Some(nw) && spec_outcome(decoded(nw)) == GameOutcome::Draw && s@
                    == spec_render(decoded(nw)),
            r is Full ==> exists|w: u64|
                #[trigger] word_fields_ok(w) && lowest_empty_row(
                    decoded(w),
                    column_of(column@)->Some_0,
                ) is None,
    {
        let t: Tile = if str_eq(team, "cookie") {
            Tile::Cookie
        } else if str_eq(team, "milk") {
            Tile::Milk
        } else {
            return PlaceOutcome::Invalid;
        };
        let col: usize = match parse_u64_radix(column, 10) {
            Some(c) => {
                if 1 <= c && c <= 4 {
                    (c - 1) as usize
                } else {
                    return PlaceOutcome::Invalid;
                }
            },
            None => {
                return PlaceOutcome::Invalid;
            },
        };
        let pre = self.word.load(Ordering::Acquire);
        if !word_fields_valid(pre) {
            return PlaceOutcome::Corrupt;
        }
        let pre_board = Board::decode(pre);
        match pre_board.check_for_winner() {
            GameOutcome::InProgress => {},
            _ => {
                return PlaceOutcome::Finished(pre_board.render());
            },
        }
        let trans = |w: u64| -> (o: Option<u64>)
            ensures
                o == place_transition(w, col as int, t),
            {
                if !word_fields_valid(w) {
                    None
                } else {
                    let mut b = Board::decode(w);
                    match b.push_item(col, t) {
                        Ok(()) => Some(b.encode()),
                        Err(()) => None,
                    }
                }
            };
        let res = fetch_update(&self.word, trans);
        match res {
            Updated::Done(observed, installed) => {
                proof {
                    assert(Some(installed) == place_transition(observed, col as int, t));
                    assert(column_of(column@) == Some(col as int));
                    assert(team_tile(team@) == Some(t));
                    assert(place_transition(
                        observed,
                        column_of(column@)->Some_0,
                        team_tile(team@)->Some_0,
                    ) == Some(installed));
                    let cells2 = decoded(observed).update(
                        col + 4 * lowest_empty_row(decoded(observed), col as int)->Some_0,
                        t,
                    );
                    lemma_encode_fields(cells2);
                }
                let b2 = Board::decode(installed);
                match b2.check_for_winner() {
                    GameOutcome::Draw => PlaceOutcome::DrawAfter(b2.render()),
                    _ => PlaceOutcome::Placed(b2.render()),
                }
            },
            Updated::Declined(w) => {
                if word_fields_valid(w) {
                    PlaceOutcome::Full
                } else {
                    PlaceOutcome::Corrupt
                }
            },
            Updated::Contended => PlaceOutcome::Busy,
        }
    }
}

} // verus!
