//! The one place the library touches a random-number generator. The
//! generator itself is outside state; nothing is promised of the values it
//! yields, so everything proved here holds for every possible draw.

use crate::board::Board;
use crate::board::Tile;
use rand::Rng;
use vstd::prelude::*;

verus! {

#[verifier::external_type_specification]
#[verifier::external_body]
pub struct ExStdRng(rand::rngs::StdRng);

/// Relies on rand's `Rng::gen::<bool>`: one coin flip drawn from the
/// generator's stream. Nothing can be promised of the value.
#[verifier::external_body]
fn draw_bool(rng: &mut rand::rngs::StdRng) -> bool {
    rng.gen::<bool>()
}

impl Board {
    /// A demonstration board with every cell drawn at random between the
    /// two players; no cell is left empty.
    pub fn new_random(rng: &mut rand::rngs::StdRng) -> (b: Board)
        ensures
            b.wf(),
            forall|i: int| 0 <= i < 16 ==> b.cells@[i] != Tile::Empty,
    {
        let mut cells: Vec<Tile> = Vec::new();
        let mut i: usize = 0;
        while i < 16
            invariant
                i <= 16,
                cells@.len() == i as int,
                forall|j: int| 0 <= j < i as int ==> cells@[j] != Tile::Empty,
            decreases 16 - i,
        {
            let t = if draw_bool(rng) {
                Tile::Cookie
            } else {
                Tile::Milk
            };
            cells.push(t);
            i = i + 1;
        }
        Board { cells }
    }
}

} // verus!
