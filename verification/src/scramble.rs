//! Random cubes: the solved cube after a number of moves picked at random.

use vstd::prelude::*;
use rand::seq::SliceRandom;
use crate::facelet::FaceletCube;
use crate::facelet::solved_cells;
use crate::moves::Move;
use crate::moves::all_moves;
use crate::piece::PieceCube;
use crate::piece::PieceState;
use crate::validity::lemma_moves_valid;
use crate::validity::lemma_solved_valid;

verus! {

/// Picks one of `moves` with rand's `SliceRandom::choose`, on the generator
/// that `rand::thread_rng` gives. Not proved: that an empty list gives
/// nothing, and that any other list gives one of its entries. Which entry
/// is left open. The generator is seeded by the system when a thread first
/// asks for it; rand stops the program where the system has no seed to give.
#[verifier::external_body]
fn choose_move(moves: &Vec<Move>) -> (picked: Option<Move>)
    ensures
        moves@.len() == 0 ==> picked is None,
        moves@.len() > 0 ==> picked is Some && moves@.contains(picked->0),
{
    moves.choose(&mut rand::thread_rng()).copied()
}

/// `total_moves` moves, each picked at random among all eighteen.
pub fn random_moves(total_moves: u8) -> (ms: Vec<Move>)
    ensures
        ms@.len() == total_moves,
        forall|i: int| 0 <= i < ms@.len() ==> all_moves().contains(#[trigger] ms@[i]),
{
    let choices = Move::available();
    let mut ms: Vec<Move> = Vec::new();
    let mut k: u8 = 0;
    while k < total_moves
        invariant
            k <= total_moves,
            choices@ == all_moves(),
            ms@.len() == k,
            forall|i: int| 0 <= i < ms@.len() ==> all_moves().contains(#[trigger] ms@[i]),
        decreases total_moves - k,
    {
        assert(choices@.len() == 18);
        let picked = choose_move(&choices);
        ms.push(picked.unwrap());
        k = k + 1;
    }
    ms
}

impl PieceCube {
    /// The solved cube after `total_moves` moves picked at random. Whatever
    /// was picked, the cube can be put together.
    pub fn random(total_moves: u8) -> (cube: PieceCube)
        ensures
            cube.wf(),
            cube@.valid(),
            exists|ms: Seq<Move>|
                ms.len() == total_moves && cube@ == #[trigger] PieceState::solved().moved_all(ms),
    {
        let ms = random_moves(total_moves);
        proof {
            lemma_solved_valid();
            lemma_moves_valid(PieceState::solved(), ms@);
        }
        PieceCube::solved().apply_moves(&ms)
    }
}

impl FaceletCube {
    /// The solved cube after `total_moves` moves picked at random.
    pub fn random(total_moves: u8) -> (cube: FaceletCube)
        ensures
            cube.wf(),
            exists|ms: Seq<Move>|
                ms.len() == total_moves && cube@ == #[trigger] crate::facelet::moved_all(
                    solved_cells(),
                    ms,
                ),
    {
        let ms = random_moves(total_moves);
        FaceletCube::solved().apply_moves(&ms)
    }
}

} // verus!
