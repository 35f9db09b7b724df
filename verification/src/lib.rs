//! A solver for the 3x3x3 twisty cube.
//!
//! A cube is entered as 54 sticker symbols ([`facelet::FaceletCube`]), turned
//! into a description by pieces ([`piece::PieceCube`]) and solved by repeated
//! buffer swaps ([`solver::solve`]). [`solve_cube`] does all three for a text.
//!
//! Proved of every cube and every move: moving the stickers and moving the
//! pieces agree ([`piece::lemma_move_agrees`]); a move keeps a cube one that
//! can be put together ([`validity::lemma_move_valid`]); a move and its
//! inverse cancel ([`undo::lemma_inverse_undoes_pieces`]); and the moves that
//! the solver returns solve the cube. Not proved: that the solver finds moves
//! for every cube that can be put together.

use vstd::prelude::*;
use crate::facelet::FaceletCube;
use crate::facelet::ParseError;
use crate::facelet::parse_spec;
use crate::facelet::valid_cells;
use crate::moves::Move;
use crate::piece::ConversionError;
use crate::piece::PieceCube;
use crate::piece::PieceState;
use crate::piece::lemma_describes_unique;
use crate::piece::lemma_moves_agree;
use crate::piece::recognizable;
use crate::piece::unrecognized;
use crate::solver::solution_spec;

pub mod facelet;
pub mod moves;
pub mod piece;
pub mod scramble;
pub mod solver;
pub mod undo;
pub mod validity;

verus! {

/// Why no solution was found for a sticker text.
#[derive(Clone, Copy, Debug, PartialEq, Eq, Structural)]
pub enum SolveError {
    /// The text is no set of stickers.
    Parse(ParseError),
    /// The stickers are those of no cube.
    Conversion(ConversionError),
    /// The pieces cannot be brought home by moves.
    Unsolvable,
}

/// The tokens `names` are those of the moves `ms`, one for one.
pub open spec fn names_of(names: Seq<String>, ms: Seq<Move>) -> bool {
    &&& names.len() == ms.len()
    &&& forall|i: int| 0 <= i < names.len() ==> (#[trigger] names[i])@ == ms[i].name_spec()
}

/// The moves `ms` solve the cube that the stickers `s` show: they bring
/// every piece home, and the stickers after them show every piece at home.
pub open spec fn solves(s: Seq<char>, ms: Seq<Move>) -> bool {
    &&& forall|p: PieceState| p.describes(s) ==> (#[trigger] p.moved_all(ms)).is_solved()
    &&& PieceState::solved().describes(crate::facelet::moved_all(s, ms))
}

/// The moves `ms` are the solution of the cube that the stickers `s` show.
pub open spec fn solution_of(s: Seq<char>, ms: Seq<Move>) -> bool {
    forall|p: PieceState| #[trigger] p.describes(s) ==> solution_spec(p) == Some(ms)
}

/// The cube that the stickers `s` show has no solution.
pub open spec fn no_solution(s: Seq<char>) -> bool {
    forall|p: PieceState| #[trigger] p.describes(s) ==> solution_spec(p) is None
}

/// The tokens `names` are those of the solution of the cube that the
/// stickers `s` show.
pub open spec fn names_solve(s: Seq<char>, names: Seq<String>) -> bool {
    exists|ms: Seq<Move>| solves(s, ms) && solution_of(s, ms) && #[trigger] names_of(names, ms)
}

/// Checks a sticker text: 54 symbols, each one of the six colours, each
/// colour nine times. The first of these that fails is reported.
pub fn validate_cube(cube: &str) -> (r: Result<(), ParseError>)
    ensures
        match r {
            Ok(_) => valid_cells(cube@),
            Err(e) => parse_spec(cube@) == Err::<Seq<char>, ParseError>(e),
        },
{
    match FaceletCube::parse(cube) {
        Ok(_) => Ok(()),
        Err(e) => Err(e),
    }
}

/// The tokens of the moves `ms`.
pub fn move_names(ms: &Vec<Move>) -> (names: Vec<String>)
    ensures
        names_of(names@, ms@),
{
    let mut names: Vec<String> = Vec::new();
    let mut i: usize = 0;
    while i < ms.len()
        invariant
            i <= ms.len(),
            names@.len() == i,
            forall|j: int| 0 <= j < i ==> (#[trigger] names@[j])@ == ms@[j].name_spec(),
        decreases ms.len() - i,
    {
        names.push(ms[i].name());
        i = i + 1;
    }
    names
}

/// Solves the cube that a sticker text shows. The text is checked, read
/// as pieces and solved; the first step that fails gives the error.
pub fn solve_text(cube: &str) -> (r: Result<Vec<Move>, SolveError>)
    ensures
        match r {
            Ok(ms) => valid_cells(cube@) && recognizable(cube@) && solves(cube@, ms@)
                && solution_of(cube@, ms@),
            Err(SolveError::Parse(e)) => parse_spec(cube@) == Err::<Seq<char>, ParseError>(e),
            Err(SolveError::Conversion(ConversionError::UnrecognizedPieceConfiguration { slot })) => {
                &&& valid_cells(cube@)
                &&& slot < 20
                &&& unrecognized(cube@, slot as int)
                &&& forall|j: int| 0 <= j < slot ==> !unrecognized(cube@, j)
            },
            Err(SolveError::Unsolvable) => valid_cells(cube@) && recognizable(cube@)
                && no_solution(cube@),
        },
{
    let facelets = match FaceletCube::parse(cube) {
        Ok(f) => f,
        Err(e) => {
            return Err(SolveError::Parse(e));
        },
    };
    let pieces = match PieceCube::from_facelets(&facelets) {
        Ok(p) => p,
        Err(e) => {
            return Err(SolveError::Conversion(e));
        },
    };
    match solver::solve(&pieces) {
        Some(ms) => {
            assert forall|p: PieceState| p.describes(cube@) implies (#[trigger] p.moved_all(
                ms@,
            )).is_solved() by {
                lemma_describes_unique(p, pieces@, cube@);
            }
            assert forall|p: PieceState| #[trigger] p.describes(cube@) implies solution_spec(p)
                == Some(ms@) by {
                lemma_describes_unique(p, pieces@, cube@);
            }
            proof {
                lemma_moves_agree(pieces@, cube@, ms@);
            }
            Ok(ms)
        },
        None => {
            assert forall|p: PieceState| #[trigger] p.describes(cube@) implies solution_spec(
                p,
            ) is None by {
                lemma_describes_unique(p, pieces@, cube@);
            }
            Err(SolveError::Unsolvable)
        },
    }
}

/// Solves the cube that a sticker text shows and gives the moves as tokens:
/// the face letter, then `2` for a half turn or `'` for a quarter turn back.
pub fn solve_cube(cube: &str) -> (r: Result<Vec<String>, SolveError>)
    ensures
        match r {
            Ok(names) => valid_cells(cube@) && recognizable(cube@) && names_solve(cube@, names@),
            Err(SolveError::Parse(e)) => parse_spec(cube@) == Err::<Seq<char>, ParseError>(e),
            Err(SolveError::Conversion(ConversionError::UnrecognizedPieceConfiguration { slot })) => {
                &&& valid_cells(cube@)
                &&& slot < 20
                &&& unrecognized(cube@, slot as int)
                &&& forall|j: int| 0 <= j < slot ==> !unrecognized(cube@, j)
            },
            Err(SolveError::Unsolvable) => valid_cells(cube@) && recognizable(cube@)
                && no_solution(cube@),
        },
{
    match solve_text(cube) {
        Ok(ms) => {
            let names = move_names(&ms);
            assert(solves(cube@, ms@) && solution_of(cube@, ms@) && names_of(names@, ms@));
            assert(names_solve(cube@, names@));
            Ok(names)
        },
        Err(e) => Err(e),
    }
}

} // verus!
