//! The cube as twenty pieces: which piece sits in each slot, and how it is
//! turned there.
//!
//! Corner slots and corner pieces are numbered URF, UFL, ULB, UBR, DFR, DLF,
//! DBL, DRB from 0; edge slots and edge pieces UR, UF, UL, UB, DR, DF, DL,
//! DB, FR, FL, BL, BR. A corner's twist counts the clockwise thirds of a
//! turn by which it sits away from its reference position, an edge's flip
//! is 1 where it sits the other way round.

use vstd::prelude::*;
use crate::facelet::FaceletCube;
use crate::facelet::quarter_turn;
use crate::facelet::solved_cell;
use crate::facelet::solved_cells;
use crate::facelet::turn_source;
use crate::moves::Face;
use crate::moves::Move;

verus! {

/// Why a set of stickers is no cube that could be put together.
#[derive(Clone, Copy, Debug, PartialEq, Eq, Structural)]
pub enum ConversionError {
    /// The stickers of `slot` belong to no piece. Corner slots are numbered
    /// from 0 to 7, edge slots follow from 8 to 19.
    UnrecognizedPieceConfiguration { slot: usize },
}

/// The three stickers of each corner slot, clockwise from the one on the
/// U or D face. The slots are URF, UFL, ULB, UBR, DFR, DLF, DBL, DRB.
pub open spec fn corner_cell_table(slot: usize, k: usize) -> usize {
    match slot {
        0 => match k { 0 => 8, 1 => 9, _ => 20, },
        1 => match k { 0 => 6, 1 => 18, _ => 38, },
        2 => match k { 0 => 0, 1 => 36, _ => 47, },
        3 => match k { 0 => 2, 1 => 45, _ => 11, },
        4 => match k { 0 => 29, 1 => 26, _ => 15, },
        5 => match k { 0 => 27, 1 => 44, _ => 24, },
        6 => match k { 0 => 33, 1 => 53, _ => 42, },
        _ => match k { 0 => 35, 1 => 17, _ => 51, },
    }
}

/// The two stickers of each edge slot. The slots are UR, UF, UL, UB, DR, DF,
/// DL, DB, FR, FL, BL, BR.
pub open spec fn edge_cell_table(slot: usize, k: usize) -> usize {
    match slot {
        0 => match k { 0 => 5, _ => 10, },
        1 => match k { 0 => 7, _ => 19, },
        2 => match k { 0 => 3, _ => 37, },
        3 => match k { 0 => 1, _ => 46, },
        4 => match k { 0 => 32, _ => 16, },
        5 => match k { 0 => 28, _ => 25, },
        6 => match k { 0 => 30, _ => 43, },
        7 => match k { 0 => 34, _ => 52, },
        8 => match k { 0 => 23, _ => 12, },
        9 => match k { 0 => 21, _ => 41, },
        10 => match k { 0 => 50, _ => 39, },
        _ => match k { 0 => 48, _ => 14, },
    }
}

/// The corner slot whose piece a quarter turn of `face` brings to slot `i`.
pub open spec fn corner_source_table(face: Face, i: usize) -> usize {
    match face {
        Face::U => match i { 0 => 3, 1 => 0, 2 => 1, 3 => 2, 4 => 4, 5 => 5, 6 => 6, _ => 7, },
        Face::R => match i { 0 => 4, 1 => 1, 2 => 2, 3 => 0, 4 => 7, 5 => 5, 6 => 6, _ => 3, },
        Face::F => match i { 0 => 1, 1 => 5, 2 => 2, 3 => 3, 4 => 0, 5 => 4, 6 => 6, _ => 7, },
        Face::D => match i { 0 => 0, 1 => 1, 2 => 2, 3 => 3, 4 => 5, 5 => 6, 6 => 7, _ => 4, },
        Face::L => match i { 0 => 0, 1 => 2, 2 => 6, 3 => 3, 4 => 4, 5 => 1, 6 => 5, _ => 7, },
        Face::B => match i { 0 => 0, 1 => 1, 2 => 3, 3 => 7, 4 => 4, 5 => 5, 6 => 2, _ => 6, },
    }
}

/// The twist that a quarter turn of `face` adds to the piece that it brings
/// to corner slot `i`.
pub open spec fn corner_twist_table(face: Face, i: usize) -> u8 {
    match face {
        Face::U => match i { 0 => 0, 1 => 0, 2 => 0, 3 => 0, 4 => 0, 5 => 0, 6 => 0, _ => 0, },
        Face::R => match i { 0 => 2, 1 => 0, 2 => 0, 3 => 1, 4 => 1, 5 => 0, 6 => 0, _ => 2, },
        Face::F => match i { 0 => 1, 1 => 2, 2 => 0, 3 => 0, 4 => 2, 5 => 1, 6 => 0, _ => 0, },
        Face::D => match i { 0 => 0, 1 => 0, 2 => 0, 3 => 0, 4 => 0, 5 => 0, 6 => 0, _ => 0, },
        Face::L => match i { 0 => 0, 1 => 1, 2 => 2, 3 => 0, 4 => 0, 5 => 2, 6 => 1, _ => 0, },
        Face::B => match i { 0 => 0, 1 => 0, 2 => 1, 3 => 2, 4 => 0, 5 => 0, 6 => 2, _ => 1, },
    }
}

/// The edge slot whose piece a quarter turn of `face` brings to slot `i`.
pub open spec fn edge_source_table(face: Face, i: usize) -> usize {
    match face {
        Face::U => match i { 0 => 3, 1 => 0, 2 => 1, 3 => 2, 4 => 4, 5 => 5, 6 => 6, 7 => 7, 8 => 8, 9 => 9, 10 => 10, _ => 11, },
        Face::R => match i { 0 => 8, 1 => 1, 2 => 2, 3 => 3, 4 => 11, 5 => 5, 6 => 6, 7 => 7, 8 => 4, 9 => 9, 10 => 10, _ => 0, },
        Face::F => match i { 0 => 0, 1 => 9, 2 => 2, 3 => 3, 4 => 4, 5 => 8, 6 => 6, 7 => 7, 8 => 1, 9 => 5, 10 => 10, _ => 11, },
        Face::D => match i { 0 => 0, 1 => 1, 2 => 2, 3 => 3, 4 => 5, 5 => 6, 6 => 7, 7 => 4, 8 => 8, 9 => 9, 10 => 10, _ => 11, },
        Face::L => match i { 0 => 0, 1 => 1, 2 => 10, 3 => 3, 4 => 4, 5 => 5, 6 => 9, 7 => 7, 8 => 8, 9 => 2, 10 => 6, _ => 11, },
        Face::B => match i { 0 => 0, 1 => 1, 2 => 2, 3 => 11, 4 => 4, 5 => 5, 6 => 6, 7 => 10, 8 => 8, 9 => 9, 10 => 3, _ => 7, },
    }
}

/// The flip that a quarter turn of `face` adds to the piece that it brings
/// to edge slot `i`.
pub open spec fn edge_flip_table(face: Face, i: usize) -> u8 {
    match face {
        Face::U => match i { 0 => 0, 1 => 0, 2 => 0, 3 => 0, 4 => 0, 5 => 0, 6 => 0, 7 => 0, 8 => 0, 9 => 0, 10 => 0, _ => 0, },
        Face::R => match i { 0 => 0, 1 => 0, 2 => 0, 3 => 0, 4 => 0, 5 => 0, 6 => 0, 7 => 0, 8 => 0, 9 => 0, 10 => 0, _ => 0, },
        Face::F => match i { 0 => 0, 1 => 1, 2 => 0, 3 => 0, 4 => 0, 5 => 1, 6 => 0, 7 => 0, 8 => 1, 9 => 1, 10 => 0, _ => 0, },
        Face::D => match i { 0 => 0, 1 => 0, 2 => 0, 3 => 0, 4 => 0, 5 => 0, 6 => 0, 7 => 0, 8 => 0, 9 => 0, 10 => 0, _ => 0, },
        Face::L => match i { 0 => 0, 1 => 0, 2 => 0, 3 => 0, 4 => 0, 5 => 0, 6 => 0, 7 => 0, 8 => 0, 9 => 0, 10 => 0, _ => 0, },
        Face::B => match i { 0 => 0, 1 => 0, 2 => 0, 3 => 1, 4 => 0, 5 => 0, 6 => 0, 7 => 1, 8 => 0, 9 => 0, 10 => 1, _ => 1, },
    }
}

/// Sticker `k` of corner slot `slot`.
pub open spec fn corner_cell(slot: int, k: int) -> int {
    corner_cell_table(slot as usize, k as usize) as int
}

/// Sticker `k` of edge slot `slot`.
pub open spec fn edge_cell(slot: int, k: int) -> int {
    edge_cell_table(slot as usize, k as usize) as int
}

pub open spec fn corner_source(face: Face, i: int) -> int {
    corner_source_table(face, i as usize) as int
}

pub open spec fn corner_twist(face: Face, i: int) -> int {
    corner_twist_table(face, i as usize) as int
}

pub open spec fn edge_source(face: Face, i: int) -> int {
    edge_source_table(face, i as usize) as int
}

pub open spec fn edge_flip(face: Face, i: int) -> int {
    edge_flip_table(face, i as usize) as int
}

/// The stickers `s` show corner piece `piece` in corner slot `slot`, turned
/// by `twist`: read from sticker `twist` of the slot onwards, the slot shows
/// the three colours of the piece in their reference order.
pub open spec fn fits_corner(s: Seq<char>, slot: int, piece: int, twist: int) -> bool {
    &&& s[corner_cell(slot, twist % 3)] == solved_cell(corner_cell(piece, 0))
    &&& s[corner_cell(slot, (twist + 1) % 3)] == solved_cell(corner_cell(piece, 1))
    &&& s[corner_cell(slot, (twist + 2) % 3)] == solved_cell(corner_cell(piece, 2))
}

/// The stickers `s` show edge piece `piece` in edge slot `slot`, flipped by
/// `flip`.
pub open spec fn fits_edge(s: Seq<char>, slot: int, piece: int, flip: int) -> bool {
    &&& s[edge_cell(slot, flip % 2)] == solved_cell(edge_cell(piece, 0))
    &&& s[edge_cell(slot, (flip + 1) % 2)] == solved_cell(edge_cell(piece, 1))
}

/// The stickers of slot `slot` (corners from 0, edges from 8) belong to no
/// piece in any position.
pub open spec fn unrecognized(s: Seq<char>, slot: int) -> bool {
    if slot < 8 {
        forall|p: int, t: int| 0 <= p < 8 && 0 <= t < 3 ==> !#[trigger] fits_corner(s, slot, p, t)
    } else {
        forall|p: int, t: int|
            0 <= p < 12 && 0 <= t < 2 ==> !#[trigger] fits_edge(s, slot - 8, p, t)
    }
}

/// Every slot of `s` shows a piece.
pub open spec fn recognizable(s: Seq<char>) -> bool {
    forall|slot: int| 0 <= slot < 20 ==> !#[trigger] unrecognized(s, slot)
}

/// 1 where the entry at `k` is larger than the entry at `j`, else 0.
#[verifier::opaque]
pub open spec fn above(s: Seq<u8>, k: int, j: int) -> int {
    if s[k] > s[j] {
        1
    } else {
        0
    }
}

/// The number of `k < i` with `s[k] > s[j]`.
pub open spec fn larger_before(s: Seq<u8>, j: int, i: int) -> int
    decreases i,
{
    if i <= 0 {
        0
    } else {
        larger_before(s, j, i - 1) + above(s, i - 1, j)
    }
}

/// The number of pairs `k < j < n` with `s[k] > s[j]`.
pub open spec fn inversions(s: Seq<u8>, n: int) -> int
    decreases n,
{
    if n <= 0 {
        0
    } else {
        inversions(s, n - 1) + larger_before(s, n - 1, n - 1)
    }
}

/// The sum of the first `n` entries of `s`.
pub open spec fn total(s: Seq<u8>, n: int) -> int
    decreases n,
{
    if n <= 0 {
        0
    } else {
        total(s, n - 1) + s[n - 1]
    }
}

/// No entry of `s` occurs twice.
pub open spec fn distinct(s: Seq<u8>) -> bool {
    forall|i: int, j: int| 0 <= i < j < s.len() ==> s[i] != s[j]
}

/// A cube by pieces: for each corner slot the piece in it (`cp`) and its
/// twist (`co`), for each edge slot the piece in it (`ep`) and its flip (`eo`).
#[verifier::ext_equal]
pub struct PieceState {
    pub cp: Seq<u8>,
    pub co: Seq<u8>,
    pub ep: Seq<u8>,
    pub eo: Seq<u8>,
}

impl PieceState {
    /// Every entry names a piece or a position.
    pub open spec fn wf(self) -> bool {
        &&& self.cp.len() == 8
        &&& self.co.len() == 8
        &&& self.ep.len() == 12
        &&& self.eo.len() == 12
        &&& forall|i: int| 0 <= i < 8 ==> #[trigger] self.cp[i] < 8
        &&& forall|i: int| 0 <= i < 8 ==> #[trigger] self.co[i] < 3
        &&& forall|i: int| 0 <= i < 12 ==> #[trigger] self.ep[i] < 12
        &&& forall|i: int| 0 <= i < 12 ==> #[trigger] self.eo[i] < 2
    }

    /// The state can be reached by taking the cube apart and putting it
    /// together again without force: no piece occurs twice, the twists add up
    /// to a multiple of three, the flips to a multiple of two, and the corners
    /// are permuted as evenly or oddly as the edges.
    pub open spec fn valid(self) -> bool {
        &&& self.wf()
        &&& distinct(self.cp)
        &&& distinct(self.ep)
        &&& total(self.co, 8) % 3 == 0
        &&& total(self.eo, 12) % 2 == 0
        &&& inversions(self.cp, 8) % 2 == inversions(self.ep, 12) % 2
    }

    /// The solved cube.
    pub open spec fn solved() -> PieceState {
        PieceState {
            cp: Seq::new(8, |i: int| i as u8),
            co: Seq::new(8, |i: int| 0u8),
            ep: Seq::new(12, |i: int| i as u8),
            eo: Seq::new(12, |i: int| 0u8),
        }
    }

    /// Every piece is in its own slot, neither twisted nor flipped.
    pub open spec fn is_solved(self) -> bool {
        self == PieceState::solved()
    }

    /// The stickers `s` show this state.
    pub open spec fn describes(self, s: Seq<char>) -> bool {
        &&& self.wf()
        &&& forall|i: int|
            0 <= i < 8 ==> fits_corner(s, i, #[trigger] self.cp[i] as int, self.co[i] as int)
        &&& forall|i: int|
            0 <= i < 12 ==> fits_edge(s, i, #[trigger] self.ep[i] as int, self.eo[i] as int)
    }

    /// The state after a clockwise quarter turn of `face`: each slot takes
    /// the piece of the slot that the turn brings there, and the turn's twist
    /// or flip is added to it.
    pub open spec fn quarter_turn(self, face: Face) -> PieceState {
        PieceState {
            cp: Seq::new(8, |i: int| self.cp[corner_source(face, i)]),
            co: Seq::new(
                8,
                |i: int| ((self.co[corner_source(face, i)] + corner_twist(face, i)) % 3) as u8,
            ),
            ep: Seq::new(12, |i: int| self.ep[edge_source(face, i)]),
            eo: Seq::new(
                12,
                |i: int| ((self.eo[edge_source(face, i)] + edge_flip(face, i)) % 2) as u8,
            ),
        }
    }

    /// The state after `n` clockwise quarter turns of `face`.
    pub open spec fn turned(self, face: Face, n: nat) -> PieceState
        decreases n,
    {
        if n == 0 {
            self
        } else {
            self.turned(face, (n - 1) as nat).quarter_turn(face)
        }
    }

    /// The state after the move `m`.
    pub open spec fn moved(self, m: Move) -> PieceState {
        self.turned(m.face, m.turn.quarters_spec())
    }

    /// The state after the moves of `ms`, from left to right.
    pub open spec fn moved_all(self, ms: Seq<Move>) -> PieceState
        decreases ms.len(),
    {
        if ms.len() == 0 {
            self
        } else {
            self.moved_all(ms.drop_last()).moved(ms.last())
        }
    }
}

/// A quarter turn keeps every entry in its range.
pub proof fn lemma_quarter_turn_wf(p: PieceState, face: Face)
    requires
        p.wf(),
    ensures
        p.quarter_turn(face).wf(),
{
}

/// A move keeps every entry in its range.
pub proof fn lemma_turned_wf(p: PieceState, face: Face, n: nat)
    requires
        p.wf(),
    ensures
        p.turned(face, n).wf(),
    decreases n,
{
    if n > 0 {
        lemma_turned_wf(p, face, (n - 1) as nat);
        lemma_quarter_turn_wf(p.turned(face, (n - 1) as nat), face);
    }
}

/// Turning a face on the stickers and turning it on the pieces come to the
/// same: where `p` is what the stickers `s` show, `p` after a quarter turn
/// is what `s` shows after that quarter turn.
pub proof fn lemma_quarter_turn_agrees(p: PieceState, s: Seq<char>, face: Face)
    requires
        s.len() == 54,
        p.describes(s),
    ensures
        p.quarter_turn(face).describes(quarter_turn(s, face)),
{
    let q = p.quarter_turn(face);
    let t = quarter_turn(s, face);
    lemma_quarter_turn_wf(p, face);
    assert forall|i: int| 0 <= i < 8 implies fits_corner(
        t,
        i,
        #[trigger] q.cp[i] as int,
        q.co[i] as int,
    ) by {
        let from = corner_source(face, i);
        let d = corner_twist(face, i);
        lemma_corner_cells_turn(face, i);
        assert(fits_corner(s, from, p.cp[from] as int, p.co[from] as int));
        assert forall|k: int| 0 <= k < 3 implies t[#[trigger] corner_cell(i, k)] == s[corner_cell(
            from,
            (k + 3 - d) % 3,
        )] by {
            assert(t[corner_cell(i, k)] == s[turn_source(face, corner_cell(i, k))]);
        }
        lemma_corner_fit_carried(s, t, i, from, p.cp[from] as int, p.co[from] as int, d);
    }
    assert forall|i: int| 0 <= i < 12 implies fits_edge(
        t,
        i,
        #[trigger] q.ep[i] as int,
        q.eo[i] as int,
    ) by {
        let from = edge_source(face, i);
        let d = edge_flip(face, i);
        lemma_edge_cells_turn(face, i);
        assert(fits_edge(s, from, p.ep[from] as int, p.eo[from] as int));
        assert forall|k: int| 0 <= k < 2 implies t[#[trigger] edge_cell(i, k)] == s[edge_cell(
            from,
            (k + 2 - d) % 2,
        )] by {
            assert(t[edge_cell(i, k)] == s[turn_source(face, edge_cell(i, k))]);
        }
        lemma_edge_fit_carried(s, t, i, from, p.ep[from] as int, p.eo[from] as int, d);
    }
}

/// A piece that fits slot `from` of `s` fits slot `i` of `t`, twisted by
/// `d` more, where `t` shows at slot `i` what `s` shows at slot `from`,
/// turned by `d`.
proof fn lemma_corner_fit_carried(
    s: Seq<char>,
    t: Seq<char>,
    i: int,
    from: int,
    piece: int,
    twist: int,
    d: int,
)
    requires
        0 <= twist < 3,
        0 <= d < 3,
        fits_corner(s, from, piece, twist),
        forall|k: int|
            0 <= k < 3 ==> t[#[trigger] corner_cell(i, k)] == s[corner_cell(from, (k + 3 - d) % 3)],
    ensures
        fits_corner(t, i, piece, (twist + d) % 3),
{
    let e = (twist + d) % 3;
    assert(t[corner_cell(i, e % 3)] == s[corner_cell(from, (e % 3 + 3 - d) % 3)]);
    assert(t[corner_cell(i, (e + 1) % 3)] == s[corner_cell(from, ((e + 1) % 3 + 3 - d) % 3)]);
    assert(t[corner_cell(i, (e + 2) % 3)] == s[corner_cell(from, ((e + 2) % 3 + 3 - d) % 3)]);
}

proof fn lemma_edge_fit_carried(
    s: Seq<char>,
    t: Seq<char>,
    i: int,
    from: int,
    piece: int,
    flip: int,
    d: int,
)
    requires
        0 <= flip < 2,
        0 <= d < 2,
        fits_edge(s, from, piece, flip),
        forall|k: int|
            0 <= k < 2 ==> t[#[trigger] edge_cell(i, k)] == s[edge_cell(from, (k + 2 - d) % 2)],
    ensures
        fits_edge(t, i, piece, (flip + d) % 2),
{
    let e = (flip + d) % 2;
    assert(t[edge_cell(i, e % 2)] == s[edge_cell(from, (e % 2 + 2 - d) % 2)]);
    assert(t[edge_cell(i, (e + 1) % 2)] == s[edge_cell(from, ((e + 1) % 2 + 2 - d) % 2)]);
}

/// Where a quarter turn of `face` takes the stickers of corner slot `i`
/// from: the slot that the piece comes from, further round by the twist.
proof fn lemma_corner_cells_turn(face: Face, i: int)
    requires
        0 <= i < 8,
    ensures
        forall|k: int|
            0 <= k < 3 ==> turn_source(face, #[trigger] corner_cell(i, k)) == corner_cell(
                corner_source(face, i),
                (k + 3 - corner_twist(face, i)) % 3,
            ),
        forall|k: int| 0 <= k < 3 ==> 0 <= #[trigger] corner_cell(i, k) < 54,
        0 <= corner_source(face, i) < 8,
        0 <= corner_twist(face, i) < 3,
{
}

proof fn lemma_edge_cells_turn(face: Face, i: int)
    requires
        0 <= i < 12,
    ensures
        forall|k: int|
            0 <= k < 2 ==> turn_source(face, #[trigger] edge_cell(i, k)) == edge_cell(
                edge_source(face, i),
                (k + 2 - edge_flip(face, i)) % 2,
            ),
        forall|k: int| 0 <= k < 2 ==> 0 <= #[trigger] edge_cell(i, k) < 54,
        0 <= edge_source(face, i) < 12,
        0 <= edge_flip(face, i) < 2,
{
}

/// Turning a face any number of quarter turns on the stickers and on the
/// pieces comes to the same.
pub proof fn lemma_turned_agrees(p: PieceState, s: Seq<char>, face: Face, n: nat)
    requires
        s.len() == 54,
        p.describes(s),
    ensures
        p.turned(face, n).describes(crate::facelet::turned(s, face, n)),
        crate::facelet::turned(s, face, n).len() == 54,
    decreases n,
{
    if n > 0 {
        lemma_turned_agrees(p, s, face, (n - 1) as nat);
        lemma_quarter_turn_agrees(
            p.turned(face, (n - 1) as nat),
            crate::facelet::turned(s, face, (n - 1) as nat),
            face,
        );
    }
}

/// For every move, converting the stickers to pieces and then moving gives
/// what moving the stickers and then converting gives: where `p` is what
/// the stickers `s` show, `p` after the move is what `s` shows after it.
pub proof fn lemma_move_agrees(p: PieceState, s: Seq<char>, m: Move)
    requires
        s.len() == 54,
        p.describes(s),
    ensures
        p.moved(m).describes(crate::facelet::moved(s, m)),
{
    lemma_turned_agrees(p, s, m.face, m.turn.quarters_spec());
}

/// Moving the stickers and moving the pieces agree for every sequence of
/// moves.
pub proof fn lemma_moves_agree(p: PieceState, s: Seq<char>, ms: Seq<Move>)
    requires
        s.len() == 54,
        p.describes(s),
    ensures
        p.moved_all(ms).describes(crate::facelet::moved_all(s, ms)),
        crate::facelet::moved_all(s, ms).len() == 54,
    decreases ms.len(),
{
    if ms.len() > 0 {
        lemma_moves_agree(p, s, ms.drop_last());
        lemma_turned_agrees(
            p.moved_all(ms.drop_last()),
            crate::facelet::moved_all(s, ms.drop_last()),
            ms.last().face,
            ms.last().turn.quarters_spec(),
        );
    }
}

/// The stickers show at most one state.
pub proof fn lemma_describes_unique(p: PieceState, q: PieceState, s: Seq<char>)
    requires
        s.len() == 54,
        p.describes(s),
        q.describes(s),
    ensures
        p == q,
{
    assert forall|i: int| 0 <= i < 8 implies p.cp[i] == q.cp[i] && p.co[i] == q.co[i] by {
        assert(fits_corner(s, i, p.cp[i] as int, p.co[i] as int));
        assert(fits_corner(s, i, q.cp[i] as int, q.co[i] as int));
        lemma_corner_fit_unique(s, i, p.cp[i] as int, p.co[i] as int, q.cp[i] as int, q.co[i] as int);
    }
    assert forall|i: int| 0 <= i < 12 implies p.ep[i] == q.ep[i] && p.eo[i] == q.eo[i] by {
        assert(fits_edge(s, i, p.ep[i] as int, p.eo[i] as int));
        assert(fits_edge(s, i, q.ep[i] as int, q.eo[i] as int));
        lemma_edge_fit_unique(s, i, p.ep[i] as int, p.eo[i] as int, q.ep[i] as int, q.eo[i] as int);
    }
    assert(p.cp =~= q.cp);
    assert(p.co =~= q.co);
    assert(p.ep =~= q.ep);
    assert(p.eo =~= q.eo);
}

proof fn lemma_corner_fit_unique(s: Seq<char>, slot: int, a: int, t: int, b: int, u: int)
    requires
        0 <= a < 8,
        0 <= b < 8,
        0 <= t < 3,
        0 <= u < 3,
        fits_corner(s, slot, a, t),
        fits_corner(s, slot, b, u),
    ensures
        a == b,
        t == u,
{
}

proof fn lemma_edge_fit_unique(s: Seq<char>, slot: int, a: int, t: int, b: int, u: int)
    requires
        0 <= a < 12,
        0 <= b < 12,
        0 <= t < 2,
        0 <= u < 2,
        fits_edge(s, slot, a, t),
        fits_edge(s, slot, b, u),
    ensures
        a == b,
        t == u,
{
}

/// The solved stickers show the solved state.
pub proof fn lemma_solved_describes()
    ensures
        PieceState::solved().describes(solved_cells()),
{
}

fn corner_cell_of(slot: usize, k: usize) -> (c: usize)
    requires
        slot < 8,
        k < 3,
    ensures
        c == corner_cell_table(slot, k),
        c < 54,
{
    match slot {
        0 => match k { 0 => 8, 1 => 9, _ => 20, },
        1 => match k { 0 => 6, 1 => 18, _ => 38, },
        2 => match k { 0 => 0, 1 => 36, _ => 47, },
        3 => match k { 0 => 2, 1 => 45, _ => 11, },
        4 => match k { 0 => 29, 1 => 26, _ => 15, },
        5 => match k { 0 => 27, 1 => 44, _ => 24, },
        6 => match k { 0 => 33, 1 => 53, _ => 42, },
        _ => match k { 0 => 35, 1 => 17, _ => 51, },
    }
}

fn edge_cell_of(slot: usize, k: usize) -> (c: usize)
    requires
        slot < 12,
        k < 2,
    ensures
        c == edge_cell_table(slot, k),
        c < 54,
{
    match slot {
        0 => match k { 0 => 5, _ => 10, },
        1 => match k { 0 => 7, _ => 19, },
        2 => match k { 0 => 3, _ => 37, },
        3 => match k { 0 => 1, _ => 46, },
        4 => match k { 0 => 32, _ => 16, },
        5 => match k { 0 => 28, _ => 25, },
        6 => match k { 0 => 30, _ => 43, },
        7 => match k { 0 => 34, _ => 52, },
        8 => match k { 0 => 23, _ => 12, },
        9 => match k { 0 => 21, _ => 41, },
        10 => match k { 0 => 50, _ => 39, },
        _ => match k { 0 => 48, _ => 14, },
    }
}

fn corner_source_of(face: Face, i: usize) -> (r: usize)
    requires
        i < 8,
    ensures
        r == corner_source_table(face, i),
        r < 8,
{
    match face {
        Face::U => match i { 0 => 3, 1 => 0, 2 => 1, 3 => 2, 4 => 4, 5 => 5, 6 => 6, _ => 7, },
        Face::R => match i { 0 => 4, 1 => 1, 2 => 2, 3 => 0, 4 => 7, 5 => 5, 6 => 6, _ => 3, },
        Face::F => match i { 0 => 1, 1 => 5, 2 => 2, 3 => 3, 4 => 0, 5 => 4, 6 => 6, _ => 7, },
        Face::D => match i { 0 => 0, 1 => 1, 2 => 2, 3 => 3, 4 => 5, 5 => 6, 6 => 7, _ => 4, },
        Face::L => match i { 0 => 0, 1 => 2, 2 => 6, 3 => 3, 4 => 4, 5 => 1, 6 => 5, _ => 7, },
        Face::B => match i { 0 => 0, 1 => 1, 2 => 3, 3 => 7, 4 => 4, 5 => 5, 6 => 2, _ => 6, },
    }
}

fn corner_twist_of(face: Face, i: usize) -> (r: u8)
    requires
        i < 8,
    ensures
        r == corner_twist_table(face, i),
        r < 3,
{
    match face {
        Face::U => match i { 0 => 0, 1 => 0, 2 => 0, 3 => 0, 4 => 0, 5 => 0, 6 => 0, _ => 0, },
        Face::R => match i { 0 => 2, 1 => 0, 2 => 0, 3 => 1, 4 => 1, 5 => 0, 6 => 0, _ => 2, },
        Face::F => match i { 0 => 1, 1 => 2, 2 => 0, 3 => 0, 4 => 2, 5 => 1, 6 => 0, _ => 0, },
        Face::D => match i { 0 => 0, 1 => 0, 2 => 0, 3 => 0, 4 => 0, 5 => 0, 6 => 0, _ => 0, },
        Face::L => match i { 0 => 0, 1 => 1, 2 => 2, 3 => 0, 4 => 0, 5 => 2, 6 => 1, _ => 0, },
        Face::B => match i { 0 => 0, 1 => 0, 2 => 1, 3 => 2, 4 => 0, 5 => 0, 6 => 2, _ => 1, },
    }
}

fn edge_source_of(face: Face, i: usize) -> (r: usize)
    requires
        i < 12,
    ensures
        r == edge_source_table(face, i),
        r < 12,
{
    match face {
        Face::U => match i { 0 => 3, 1 => 0, 2 => 1, 3 => 2, 4 => 4, 5 => 5, 6 => 6, 7 => 7, 8 => 8, 9 => 9, 10 => 10, _ => 11, },
        Face::R => match i { 0 => 8, 1 => 1, 2 => 2, 3 => 3, 4 => 11, 5 => 5, 6 => 6, 7 => 7, 8 => 4, 9 => 9, 10 => 10, _ => 0, },
        Face::F => match i { 0 => 0, 1 => 9, 2 => 2, 3 => 3, 4 => 4, 5 => 8, 6 => 6, 7 => 7, 8 => 1, 9 => 5, 10 => 10, _ => 11, },
        Face::D => match i { 0 => 0, 1 => 1, 2 => 2, 3 => 3, 4 => 5, 5 => 6, 6 => 7, 7 => 4, 8 => 8, 9 => 9, 10 => 10, _ => 11, },
        Face::L => match i { 0 => 0, 1 => 1, 2 => 10, 3 => 3, 4 => 4, 5 => 5, 6 => 9, 7 => 7, 8 => 8, 9 => 2, 10 => 6, _ => 11, },
        Face::B => match i { 0 => 0, 1 => 1, 2 => 2, 3 => 11, 4 => 4, 5 => 5, 6 => 6, 7 => 10, 8 => 8, 9 => 9, 10 => 3, _ => 7, },
    }
}

fn edge_flip_of(face: Face, i: usize) -> (r: u8)
    requires
        i < 12,
    ensures
        r == edge_flip_table(face, i),
        r < 2,
{
    match face {
        Face::U => match i { 0 => 0, 1 => 0, 2 => 0, 3 => 0, 4 => 0, 5 => 0, 6 => 0, 7 => 0, 8 => 0, 9 => 0, 10 => 0, _ => 0, },
        Face::R => match i { 0 => 0, 1 => 0, 2 => 0, 3 => 0, 4 => 0, 5 => 0, 6 => 0, 7 => 0, 8 => 0, 9 => 0, 10 => 0, _ => 0, },
        Face::F => match i { 0 => 0, 1 => 1, 2 => 0, 3 => 0, 4 => 0, 5 => 1, 6 => 0, 7 => 0, 8 => 1, 9 => 1, 10 => 0, _ => 0, },
        Face::D => match i { 0 => 0, 1 => 0, 2 => 0, 3 => 0, 4 => 0, 5 => 0, 6 => 0, 7 => 0, 8 => 0, 9 => 0, 10 => 0, _ => 0, },
        Face::L => match i { 0 => 0, 1 => 0, 2 => 0, 3 => 0, 4 => 0, 5 => 0, 6 => 0, 7 => 0, 8 => 0, 9 => 0, 10 => 0, _ => 0, },
        Face::B => match i { 0 => 0, 1 => 0, 2 => 0, 3 => 1, 4 => 0, 5 => 0, 6 => 0, 7 => 1, 8 => 0, 9 => 0, 10 => 1, _ => 1, },
    }
}

fn solved_symbol(i: usize) -> (c: char)
    ensures
        c == solved_cell(i as int),
{
    if i < 9 {
        'W'
    } else if i < 18 {
        'R'
    } else if i < 27 {
        'G'
    } else if i < 36 {
        'Y'
    } else if i < 45 {
        'O'
    } else {
        'B'
    }
}

fn corner_fits(f: &FaceletCube, slot: usize, piece: usize, twist: usize) -> (b: bool)
    requires
        f.wf(),
        slot < 8,
        piece < 8,
        twist < 3,
    ensures
        b == fits_corner(f@, slot as int, piece as int, twist as int),
{
    f.cell(corner_cell_of(slot, twist % 3)) == solved_symbol(corner_cell_of(piece, 0)) && f.cell(
        corner_cell_of(slot, (twist + 1) % 3),
    ) == solved_symbol(corner_cell_of(piece, 1)) && f.cell(corner_cell_of(slot, (twist + 2) % 3))
        == solved_symbol(corner_cell_of(piece, 2))
}

fn edge_fits(f: &FaceletCube, slot: usize, piece: usize, flip: usize) -> (b: bool)
    requires
        f.wf(),
        slot < 12,
        piece < 12,
        flip < 2,
    ensures
        b == fits_edge(f@, slot as int, piece as int, flip as int),
{
    f.cell(edge_cell_of(slot, flip % 2)) == solved_symbol(edge_cell_of(piece, 0)) && f.cell(
        edge_cell_of(slot, (flip + 1) % 2),
    ) == solved_symbol(edge_cell_of(piece, 1))
}

/// Looks for the piece that the stickers show in a corner slot.
fn find_corner(f: &FaceletCube, slot: usize) -> (r: Option<(u8, u8)>)
    requires
        f.wf(),
        slot < 8,
    ensures
        match r {
            Some((piece, twist)) => piece < 8 && twist < 3 && fits_corner(
                f@,
                slot as int,
                piece as int,
                twist as int,
            ),
            None => unrecognized(f@, slot as int),
        },
{
    let mut n: u8 = 0;
    while n < 24
        invariant
            f.wf(),
            slot < 8,
            n <= 24,
            forall|p: int, t: int|
                0 <= p < 8 && 0 <= t < 3 && p * 3 + t < n ==> !#[trigger] fits_corner(
                    f@,
                    slot as int,
                    p,
                    t,
                ),
        decreases 24 - n,
    {
        let piece: u8 = n / 3;
        let twist: u8 = n % 3;
        if corner_fits(f, slot, piece as usize, twist as usize) {
            return Some((piece, twist));
        }
        n = n + 1;
    }
    None
}

/// Looks for the piece that the stickers show in an edge slot.
fn find_edge(f: &FaceletCube, slot: usize) -> (r: Option<(u8, u8)>)
    requires
        f.wf(),
        slot < 12,
    ensures
        match r {
            Some((piece, flip)) => piece < 12 && flip < 2 && fits_edge(
                f@,
                slot as int,
                piece as int,
                flip as int,
            ),
            None => unrecognized(f@, slot as int + 8),
        },
{
    let mut n: u8 = 0;
    while n < 24
        invariant
            f.wf(),
            slot < 12,
            n <= 24,
            forall|p: int, t: int|
                0 <= p < 12 && 0 <= t < 2 && p * 2 + t < n ==> !#[trigger] fits_edge(
                    f@,
                    slot as int,
                    p,
                    t,
                ),
        decreases 24 - n,
    {
        let piece: u8 = n / 2;
        let flip: u8 = n % 2;
        if edge_fits(f, slot, piece as usize, flip as usize) {
            return Some((piece, flip));
        }
        n = n + 1;
    }
    None
}

/// Whether no entry occurs twice.
fn all_distinct(s: &[u8]) -> (b: bool)
    ensures
        b == distinct(s@),
{
    let n = s.len();
    let mut j: usize = 0;
    while j < n
        invariant
            n == s@.len(),
            j <= n,
            forall|a: int, c: int| 0 <= a < c < j ==> s@[a] != s@[c],
        decreases n - j,
    {
        let mut k: usize = 0;
        while k < j
            invariant
                n == s@.len(),
                j < n,
                k <= j,
                forall|a: int| 0 <= a < k ==> s@[a] != s@[j as int],
            decreases j - k,
        {
            if s[k] == s[j] {
                return false;
            }
            k = k + 1;
        }
        j = j + 1;
    }
    true
}

/// The sum of the entries.
fn sum_of(s: &[u8]) -> (t: usize)
    requires
        s@.len() <= 12,
    ensures
        t == total(s@, s@.len() as int),
{
    let n = s.len();
    let mut t: usize = 0;
    let mut i: usize = 0;
    while i < n
        invariant
            n == s@.len(),
            n <= 12,
            i <= n,
            t == total(s@, i as int),
            t <= 255 * i,
        decreases n - i,
    {
        t = t + s[i] as usize;
        i = i + 1;
    }
    t
}

/// The number of pairs of entries that stand in the wrong order.
fn inversions_of(s: &[u8]) -> (t: usize)
    requires
        s@.len() <= 12,
    ensures
        t == inversions(s@, s@.len() as int),
{
    let n = s.len();
    let mut t: usize = 0;
    let mut j: usize = 0;
    while j < n
        invariant
            n == s@.len(),
            n <= 12,
            j <= n,
            t == inversions(s@, j as int),
            t <= 12 * j,
        decreases n - j,
    {
        let mut k: usize = 0;
        let ghost base = t;
        while k < j
            invariant
                n == s@.len(),
                n <= 12,
                j < n,
                k <= j,
                t == base + larger_before(s@, j as int, k as int),
                base <= 12 * j,
                t <= base + k,
            decreases j - k,
        {
            proof {
                reveal(above);
            }
            if s[k] > s[j] {
                t = t + 1;
            }
            k = k + 1;
        }
        j = j + 1;
    }
    t
}

/// A cube given by its pieces.
#[derive(Clone, Copy, Debug, PartialEq, Eq)]
pub struct PieceCube {
    cp: [u8; 8],
    co: [u8; 8],
    ep: [u8; 12],
    eo: [u8; 12],
}

impl View for PieceCube {
    type V = PieceState;

    closed spec fn view(&self) -> PieceState {
        PieceState { cp: self.cp@, co: self.co@, ep: self.ep@, eo: self.eo@ }
    }
}

impl PieceCube {
    /// Every entry names a piece or a position.
    pub open spec fn wf(&self) -> bool {
        self@.wf()
    }

    /// The solved cube.
    pub fn solved() -> (cube: PieceCube)
        ensures
            cube@ == PieceState::solved(),
            cube.wf(),
    {
        let cube = PieceCube {
            cp: [0, 1, 2, 3, 4, 5, 6, 7],
            co: [0, 0, 0, 0, 0, 0, 0, 0],
            ep: [0, 1, 2, 3, 4, 5, 6, 7, 8, 9, 10, 11],
            eo: [0, 0, 0, 0, 0, 0, 0, 0, 0, 0, 0, 0],
        };
        assert(cube@.cp =~= PieceState::solved().cp);
        assert(cube@.co =~= PieceState::solved().co);
        assert(cube@.ep =~= PieceState::solved().ep);
        assert(cube@.eo =~= PieceState::solved().eo);
        cube
    }

    /// The cube with the pieces `cp` in the corner slots, twisted by `co`,
    /// and the pieces `ep` in the edge slots, flipped by `eo`; nothing where
    /// an entry names no piece or no position.
    pub fn from_parts(cp: [u8; 8], co: [u8; 8], ep: [u8; 12], eo: [u8; 12]) -> (r: Option<
        PieceCube,
    >)
        ensures
            r is Some <==> (PieceState { cp: cp@, co: co@, ep: ep@, eo: eo@ }).wf(),
            r matches Some(cube) ==> cube@ == (PieceState { cp: cp@, co: co@, ep: ep@, eo: eo@ }),
    {
        let mut i: usize = 0;
        while i < 8
            invariant
                i <= 8,
                forall|j: int| 0 <= j < i ==> #[trigger] cp@[j] < 8,
                forall|j: int| 0 <= j < i ==> #[trigger] co@[j] < 3,
            decreases 8 - i,
        {
            if cp[i] >= 8 || co[i] >= 3 {
                return None;
            }
            i = i + 1;
        }
        let mut i: usize = 0;
        while i < 12
            invariant
                i <= 12,
                forall|j: int| 0 <= j < 8 ==> #[trigger] cp@[j] < 8,
                forall|j: int| 0 <= j < 8 ==> #[trigger] co@[j] < 3,
                forall|j: int| 0 <= j < i ==> #[trigger] ep@[j] < 12,
                forall|j: int| 0 <= j < i ==> #[trigger] eo@[j] < 2,
            decreases 12 - i,
        {
            if ep[i] >= 12 || eo[i] >= 2 {
                return None;
            }
            i = i + 1;
        }
        Some(PieceCube { cp, co, ep, eo })
    }

    /// Reads the pieces off the stickers. Each slot is matched against every
    /// piece in every position; the first slot that shows no piece is
    /// reported, corners before edges.
    pub fn from_facelets(f: &FaceletCube) -> (r: Result<PieceCube, ConversionError>)
        requires
            f.wf(),
        ensures
            match r {
                Ok(cube) => cube.wf() && cube@.describes(f@),
                Err(ConversionError::UnrecognizedPieceConfiguration { slot }) => {
                    &&& slot < 20
                    &&& unrecognized(f@, slot as int)
                    &&& forall|j: int| 0 <= j < slot ==> !unrecognized(f@, j)
                },
            },
            r is Ok <==> recognizable(f@),
    {
        let mut cp: [u8; 8] = [0; 8];
        let mut co: [u8; 8] = [0; 8];
        let mut ep: [u8; 12] = [0; 12];
        let mut eo: [u8; 12] = [0; 12];
        let mut i: usize = 0;
        while i < 8
            invariant
                f.wf(),
                i <= 8,
                forall|j: int| 0 <= j < i ==> !unrecognized(f@, j),
                forall|j: int| 0 <= j < i ==> #[trigger] cp@[j] < 8,
                forall|j: int| 0 <= j < i ==> #[trigger] co@[j] < 3,
                forall|j: int|
                    0 <= j < i ==> fits_corner(f@, j, #[trigger] cp@[j] as int, co@[j] as int),
            decreases 8 - i,
        {
            match find_corner(f, i) {
                None => {
                    return Err(ConversionError::UnrecognizedPieceConfiguration { slot: i });
                },
                Some((piece, twist)) => {
                    cp[i] = piece;
                    co[i] = twist;
                },
            }
            i = i + 1;
        }
        let mut i: usize = 0;
        while i < 12
            invariant
                f.wf(),
                i <= 12,
                forall|j: int| 0 <= j < 8 + i ==> !unrecognized(f@, j),
                forall|j: int| 0 <= j < i ==> #[trigger] ep@[j] < 12,
                forall|j: int| 0 <= j < i ==> #[trigger] eo@[j] < 2,
                forall|j: int|
                    0 <= j < i ==> fits_edge(f@, j, #[trigger] ep@[j] as int, eo@[j] as int),
            decreases 12 - i,
        {
            match find_edge(f, i) {
                None => {
                    return Err(ConversionError::UnrecognizedPieceConfiguration { slot: i + 8 });
                },
                Some((piece, flip)) => {
                    ep[i] = piece;
                    eo[i] = flip;
                    assert(fits_edge(f@, i as int + 8 - 8, piece as int, flip as int));
                },
            }
            i = i + 1;
        }
        Ok(PieceCube { cp, co, ep, eo })
    }

    /// Whether the cube can be put together: no piece occurs twice, the
    /// twists add up to a multiple of three, the flips to a multiple of two,
    /// and corners and edges are permuted alike, evenly or oddly.
    pub fn is_valid(&self) -> (b: bool)
        requires
            self.wf(),
        ensures
            b == self@.valid(),
    {
        all_distinct(self.cp.as_slice()) && all_distinct(self.ep.as_slice()) && sum_of(
            self.co.as_slice(),
        ) % 3 == 0 && sum_of(self.eo.as_slice()) % 2 == 0 && inversions_of(self.cp.as_slice()) % 2
            == inversions_of(self.ep.as_slice()) % 2
    }

    /// The piece in corner slot `i` and its twist.
    pub fn corner(&self, i: usize) -> (r: (u8, u8))
        requires
            i < 8,
        ensures
            r.0 == self@.cp[i as int],
            r.1 == self@.co[i as int],
    {
        (self.cp[i], self.co[i])
    }

    /// The piece in edge slot `i` and its flip.
    pub fn edge(&self, i: usize) -> (r: (u8, u8))
        requires
            i < 12,
        ensures
            r.0 == self@.ep[i as int],
            r.1 == self@.eo[i as int],
    {
        (self.ep[i], self.eo[i])
    }

    /// Whether every piece is in its own slot, neither twisted nor flipped.
    pub fn is_solved(&self) -> (b: bool)
        ensures
            b == self@.is_solved(),
    {
        let mut i: usize = 0;
        while i < 8
            invariant
                i <= 8,
                forall|j: int| 0 <= j < i ==> self.cp@[j] == j && self.co@[j] == 0,
            decreases 8 - i,
        {
            if self.cp[i] as usize != i || self.co[i] != 0 {
                assert(self@.cp[i as int] != PieceState::solved().cp[i as int] || self@.co[i as int]
                    != PieceState::solved().co[i as int]);
                return false;
            }
            i = i + 1;
        }
        let mut i: usize = 0;
        while i < 12
            invariant
                i <= 12,
                forall|j: int| 0 <= j < 8 ==> self.cp@[j] == j && self.co@[j] == 0,
                forall|j: int| 0 <= j < i ==> self.ep@[j] == j && self.eo@[j] == 0,
            decreases 12 - i,
        {
            if self.ep[i] as usize != i || self.eo[i] != 0 {
                assert(self@.ep[i as int] != PieceState::solved().ep[i as int] || self@.eo[i as int]
                    != PieceState::solved().eo[i as int]);
                return false;
            }
            i = i + 1;
        }
        assert(self@.cp =~= PieceState::solved().cp);
        assert(self@.co =~= PieceState::solved().co);
        assert(self@.ep =~= PieceState::solved().ep);
        assert(self@.eo =~= PieceState::solved().eo);
        true
    }

    fn quarter(&self, face: Face) -> (cube: PieceCube)
        requires
            self.wf(),
        ensures
            cube@ == self@.quarter_turn(face),
            cube.wf(),
    {
        let mut cube = *self;
        let mut i: usize = 0;
        while i < 8
            invariant
                i <= 8,
                self.wf(),
                cube.ep == self.ep,
                cube.eo == self.eo,
                forall|j: int|
                    0 <= j < i ==> cube.cp@[j] == self@.quarter_turn(face).cp[j] && cube.co@[j]
                        == self@.quarter_turn(face).co[j],
            decreases 8 - i,
        {
            let from = corner_source_of(face, i);
            assert(self@.co[from as int] < 3);
            cube.cp[i] = self.cp[from];
            cube.co[i] = (self.co[from] + corner_twist_of(face, i)) % 3;
            i = i + 1;
        }
        let mut i: usize = 0;
        while i < 12
            invariant
                i <= 12,
                self.wf(),
                cube.cp@ =~= self@.quarter_turn(face).cp,
                cube.co@ =~= self@.quarter_turn(face).co,
                forall|j: int|
                    0 <= j < i ==> cube.ep@[j] == self@.quarter_turn(face).ep[j] && cube.eo@[j]
                        == self@.quarter_turn(face).eo[j],
            decreases 12 - i,
        {
            let from = edge_source_of(face, i);
            assert(self@.eo[from as int] < 2);
            cube.ep[i] = self.ep[from];
            cube.eo[i] = (self.eo[from] + edge_flip_of(face, i)) % 2;
            i = i + 1;
        }
        proof {
            assert(cube@.ep =~= self@.quarter_turn(face).ep);
            assert(cube@.eo =~= self@.quarter_turn(face).eo);
            lemma_quarter_turn_wf(self@, face);
        }
        cube
    }

    /// Turns a face.
    pub fn apply_move(self, action: &Move) -> (cube: PieceCube)
        requires
            self.wf(),
        ensures
            cube@ == self@.moved(*action),
            cube.wf(),
    {
        let n = action.turn.quarters();
        let mut cube = self;
        let mut k: u8 = 0;
        while k < n
            invariant
                k <= n,
                cube.wf(),
                cube@ == self@.turned(action.face, k as nat),
            decreases n - k,
        {
            cube = cube.quarter(action.face);
            k = k + 1;
        }
        cube
    }

    /// Turns faces one after the other, from the first move to the last.
    pub fn apply_moves(self, actions: &Vec<Move>) -> (cube: PieceCube)
        requires
            self.wf(),
        ensures
            cube@ == self@.moved_all(actions@),
            cube.wf(),
    {
        let mut cube = self;
        let mut k: usize = 0;
        while k < actions.len()
            invariant
                k <= actions.len(),
                cube.wf(),
                cube@ == self@.moved_all(actions@.take(k as int)),
            decreases actions.len() - k,
        {
            assert(actions@.take(k + 1).drop_last() =~= actions@.take(k as int));
            cube = cube.apply_move(&actions[k]);
            k = k + 1;
        }
        assert(actions@.take(k as int) =~= actions@);
        cube
    }
}

} // verus!
