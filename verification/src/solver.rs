//! The solver: pieces are brought home one at a time by swapping them with the
//! piece in a fixed buffer slot.
//!
//! Edges are solved first, with the buffer in slot UR and a swap that
//! exchanges the stickers of UR and UL; corners follow, with the buffer in
//! slot ULB and a swap that exchanges the stickers of ULB and DFR. Before a
//! swap, a few setup moves bring the sticker that the buffer piece belongs
//! on to the place that the swap reaches; after it they are undone.

use vstd::prelude::*;
use crate::moves::Move;
use crate::piece::PieceCube;
use crate::piece::PieceState;
use crate::piece::lemma_turned_wf;
use crate::validity::lemma_solved_valid;

verus! {

/// The most swaps that are tried on the edges.
pub const EDGE_SWAP_LIMIT: usize = 24;

/// The most swaps that are tried on the corners.
pub const CORNER_SWAP_LIMIT: usize = 16;

/// The most moves that one swap takes, with its setup and its undoing.
pub const SHOT_LIMIT: usize = 23;

/// The moves that the places `codes` name.
pub open spec fn moves_of(codes: Seq<u8>) -> Seq<Move> {
    Seq::new(codes.len(), |i: int| Move::from_index_spec(codes[i]))
}

/// The moves that undo `ms`: its moves from the last to the first, each
/// turned the other way.
pub open spec fn inverse_seq(ms: Seq<Move>) -> Seq<Move> {
    Seq::new(ms.len(), |i: int| ms[ms.len() - 1 - i].inverse_spec())
}

/// The edge swap, R U R' U' R' F R2 U' R' U' R U R' F': it exchanges the
/// edges in UR and UL.
pub open spec fn edge_swap_codes() -> Seq<u8> {
    seq![3u8, 0, 5, 2, 5, 6, 4, 2, 5, 2, 3, 0, 5, 8]
}

/// The corner swap, R U' R' U' R U R' F' R U R' U' R' F R: it exchanges
/// the corners in ULB and DFR.
pub open spec fn corner_swap_codes() -> Seq<u8> {
    seq![3u8, 2, 5, 2, 3, 0, 5, 8, 3, 0, 5, 2, 5, 6, 3]
}

/// The setup for sticker `flip` of edge slot `slot`: moves of F, D, L and B,
/// which leave the buffer alone, that bring the sticker to the top of UL.
pub open spec fn edge_setup_codes(slot: u8, flip: u8) -> Seq<u8> {
    match (slot, flip) {
        (1, 0) => seq![7u8, 11, 13],
        (1, 1) => seq![8u8, 14],
        (2, 0) => Seq::empty(),
        (2, 1) => seq![12u8, 8, 11, 13],
        (3, 0) => seq![16u8, 9, 13],
        (3, 1) => seq![15u8, 12],
        (4, 0) => seq![10u8, 13],
        (4, 1) => seq![9u8, 17, 12],
        (5, 0) => seq![11u8, 13],
        (5, 1) => seq![6u8, 14],
        (6, 0) => seq![13u8],
        (6, 1) => seq![9u8, 6, 14],
        (7, 0) => seq![9u8, 13],
        (7, 1) => seq![17u8, 12],
        (8, 0) => seq![7u8, 14],
        (8, 1) => seq![6u8, 11, 13],
        (9, 0) => seq![14u8],
        (9, 1) => seq![8u8, 11, 13],
        (10, 0) => seq![12u8],
        (10, 1) => seq![15u8, 9, 13],
        (11, 0) => seq![16u8, 12],
        (11, 1) => seq![17u8, 9, 13],
        _ => Seq::empty(),
    }
}

/// The setup for sticker `twist` of corner slot `slot`: moves of R, F and D,
/// which leave the buffer alone, that bring the sticker to the right of DFR.
pub open spec fn corner_setup_codes(slot: u8, twist: u8) -> Seq<u8> {
    match (slot, twist) {
        (0, 0) => seq![6u8],
        (0, 1) => seq![5u8],
        (0, 2) => seq![4u8, 11],
        (1, 0) => seq![6u8, 5],
        (1, 1) => seq![8u8, 9],
        (1, 2) => seq![7u8],
        (3, 0) => seq![3u8, 11],
        (3, 1) => seq![5u8, 6],
        (3, 2) => seq![4u8],
        (4, 0) => seq![5u8, 11],
        (4, 1) => seq![3u8, 6],
        (4, 2) => Seq::empty(),
        (5, 0) => seq![8u8],
        (5, 1) => seq![7u8, 5],
        (5, 2) => seq![9u8],
        (6, 0) => seq![9u8, 8],
        (6, 1) => seq![11u8, 3],
        (6, 2) => seq![10u8],
        (7, 0) => seq![4u8, 6],
        (7, 1) => seq![3u8],
        (7, 2) => seq![11u8],
        _ => Seq::empty(),
    }
}

/// A swap with its setup: the setup, the swap, the setup undone.
pub open spec fn shot(setup: Seq<Move>, swap: Seq<Move>) -> Seq<Move> {
    setup + swap + inverse_seq(setup)
}

/// The moves that exchange the buffer edge with sticker `flip` of `slot`.
pub open spec fn edge_shot_spec(slot: u8, flip: u8) -> Seq<Move> {
    shot(moves_of(edge_setup_codes(slot, flip)), moves_of(edge_swap_codes()))
}

/// The moves that exchange the buffer corner with sticker `twist` of `slot`.
pub open spec fn corner_shot_spec(slot: u8, twist: u8) -> Seq<Move> {
    shot(moves_of(corner_setup_codes(slot, twist)), moves_of(corner_swap_codes()))
}

/// Every edge but the buffer's is at home and not flipped.
pub open spec fn edges_placed(p: PieceState) -> bool {
    forall|i: int| 1 <= i < 12 ==> p.ep[i] == i && p.eo[i] == 0
}

/// Every corner but the buffer's is at home and not twisted.
pub open spec fn corners_placed(p: PieceState) -> bool {
    forall|i: int| 0 <= i < 8 && i != 2 ==> p.cp[i] == i && p.co[i] == 0
}

/// The first edge slot after the buffer whose piece is not at home or is
/// flipped.
pub open spec fn first_unplaced_edge(p: PieceState) -> int {
    choose|i: int|
        1 <= i < 12 && !(p.ep[i] == i && p.eo[i] == 0) && forall|j: int|
            1 <= j < i ==> p.ep[j] == j && p.eo[j] == 0
}

/// The first corner slot other than the buffer whose piece is not at home
/// or is twisted.
pub open spec fn first_unplaced_corner(p: PieceState) -> int {
    choose|i: int|
        0 <= i < 8 && i != 2 && !(p.cp[i] == i && p.co[i] == 0) && forall|j: int|
            0 <= j < i && j != 2 ==> p.cp[j] == j && p.co[j] == 0
}

/// The sticker that the next edge swap aims at, as a slot and a sticker of
/// it. While the buffer holds another piece than its own, that is where
/// the buffer piece's top sticker belongs. Else it is the first sticker of the
/// first slot that is not done, and nothing where all are done.
pub open spec fn edge_target_spec(p: PieceState) -> Option<(u8, u8)> {
    if p.ep[0] != 0 {
        Some((p.ep[0], ((2 - p.eo[0]) % 2) as u8))
    } else if edges_placed(p) {
        None
    } else {
        Some((first_unplaced_edge(p) as u8, 0u8))
    }
}

/// The sticker that the next corner swap aims at; as for the edges.
pub open spec fn corner_target_spec(p: PieceState) -> Option<(u8, u8)> {
    if p.cp[2] != 2 {
        Some((p.cp[2], ((3 - p.co[2]) % 3) as u8))
    } else if corners_placed(p) {
        None
    } else {
        Some((first_unplaced_corner(p) as u8, 0u8))
    }
}

/// The moves of the edge swaps, at most `fuel` of them: while there is a
/// target, the swap that aims at it, and then the swaps for the cube that
/// it leaves.
pub open spec fn edge_phase(p: PieceState, fuel: nat) -> Seq<Move>
    decreases fuel,
{
    if fuel == 0 {
        Seq::empty()
    } else {
        match edge_target_spec(p) {
            None => Seq::empty(),
            Some((slot, flip)) => edge_shot_spec(slot, flip) + edge_phase(
                p.moved_all(edge_shot_spec(slot, flip)),
                (fuel - 1) as nat,
            ),
        }
    }
}

/// The moves of the corner swaps, at most `fuel` of them.
pub open spec fn corner_phase(p: PieceState, fuel: nat) -> Seq<Move>
    decreases fuel,
{
    if fuel == 0 {
        Seq::empty()
    } else {
        match corner_target_spec(p) {
            None => Seq::empty(),
            Some((slot, twist)) => corner_shot_spec(slot, twist) + corner_phase(
                p.moved_all(corner_shot_spec(slot, twist)),
                (fuel - 1) as nat,
            ),
        }
    }
}

/// The moves of the edge swaps followed by those of the corner swaps.
pub open spec fn swaps_spec(p: PieceState) -> Seq<Move> {
    let edges = edge_phase(p, EDGE_SWAP_LIMIT as nat);
    edges + corner_phase(p.moved_all(edges), CORNER_SWAP_LIMIT as nat)
}

/// The solution of a cube: nothing for a cube that cannot be put
/// together; else the edge swaps followed by the corner swaps, where they
/// leave the cube solved.
pub open spec fn solution_spec(p: PieceState) -> Option<Seq<Move>> {
    if p.valid() && p.moved_all(swaps_spec(p)).is_solved() {
        Some(swaps_spec(p))
    } else {
        None
    }
}

/// The solved cube needs no move.
pub proof fn lemma_solved_needs_no_move()
    ensures
        solution_spec(PieceState::solved()) == Some(Seq::<Move>::empty()),
{
    let p = PieceState::solved();
    lemma_solved_valid();
    assert(edge_target_spec(p) is None);
    assert(corner_target_spec(p) is None);
    assert(edge_phase(p, EDGE_SWAP_LIMIT as nat) =~= Seq::<Move>::empty());
    assert(p.moved_all(Seq::<Move>::empty()) == p);
    assert(corner_phase(p, CORNER_SWAP_LIMIT as nat) =~= Seq::<Move>::empty());
    assert(swaps_spec(p) =~= Seq::<Move>::empty());
}

/// A solution, played on the cube that it was found for, leaves the solved
/// cube; and only a cube that can be put together has one.
pub proof fn lemma_solution_solves(p: PieceState)
    requires
        p.wf(),
    ensures
        solution_spec(p) matches Some(ms) ==> p.moved_all(ms).is_solved() && p.valid(),
        !p.valid() ==> solution_spec(p) is None,
{
}

/// Moving by `a` and then by `b` is moving by `a + b`.
pub proof fn lemma_moved_all_concat(p: PieceState, a: Seq<Move>, b: Seq<Move>)
    ensures
        p.moved_all(a + b) == p.moved_all(a).moved_all(b),
    decreases b.len(),
{
    if b.len() == 0 {
        assert(a + b =~= a);
    } else {
        lemma_moved_all_concat(p, a, b.drop_last());
        assert((a + b).drop_last() =~= a + b.drop_last());
    }
}

/// Moves keep every entry of a state in its range.
pub proof fn lemma_moved_all_wf(p: PieceState, ms: Seq<Move>)
    requires
        p.wf(),
    ensures
        p.moved_all(ms).wf(),
    decreases ms.len(),
{
    if ms.len() > 0 {
        lemma_moved_all_wf(p, ms.drop_last());
        lemma_turned_wf(p.moved_all(ms.drop_last()), ms.last().face, ms.last().turn.quarters_spec());
    }
}

fn edge_swap_table() -> (v: Vec<u8>)
    ensures
        v@ == edge_swap_codes(),
        forall|i: int| 0 <= i < v@.len() ==> v@[i] < 18,
{
    let v = vec![3u8, 0, 5, 2, 5, 6, 4, 2, 5, 2, 3, 0, 5, 8];
    assert(v@ =~= edge_swap_codes());
    v
}

fn corner_swap_table() -> (v: Vec<u8>)
    ensures
        v@ == corner_swap_codes(),
        forall|i: int| 0 <= i < v@.len() ==> v@[i] < 18,
{
    let v = vec![3u8, 2, 5, 2, 3, 0, 5, 8, 3, 0, 5, 2, 5, 6, 3];
    assert(v@ =~= corner_swap_codes());
    v
}

fn edge_setup_table(slot: u8, flip: u8) -> (v: Vec<u8>)
    ensures
        v@ == edge_setup_codes(slot, flip),
        v@.len() <= 4,
        forall|i: int| 0 <= i < v@.len() ==> v@[i] < 18,
{
    let v = match (slot, flip) {
        (1, 0) => vec![7u8, 11, 13],
        (1, 1) => vec![8u8, 14],
        (2, 0) => Vec::new(),
        (2, 1) => vec![12u8, 8, 11, 13],
        (3, 0) => vec![16u8, 9, 13],
        (3, 1) => vec![15u8, 12],
        (4, 0) => vec![10u8, 13],
        (4, 1) => vec![9u8, 17, 12],
        (5, 0) => vec![11u8, 13],
        (5, 1) => vec![6u8, 14],
        (6, 0) => vec![13u8],
        (6, 1) => vec![9u8, 6, 14],
        (7, 0) => vec![9u8, 13],
        (7, 1) => vec![17u8, 12],
        (8, 0) => vec![7u8, 14],
        (8, 1) => vec![6u8, 11, 13],
        (9, 0) => vec![14u8],
        (9, 1) => vec![8u8, 11, 13],
        (10, 0) => vec![12u8],
        (10, 1) => vec![15u8, 9, 13],
        (11, 0) => vec![16u8, 12],
        (11, 1) => vec![17u8, 9, 13],
        _ => Vec::new(),
    };
    assert(v@ =~= edge_setup_codes(slot, flip));
    v
}

fn corner_setup_table(slot: u8, twist: u8) -> (v: Vec<u8>)
    ensures
        v@ == corner_setup_codes(slot, twist),
        v@.len() <= 4,
        forall|i: int| 0 <= i < v@.len() ==> v@[i] < 18,
{
    let v = match (slot, twist) {
        (0, 0) => vec![6u8],
        (0, 1) => vec![5u8],
        (0, 2) => vec![4u8, 11],
        (1, 0) => vec![6u8, 5],
        (1, 1) => vec![8u8, 9],
        (1, 2) => vec![7u8],
        (3, 0) => vec![3u8, 11],
        (3, 1) => vec![5u8, 6],
        (3, 2) => vec![4u8],
        (4, 0) => vec![5u8, 11],
        (4, 1) => vec![3u8, 6],
        (4, 2) => Vec::new(),
        (5, 0) => vec![8u8],
        (5, 1) => vec![7u8, 5],
        (5, 2) => vec![9u8],
        (6, 0) => vec![9u8, 8],
        (6, 1) => vec![11u8, 3],
        (6, 2) => vec![10u8],
        (7, 0) => vec![4u8, 6],
        (7, 1) => vec![3u8],
        (7, 2) => vec![11u8],
        _ => Vec::new(),
    };
    assert(v@ =~= corner_setup_codes(slot, twist));
    v
}

fn decode(codes: &Vec<u8>) -> (ms: Vec<Move>)
    requires
        forall|i: int| 0 <= i < codes@.len() ==> codes@[i] < 18,
    ensures
        ms@ == moves_of(codes@),
{
    let mut ms: Vec<Move> = Vec::new();
    let mut i: usize = 0;
    while i < codes.len()
        invariant
            i <= codes.len(),
            forall|i: int| 0 <= i < codes@.len() ==> codes@[i] < 18,
            ms@.len() == i,
            forall|j: int| 0 <= j < i ==> ms@[j] == Move::from_index_spec(codes@[j]),
        decreases codes.len() - i,
    {
        ms.push(Move::from_index(codes[i]));
        i = i + 1;
    }
    assert(ms@ =~= moves_of(codes@));
    ms
}

/// The moves that undo `ms`.
pub fn inverse_moves(ms: &Vec<Move>) -> (inv: Vec<Move>)
    ensures
        inv@ == inverse_seq(ms@),
{
    let mut inv: Vec<Move> = Vec::new();
    let n = ms.len();
    let mut i: usize = 0;
    while i < n
        invariant
            n == ms.len(),
            i <= n,
            inv@.len() == i,
            forall|j: int| 0 <= j < i ==> inv@[j] == ms@[n - 1 - j].inverse_spec(),
        decreases n - i,
    {
        inv.push(ms[n - 1 - i].inverse());
        i = i + 1;
    }
    assert(inv@ =~= inverse_seq(ms@));
    inv
}

fn assemble(setup: &Vec<Move>, swap: &Vec<Move>) -> (ms: Vec<Move>)
    ensures
        ms@ == shot(setup@, swap@),
{
    let mut ms: Vec<Move> = Vec::new();
    let undo = inverse_moves(setup);
    let mut i: usize = 0;
    while i < setup.len()
        invariant
            i <= setup.len(),
            ms@ == setup@.take(i as int),
        decreases setup.len() - i,
    {
        ms.push(setup[i]);
        assert(setup@.take(i + 1) =~= setup@.take(i as int).push(setup@[i as int]));
        i = i + 1;
    }
    assert(setup@.take(setup@.len() as int) =~= setup@);
    let mut i: usize = 0;
    while i < swap.len()
        invariant
            i <= swap.len(),
            ms@ == setup@ + swap@.take(i as int),
        decreases swap.len() - i,
    {
        ms.push(swap[i]);
        assert(setup@ + swap@.take(i + 1) =~= (setup@ + swap@.take(i as int)).push(
            swap@[i as int],
        ));
        i = i + 1;
    }
    assert(swap@.take(swap@.len() as int) =~= swap@);
    let mut i: usize = 0;
    while i < undo.len()
        invariant
            i <= undo.len(),
            ms@ == setup@ + swap@ + undo@.take(i as int),
        decreases undo.len() - i,
    {
        ms.push(undo[i]);
        assert(setup@ + swap@ + undo@.take(i + 1) =~= (setup@ + swap@ + undo@.take(
            i as int,
        )).push(undo@[i as int]));
        i = i + 1;
    }
    assert(undo@.take(undo@.len() as int) =~= undo@);
    ms
}

/// The moves that exchange the buffer edge with sticker `flip` of `slot`.
pub fn edge_shot(slot: u8, flip: u8) -> (ms: Vec<Move>)
    ensures
        ms@ == edge_shot_spec(slot, flip),
        ms@.len() <= SHOT_LIMIT,
{
    let setup = decode(&edge_setup_table(slot, flip));
    let swap = decode(&edge_swap_table());
    assemble(&setup, &swap)
}

/// The moves that exchange the buffer corner with sticker `twist` of `slot`.
pub fn corner_shot(slot: u8, twist: u8) -> (ms: Vec<Move>)
    ensures
        ms@ == corner_shot_spec(slot, twist),
        ms@.len() <= SHOT_LIMIT,
{
    let setup = decode(&corner_setup_table(slot, twist));
    let swap = decode(&corner_swap_table());
    assemble(&setup, &swap)
}

/// The sticker that the next edge swap aims at.
pub fn next_edge_target(cube: &PieceCube) -> (r: Option<(u8, u8)>)
    requires
        cube.wf(),
    ensures
        r == edge_target_spec(cube@),
{
    let (piece, flip) = cube.edge(0);
    if piece != 0 {
        return Some((piece, (2 - flip) % 2));
    }
    let mut i: usize = 1;
    while i < 12
        invariant
            1 <= i <= 12,
            cube.wf(),
            cube@.ep[0] == 0,
            forall|j: int| 1 <= j < i ==> cube@.ep[j] == j && cube@.eo[j] == 0,
        decreases 12 - i,
    {
        let (piece, flip) = cube.edge(i);
        if piece as usize != i || flip != 0 {
            assert(!edges_placed(cube@));
            assert(first_unplaced_edge(cube@) == i);
            return Some((i as u8, 0));
        }
        i = i + 1;
    }
    None
}

/// The sticker that the next corner swap aims at.
pub fn next_corner_target(cube: &PieceCube) -> (r: Option<(u8, u8)>)
    requires
        cube.wf(),
    ensures
        r == corner_target_spec(cube@),
{
    let (piece, twist) = cube.corner(2);
    if piece != 2 {
        return Some((piece, (3 - twist) % 3));
    }
    let mut i: usize = 0;
    while i < 8
        invariant
            0 <= i <= 8,
            cube.wf(),
            cube@.cp[2] == 2,
            forall|j: int| 0 <= j < i && j != 2 ==> cube@.cp[j] == j && cube@.co[j] == 0,
        decreases 8 - i,
    {
        let (piece, twist) = cube.corner(i);
        if i != 2 && (piece as usize != i || twist != 0) {
            assert(!corners_placed(cube@));
            assert(first_unplaced_corner(cube@) == i);
            return Some((i as u8, 0));
        }
        i = i + 1;
    }
    None
}

/// Plays `more` on `cube` and writes it down behind `done`.
fn play(cube: PieceCube, done: &mut Vec<Move>, more: &Vec<Move>) -> (r: PieceCube)
    requires
        cube.wf(),
    ensures
        r.wf(),
        r@ == cube@.moved_all(more@),
        final(done)@ == old(done)@ + more@,
{
    let mut work = cube;
    let mut i: usize = 0;
    while i < more.len()
        invariant
            i <= more.len(),
            work.wf(),
            work@ == cube@.moved_all(more@.take(i as int)),
            done@ == old(done)@ + more@.take(i as int),
        decreases more.len() - i,
    {
        assert(more@.take(i + 1).drop_last() =~= more@.take(i as int));
        assert(old(done)@ + more@.take(i + 1) =~= (old(done)@ + more@.take(i as int)).push(
            more@[i as int],
        ));
        work = work.apply_move(&more[i]);
        done.push(more[i]);
        i = i + 1;
    }
    assert(more@.take(more@.len() as int) =~= more@);
    work
}

/// Solves the cube by the edge swaps and then the corner swaps. The moves
/// that are returned, played on `cube`, leave it solved. A solved cube
/// needs no move. Nothing is returned for a cube that cannot be put
/// together, nor where the swaps do not end on the solved cube.
pub fn solve(cube: &PieceCube) -> (r: Option<Vec<Move>>)
    requires
        cube.wf(),
    ensures
        match r {
            Some(ms) => solution_spec(cube@) == Some(ms@),
            None => solution_spec(cube@) is None,
        },
        r matches Some(ms) ==> cube@.moved_all(ms@).is_solved(),
        r matches Some(ms) ==> ms@.len() <= (EDGE_SWAP_LIMIT + CORNER_SWAP_LIMIT) * SHOT_LIMIT,
        cube@.is_solved() ==> (r matches Some(ms) && ms@.len() == 0),
        !cube@.valid() ==> r is None,
{
    if !cube.is_valid() {
        proof {
            lemma_solved_valid();
        }
        return None;
    }
    let mut work = *cube;
    let mut done: Vec<Move> = Vec::new();
    let mut swaps: usize = 0;
    let mut more = true;
    assert(done@ + edge_phase(work@, EDGE_SWAP_LIMIT as nat) =~= edge_phase(
        cube@,
        EDGE_SWAP_LIMIT as nat,
    ));
    while more && swaps < EDGE_SWAP_LIMIT
        invariant
            swaps <= EDGE_SWAP_LIMIT,
            work.wf(),
            work@ == cube@.moved_all(done@),
            done@.len() <= swaps * SHOT_LIMIT,
            cube@.is_solved() ==> done@.len() == 0,
            !more ==> edge_target_spec(work@) is None,
            done@ + edge_phase(work@, (EDGE_SWAP_LIMIT - swaps) as nat) == edge_phase(
                cube@,
                EDGE_SWAP_LIMIT as nat,
            ),
        decreases EDGE_SWAP_LIMIT - swaps + if more { 1int } else { 0int },
    {
        match next_edge_target(&work) {
            None => {
                more = false;
            },
            Some((slot, flip)) => {
                let shot = edge_shot(slot, flip);
                proof {
                    lemma_moved_all_concat(cube@, done@, shot@);
                    assert((done@ + shot@) + edge_phase(
                        work@.moved_all(shot@),
                        (EDGE_SWAP_LIMIT - swaps - 1) as nat,
                    ) =~= done@ + edge_phase(work@, (EDGE_SWAP_LIMIT - swaps) as nat));
                }
                work = play(work, &mut done, &shot);
                swaps = swaps + 1;
            },
        }
    }
    assert(done@ =~= edge_phase(cube@, EDGE_SWAP_LIMIT as nat));
    let ghost edges = done@;
    let ghost middle = work@;
    let mut swaps: usize = 0;
    let mut more = true;
    assert(done@ =~= edges + Seq::<Move>::empty());
    while more && swaps < CORNER_SWAP_LIMIT
        invariant
            swaps <= CORNER_SWAP_LIMIT,
            work.wf(),
            work@ == cube@.moved_all(done@),
            edges.len() <= EDGE_SWAP_LIMIT * SHOT_LIMIT,
            done@.len() <= edges.len() + swaps * SHOT_LIMIT,
            cube@.is_solved() ==> done@.len() == 0,
            !more ==> corner_target_spec(work@) is None,
            exists|part: Seq<Move>|
                #![trigger edges + part]
                done@ == edges + part && part + corner_phase(
                    work@,
                    (CORNER_SWAP_LIMIT - swaps) as nat,
                ) == corner_phase(middle, CORNER_SWAP_LIMIT as nat),
        decreases CORNER_SWAP_LIMIT - swaps + if more { 1int } else { 0int },
    {
        match next_corner_target(&work) {
            None => {
                more = false;
            },
            Some((slot, twist)) => {
                let shot = corner_shot(slot, twist);
                proof {
                    lemma_moved_all_concat(cube@, done@, shot@);
                    let part = choose|part: Seq<Move>|
                        #![trigger edges + part]
                        done@ == edges + part && part + corner_phase(
                            work@,
                            (CORNER_SWAP_LIMIT - swaps) as nat,
                        ) == corner_phase(middle, CORNER_SWAP_LIMIT as nat);
                    assert(done@ + shot@ =~= edges + (part + shot@));
                    assert((part + shot@) + corner_phase(
                        work@.moved_all(shot@),
                        (CORNER_SWAP_LIMIT - swaps - 1) as nat,
                    ) =~= part + corner_phase(work@, (CORNER_SWAP_LIMIT - swaps) as nat));
                }
                work = play(work, &mut done, &shot);
                swaps = swaps + 1;
            },
        }
    }
    proof {
        let part = choose|part: Seq<Move>|
            #![trigger edges + part]
            done@ == edges + part && part + corner_phase(
                work@,
                (CORNER_SWAP_LIMIT - swaps) as nat,
            ) == corner_phase(middle, CORNER_SWAP_LIMIT as nat);
        assert(part =~= corner_phase(middle, CORNER_SWAP_LIMIT as nat));
        assert(done@ == swaps_spec(cube@));
    }
    if work.is_solved() {
        Some(done)
    } else {
        None
    }
}

} // verus!
