//! A move and its inverse cancel, on the stickers and on the pieces.

use vstd::prelude::*;
use crate::facelet::quarter_turn;
use crate::facelet::turn_source;
use crate::moves::Face;
use crate::moves::Move;
use crate::piece::PieceState;
use crate::piece::corner_source;
use crate::piece::corner_twist;
use crate::piece::edge_flip;
use crate::piece::edge_source;
use crate::solver::inverse_seq;
use crate::solver::lemma_moved_all_concat;
use crate::solver::lemma_moved_all_wf;

verus! {

/// Following a sticker back through four quarter turns of a face leads to
/// where it started.
proof fn lemma_turn_source_cycles(face: Face, i: int)
    requires
        0 <= i < 54,
    ensures
        0 <= turn_source(face, i) < 54,
        turn_source(face, turn_source(face, turn_source(face, turn_source(face, i)))) == i,
{
}

/// Four quarter turns of a face leave the stickers as they were.
pub proof fn lemma_four_quarters_stickers(s: Seq<char>, face: Face)
    requires
        s.len() == 54,
    ensures
        crate::facelet::turned(s, face, 4) == s,
{
    reveal_with_fuel(crate::facelet::turned, 5);
    let t = crate::facelet::turned(s, face, 4);
    assert forall|i: int| 0 <= i < 54 implies t[i] == s[i] by {
        let a = turn_source(face, i);
        lemma_turn_source_cycles(face, i);
        lemma_turn_source_cycles(face, a);
        let b = turn_source(face, a);
        lemma_turn_source_cycles(face, b);
        let c = turn_source(face, b);
        lemma_turn_source_cycles(face, c);
        assert(quarter_turn(quarter_turn(quarter_turn(s, face), face), face)[a] == quarter_turn(
            quarter_turn(s, face),
            face,
        )[b]);
    }
    assert(t =~= s);
}

/// `m` quarter turns and then `n` more are `m + n` quarter turns.
pub proof fn lemma_turned_stickers_add(s: Seq<char>, face: Face, m: nat, n: nat)
    ensures
        crate::facelet::turned(crate::facelet::turned(s, face, m), face, n)
            == crate::facelet::turned(s, face, m + n),
    decreases n,
{
    if n > 0 {
        lemma_turned_stickers_add(s, face, m, (n - 1) as nat);
    }
}

/// A move and then its inverse leave the stickers as they were.
pub proof fn lemma_inverse_undoes_stickers(s: Seq<char>, m: Move)
    requires
        s.len() == 54,
    ensures
        crate::facelet::moved(crate::facelet::moved(s, m), m.inverse_spec()) == s,
{
    lemma_turned_stickers_add(
        s,
        m.face,
        m.turn.quarters_spec(),
        m.inverse_spec().turn.quarters_spec(),
    );
    lemma_four_quarters_stickers(s, m.face);
}

/// Following a piece back through four quarter turns of a face leads to
/// where it started, and the twists and flips that it met cancel.
proof fn lemma_piece_sources_cycle(face: Face)
    ensures
        forall|i: int|
            0 <= i < 8 ==> {
                let a = #[trigger] corner_source(face, i);
                let b = corner_source(face, a);
                let c = corner_source(face, b);
                &&& 0 <= a < 8
                &&& corner_source(face, c) == i
                &&& (corner_twist(face, i) + corner_twist(face, a) + corner_twist(face, b)
                    + corner_twist(face, c)) % 3 == 0
            },
        forall|i: int|
            0 <= i < 12 ==> {
                let a = #[trigger] edge_source(face, i);
                let b = edge_source(face, a);
                let c = edge_source(face, b);
                &&& 0 <= a < 12
                &&& edge_source(face, c) == i
                &&& (edge_flip(face, i) + edge_flip(face, a) + edge_flip(face, b) + edge_flip(
                    face,
                    c,
                )) % 2 == 0
            },
{
}

/// Twists that add up to a multiple of three, added one after the other
/// and reduced each time, change nothing.
proof fn lemma_twists_cancel(x: int, a: int, b: int, c: int, d: int)
    requires
        0 <= x < 3,
        0 <= a < 3 && 0 <= b < 3 && 0 <= c < 3 && 0 <= d < 3,
        (a + b + c + d) % 3 == 0,
    ensures
        ((((x + a) % 3 + b) % 3 + c) % 3 + d) % 3 == x,
{
}

/// Flips that add up to a multiple of two, added one after the other and
/// reduced each time, change nothing.
proof fn lemma_flips_cancel(x: int, a: int, b: int, c: int, d: int)
    requires
        0 <= x < 2,
        0 <= a < 2 && 0 <= b < 2 && 0 <= c < 2 && 0 <= d < 2,
        (a + b + c + d) % 2 == 0,
    ensures
        ((((x + a) % 2 + b) % 2 + c) % 2 + d) % 2 == x,
{
}

/// Four quarter turns of a face leave the corner in slot `i` as it was.
proof fn lemma_corner_comes_back(p: PieceState, face: Face, i: int)
    requires
        p.wf(),
        0 <= i < 8,
    ensures
        p.quarter_turn(face).quarter_turn(face).quarter_turn(face).quarter_turn(face).cp[i]
            == p.cp[i],
        p.quarter_turn(face).quarter_turn(face).quarter_turn(face).quarter_turn(face).co[i]
            == p.co[i],
{
    let p1 = p.quarter_turn(face);
    let p2 = p1.quarter_turn(face);
    let p3 = p2.quarter_turn(face);
    let p4 = p3.quarter_turn(face);
    lemma_piece_sources_cycle(face);
    let a = corner_source(face, i);
    let b = corner_source(face, a);
    let c = corner_source(face, b);
    assert(0 <= a < 8);
    assert(0 <= b < 8);
    assert(0 <= c < 8);
    assert(corner_source(face, c) == i);
    assert(p1.cp[c] == p.cp[i] && p1.co[c] == (p.co[i] + corner_twist(face, c)) % 3);
    assert(p2.cp[b] == p1.cp[c] && p2.co[b] == (p1.co[c] + corner_twist(face, b)) % 3);
    assert(p3.cp[a] == p2.cp[b] && p3.co[a] == (p2.co[b] + corner_twist(face, a)) % 3);
    assert(p4.cp[i] == p3.cp[a] && p4.co[i] == (p3.co[a] + corner_twist(face, i)) % 3);
    lemma_twists_cancel(
        p.co[i] as int,
        corner_twist(face, c),
        corner_twist(face, b),
        corner_twist(face, a),
        corner_twist(face, i),
    );
}

/// Four quarter turns of a face leave the edge in slot `i` as it was.
proof fn lemma_edge_comes_back(p: PieceState, face: Face, i: int)
    requires
        p.wf(),
        0 <= i < 12,
    ensures
        p.quarter_turn(face).quarter_turn(face).quarter_turn(face).quarter_turn(face).ep[i]
            == p.ep[i],
        p.quarter_turn(face).quarter_turn(face).quarter_turn(face).quarter_turn(face).eo[i]
            == p.eo[i],
{
    let p1 = p.quarter_turn(face);
    let p2 = p1.quarter_turn(face);
    let p3 = p2.quarter_turn(face);
    let p4 = p3.quarter_turn(face);
    lemma_piece_sources_cycle(face);
    let a = edge_source(face, i);
    let b = edge_source(face, a);
    let c = edge_source(face, b);
    assert(0 <= a < 12);
    assert(0 <= b < 12);
    assert(0 <= c < 12);
    assert(edge_source(face, c) == i);
    assert(p1.ep[c] == p.ep[i] && p1.eo[c] == (p.eo[i] + edge_flip(face, c)) % 2);
    assert(p2.ep[b] == p1.ep[c] && p2.eo[b] == (p1.eo[c] + edge_flip(face, b)) % 2);
    assert(p3.ep[a] == p2.ep[b] && p3.eo[a] == (p2.eo[b] + edge_flip(face, a)) % 2);
    assert(p4.ep[i] == p3.ep[a] && p4.eo[i] == (p3.eo[a] + edge_flip(face, i)) % 2);
    lemma_flips_cancel(
        p.eo[i] as int,
        edge_flip(face, c),
        edge_flip(face, b),
        edge_flip(face, a),
        edge_flip(face, i),
    );
}

/// Four quarter turns of a face leave the pieces as they were.
pub proof fn lemma_four_quarters_pieces(p: PieceState, face: Face)
    requires
        p.wf(),
    ensures
        p.turned(face, 4) == p,
{
    reveal_with_fuel(PieceState::turned, 5);
    let p4 = p.quarter_turn(face).quarter_turn(face).quarter_turn(face).quarter_turn(face);
    assert(p.turned(face, 4) == p4);
    assert forall|i: int| 0 <= i < 8 implies p4.cp[i] == p.cp[i] && p4.co[i] == p.co[i] by {
        lemma_corner_comes_back(p, face, i);
    }
    assert forall|i: int| 0 <= i < 12 implies p4.ep[i] == p.ep[i] && p4.eo[i] == p.eo[i] by {
        lemma_edge_comes_back(p, face, i);
    }
    assert(p4.cp =~= p.cp);
    assert(p4.co =~= p.co);
    assert(p4.ep =~= p.ep);
    assert(p4.eo =~= p.eo);
}

/// `m` quarter turns and then `n` more are `m + n` quarter turns.
pub proof fn lemma_turned_pieces_add(p: PieceState, face: Face, m: nat, n: nat)
    ensures
        p.turned(face, m).turned(face, n) == p.turned(face, m + n),
    decreases n,
{
    if n > 0 {
        lemma_turned_pieces_add(p, face, m, (n - 1) as nat);
    }
}

/// A move and then its inverse leave the pieces as they were.
pub proof fn lemma_inverse_undoes_pieces(p: PieceState, m: Move)
    requires
        p.wf(),
    ensures
        p.moved(m).moved(m.inverse_spec()) == p,
{
    lemma_turned_pieces_add(p, m.face, m.turn.quarters_spec(), m.inverse_spec().turn.quarters_spec());
    lemma_four_quarters_pieces(p, m.face);
}

/// A sequence of moves and then its inverse leave the pieces as they were:
/// this is how a setup is undone after a swap.
pub proof fn lemma_inverse_seq_undoes(p: PieceState, ms: Seq<Move>)
    requires
        p.wf(),
    ensures
        p.moved_all(ms).moved_all(inverse_seq(ms)) == p,
    decreases ms.len(),
{
    if ms.len() == 0 {
        assert(inverse_seq(ms) =~= Seq::<Move>::empty());
    } else {
        let init = ms.drop_last();
        let last = ms.last();
        let head = seq![last.inverse_spec()];
        let mid = p.moved_all(init);
        lemma_moved_all_wf(p, init);
        assert(inverse_seq(ms) =~= head + inverse_seq(init));
        lemma_moved_all_concat(mid.moved(last), head, inverse_seq(init));
        assert(head.drop_last() =~= Seq::<Move>::empty());
        assert(mid.moved(last).moved_all(head) == mid.moved(last).moved(last.inverse_spec())) by {
            reveal_with_fuel(PieceState::moved_all, 2);
        }
        lemma_inverse_undoes_pieces(mid, last);
        lemma_inverse_seq_undoes(p, init);
    }
}

} // verus!
