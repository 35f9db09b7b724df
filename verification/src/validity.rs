//! Moves keep a cube one that can be put together.

use vstd::prelude::*;
use crate::moves::Face;
use crate::moves::Move;
use crate::piece::PieceState;
use crate::piece::above;
use crate::piece::corner_source;
use crate::piece::corner_twist;
use crate::piece::edge_flip;
use crate::piece::distinct;
use crate::piece::edge_source;
use crate::piece::inversions;
use crate::piece::larger_before;
use crate::piece::lemma_quarter_turn_wf;
use crate::piece::total;

verus! {

/// Of two different entries exactly one is above the other.
proof fn lemma_above_either(s: Seq<u8>)
    requires
        distinct(s),
    ensures
        forall|a: int, b: int|
            0 <= a < s.len() && 0 <= b < s.len() && a != b ==> #[trigger] above(s, a, b) + above(
                s,
                b,
                a,
            ) == 1,
        forall|a: int, b: int| 0 <= #[trigger] above(s, a, b) <= 1,
{
    reveal(above);
    assert forall|a: int, b: int|
        0 <= a < s.len() && 0 <= b < s.len() && a != b implies #[trigger] above(s, a, b) + above(
        s,
        b,
        a,
    ) == 1 by {
        if a < b {
            assert(s[a] != s[b]);
        } else {
            assert(s[b] != s[a]);
        }
    }
}

/// The inversions of eight entries, written out.
proof fn lemma_inversions_8(s: Seq<u8>)
    ensures
        inversions(s, 8) == above(s, 0, 1) + above(s, 0, 2) + above(s, 1, 2) + above(s, 0, 3) + above(s, 1, 3) + above(s, 2, 3) + above(s, 0, 4) + above(s, 1, 4) + above(s, 2, 4) + above(s, 3, 4) + above(s, 0, 5) + above(s, 1, 5) + above(s, 2, 5) + above(s, 3, 5) + above(s, 4, 5) + above(s, 0, 6) + above(s, 1, 6) + above(s, 2, 6) + above(s, 3, 6) + above(s, 4, 6) + above(s, 5, 6) + above(s, 0, 7) + above(s, 1, 7) + above(s, 2, 7) + above(s, 3, 7) + above(s, 4, 7) + above(s, 5, 7) + above(s, 6, 7),
{
    reveal_with_fuel(inversions, 9);
    reveal_with_fuel(larger_before, 9);
}

/// The inversions of twelve entries, written out.
proof fn lemma_inversions_12(s: Seq<u8>)
    ensures
        inversions(s, 12) == above(s, 0, 1) + above(s, 0, 2) + above(s, 1, 2) + above(s, 0, 3) + above(s, 1, 3) + above(s, 2, 3) + above(s, 0, 4) + above(s, 1, 4) + above(s, 2, 4) + above(s, 3, 4) + above(s, 0, 5) + above(s, 1, 5) + above(s, 2, 5) + above(s, 3, 5) + above(s, 4, 5) + above(s, 0, 6) + above(s, 1, 6) + above(s, 2, 6) + above(s, 3, 6) + above(s, 4, 6) + above(s, 5, 6) + above(s, 0, 7) + above(s, 1, 7) + above(s, 2, 7) + above(s, 3, 7) + above(s, 4, 7) + above(s, 5, 7) + above(s, 6, 7) + above(s, 0, 8) + above(s, 1, 8) + above(s, 2, 8) + above(s, 3, 8) + above(s, 4, 8) + above(s, 5, 8) + above(s, 6, 8) + above(s, 7, 8) + above(s, 0, 9) + above(s, 1, 9) + above(s, 2, 9) + above(s, 3, 9) + above(s, 4, 9) + above(s, 5, 9) + above(s, 6, 9) + above(s, 7, 9) + above(s, 8, 9) + above(s, 0, 10) + above(s, 1, 10) + above(s, 2, 10) + above(s, 3, 10) + above(s, 4, 10) + above(s, 5, 10) + above(s, 6, 10) + above(s, 7, 10) + above(s, 8, 10) + above(s, 9, 10) + above(s, 0, 11) + above(s, 1, 11) + above(s, 2, 11) + above(s, 3, 11) + above(s, 4, 11) + above(s, 5, 11) + above(s, 6, 11) + above(s, 7, 11) + above(s, 8, 11) + above(s, 9, 11) + above(s, 10, 11),
{
    reveal_with_fuel(inversions, 13);
    reveal_with_fuel(larger_before, 13);
}

/// The sum of eight entries, written out.
proof fn lemma_total_8(s: Seq<u8>)
    ensures
        total(s, 8) == s[0] + s[1] + s[2] + s[3] + s[4] + s[5] + s[6] + s[7],
{
    reveal_with_fuel(total, 9);
}

/// The sum of twelve entries, written out.
proof fn lemma_total_12(s: Seq<u8>)
    ensures
        total(s, 12) == s[0] + s[1] + s[2] + s[3] + s[4] + s[5] + s[6] + s[7] + s[8] + s[9] + s[10] + s[11],
{
    reveal_with_fuel(total, 13);
}

/// A quarter turn of U permutes the corners oddly: it changes whether
/// the number of inversions is even.
#[verifier::rlimit(60)]
proof fn lemma_corner_parity_flips_u(p: PieceState)
    requires
        p.wf(),
        distinct(p.cp),
    ensures
        inversions(p.quarter_turn(Face::U).cp, 8) % 2 != inversions(p.cp, 8) % 2,
{
    let q = p.quarter_turn(Face::U).cp;
    lemma_above_either(p.cp);
    assert forall|k: int, j: int| 0 <= k < 8 && 0 <= j < 8 implies #[trigger] above(q, k, j)
        == above(p.cp, corner_source(Face::U, k), corner_source(Face::U, j)) by {
        reveal(above);
    }
    lemma_inversions_8(q);
    lemma_inversions_8(p.cp);
}

/// A quarter turn of U permutes the edges oddly.
#[verifier::rlimit(60)]
proof fn lemma_edge_parity_flips_u(p: PieceState)
    requires
        p.wf(),
        distinct(p.ep),
    ensures
        inversions(p.quarter_turn(Face::U).ep, 12) % 2 != inversions(p.ep, 12) % 2,
{
    let q = p.quarter_turn(Face::U).ep;
    lemma_above_either(p.ep);
    assert forall|k: int, j: int| 0 <= k < 12 && 0 <= j < 12 implies #[trigger] above(q, k, j)
        == above(p.ep, edge_source(Face::U, k), edge_source(Face::U, j)) by {
        reveal(above);
    }
    lemma_inversions_12(q);
    lemma_inversions_12(p.ep);
}

/// A quarter turn of R permutes the corners oddly: it changes whether
/// the number of inversions is even.
#[verifier::rlimit(60)]
proof fn lemma_corner_parity_flips_r(p: PieceState)
    requires
        p.wf(),
        distinct(p.cp),
    ensures
        inversions(p.quarter_turn(Face::R).cp, 8) % 2 != inversions(p.cp, 8) % 2,
{
    let q = p.quarter_turn(Face::R).cp;
    lemma_above_either(p.cp);
    assert forall|k: int, j: int| 0 <= k < 8 && 0 <= j < 8 implies #[trigger] above(q, k, j)
        == above(p.cp, corner_source(Face::R, k), corner_source(Face::R, j)) by {
        reveal(above);
    }
    lemma_inversions_8(q);
    lemma_inversions_8(p.cp);
}

/// A quarter turn of R permutes the edges oddly.
#[verifier::rlimit(60)]
proof fn lemma_edge_parity_flips_r(p: PieceState)
    requires
        p.wf(),
        distinct(p.ep),
    ensures
        inversions(p.quarter_turn(Face::R).ep, 12) % 2 != inversions(p.ep, 12) % 2,
{
    let q = p.quarter_turn(Face::R).ep;
    lemma_above_either(p.ep);
    assert forall|k: int, j: int| 0 <= k < 12 && 0 <= j < 12 implies #[trigger] above(q, k, j)
        == above(p.ep, edge_source(Face::R, k), edge_source(Face::R, j)) by {
        reveal(above);
    }
    lemma_inversions_12(q);
    lemma_inversions_12(p.ep);
}

/// A quarter turn of F permutes the corners oddly: it changes whether
/// the number of inversions is even.
#[verifier::rlimit(60)]
proof fn lemma_corner_parity_flips_f(p: PieceState)
    requires
        p.wf(),
        distinct(p.cp),
    ensures
        inversions(p.quarter_turn(Face::F).cp, 8) % 2 != inversions(p.cp, 8) % 2,
{
    let q = p.quarter_turn(Face::F).cp;
    lemma_above_either(p.cp);
    assert forall|k: int, j: int| 0 <= k < 8 && 0 <= j < 8 implies #[trigger] above(q, k, j)
        == above(p.cp, corner_source(Face::F, k), corner_source(Face::F, j)) by {
        reveal(above);
    }
    lemma_inversions_8(q);
    lemma_inversions_8(p.cp);
}

/// A quarter turn of F permutes the edges oddly.
#[verifier::rlimit(60)]
proof fn lemma_edge_parity_flips_f(p: PieceState)
    requires
        p.wf(),
        distinct(p.ep),
    ensures
        inversions(p.quarter_turn(Face::F).ep, 12) % 2 != inversions(p.ep, 12) % 2,
{
    let q = p.quarter_turn(Face::F).ep;
    lemma_above_either(p.ep);
    assert forall|k: int, j: int| 0 <= k < 12 && 0 <= j < 12 implies #[trigger] above(q, k, j)
        == above(p.ep, edge_source(Face::F, k), edge_source(Face::F, j)) by {
        reveal(above);
    }
    lemma_inversions_12(q);
    lemma_inversions_12(p.ep);
}

/// A quarter turn of D permutes the corners oddly: it changes whether
/// the number of inversions is even.
#[verifier::rlimit(60)]
proof fn lemma_corner_parity_flips_d(p: PieceState)
    requires
        p.wf(),
        distinct(p.cp),
    ensures
        inversions(p.quarter_turn(Face::D).cp, 8) % 2 != inversions(p.cp, 8) % 2,
{
    let q = p.quarter_turn(Face::D).cp;
    lemma_above_either(p.cp);
    assert forall|k: int, j: int| 0 <= k < 8 && 0 <= j < 8 implies #[trigger] above(q, k, j)
        == above(p.cp, corner_source(Face::D, k), corner_source(Face::D, j)) by {
        reveal(above);
    }
    lemma_inversions_8(q);
    lemma_inversions_8(p.cp);
}

/// A quarter turn of D permutes the edges oddly.
#[verifier::rlimit(60)]
proof fn lemma_edge_parity_flips_d(p: PieceState)
    requires
        p.wf(),
        distinct(p.ep),
    ensures
        inversions(p.quarter_turn(Face::D).ep, 12) % 2 != inversions(p.ep, 12) % 2,
{
    let q = p.quarter_turn(Face::D).ep;
    lemma_above_either(p.ep);
    assert forall|k: int, j: int| 0 <= k < 12 && 0 <= j < 12 implies #[trigger] above(q, k, j)
        == above(p.ep, edge_source(Face::D, k), edge_source(Face::D, j)) by {
        reveal(above);
    }
    lemma_inversions_12(q);
    lemma_inversions_12(p.ep);
}

/// A quarter turn of L permutes the corners oddly: it changes whether
/// the number of inversions is even.
#[verifier::rlimit(60)]
proof fn lemma_corner_parity_flips_l(p: PieceState)
    requires
        p.wf(),
        distinct(p.cp),
    ensures
        inversions(p.quarter_turn(Face::L).cp, 8) % 2 != inversions(p.cp, 8) % 2,
{
    let q = p.quarter_turn(Face::L).cp;
    lemma_above_either(p.cp);
    assert forall|k: int, j: int| 0 <= k < 8 && 0 <= j < 8 implies #[trigger] above(q, k, j)
        == above(p.cp, corner_source(Face::L, k), corner_source(Face::L, j)) by {
        reveal(above);
    }
    lemma_inversions_8(q);
    lemma_inversions_8(p.cp);
}

/// A quarter turn of L permutes the edges oddly.
#[verifier::rlimit(60)]
proof fn lemma_edge_parity_flips_l(p: PieceState)
    requires
        p.wf(),
        distinct(p.ep),
    ensures
        inversions(p.quarter_turn(Face::L).ep, 12) % 2 != inversions(p.ep, 12) % 2,
{
    let q = p.quarter_turn(Face::L).ep;
    lemma_above_either(p.ep);
    assert forall|k: int, j: int| 0 <= k < 12 && 0 <= j < 12 implies #[trigger] above(q, k, j)
        == above(p.ep, edge_source(Face::L, k), edge_source(Face::L, j)) by {
        reveal(above);
    }
    lemma_inversions_12(q);
    lemma_inversions_12(p.ep);
}

/// A quarter turn of B permutes the corners oddly: it changes whether
/// the number of inversions is even.
#[verifier::rlimit(60)]
proof fn lemma_corner_parity_flips_b(p: PieceState)
    requires
        p.wf(),
        distinct(p.cp),
    ensures
        inversions(p.quarter_turn(Face::B).cp, 8) % 2 != inversions(p.cp, 8) % 2,
{
    let q = p.quarter_turn(Face::B).cp;
    lemma_above_either(p.cp);
    assert forall|k: int, j: int| 0 <= k < 8 && 0 <= j < 8 implies #[trigger] above(q, k, j)
        == above(p.cp, corner_source(Face::B, k), corner_source(Face::B, j)) by {
        reveal(above);
    }
    lemma_inversions_8(q);
    lemma_inversions_8(p.cp);
}

/// A quarter turn of B permutes the edges oddly.
#[verifier::rlimit(60)]
proof fn lemma_edge_parity_flips_b(p: PieceState)
    requires
        p.wf(),
        distinct(p.ep),
    ensures
        inversions(p.quarter_turn(Face::B).ep, 12) % 2 != inversions(p.ep, 12) % 2,
{
    let q = p.quarter_turn(Face::B).ep;
    lemma_above_either(p.ep);
    assert forall|k: int, j: int| 0 <= k < 12 && 0 <= j < 12 implies #[trigger] above(q, k, j)
        == above(p.ep, edge_source(Face::B, k), edge_source(Face::B, j)) by {
        reveal(above);
    }
    lemma_inversions_12(q);
    lemma_inversions_12(p.ep);
}

/// A quarter turn changes whether the corners are permuted evenly, and
/// whether the edges are.
proof fn lemma_parity_flips(p: PieceState, face: Face)
    requires
        p.wf(),
        distinct(p.cp),
        distinct(p.ep),
    ensures
        inversions(p.quarter_turn(face).cp, 8) % 2 != inversions(p.cp, 8) % 2,
        inversions(p.quarter_turn(face).ep, 12) % 2 != inversions(p.ep, 12) % 2,
{
    match face {
        Face::U => {
            lemma_corner_parity_flips_u(p);
            lemma_edge_parity_flips_u(p);
        },
        Face::R => {
            lemma_corner_parity_flips_r(p);
            lemma_edge_parity_flips_r(p);
        },
        Face::F => {
            lemma_corner_parity_flips_f(p);
            lemma_edge_parity_flips_f(p);
        },
        Face::D => {
            lemma_corner_parity_flips_d(p);
            lemma_edge_parity_flips_d(p);
        },
        Face::L => {
            lemma_corner_parity_flips_l(p);
            lemma_edge_parity_flips_l(p);
        },
        Face::B => {
            lemma_corner_parity_flips_b(p);
            lemma_edge_parity_flips_b(p);
        },
    }
}

/// What a quarter turn brings to the corner slots is what was there, in
/// another order; the twists that it adds come to a multiple of three.
proof fn lemma_corner_sources_sum(s: Seq<u8>, face: Face)
    requires
        s.len() == 8,
    ensures
        s[corner_source(face, 0)] + s[corner_source(face, 1)] + s[corner_source(face, 2)] + s[corner_source(face, 3)] + s[corner_source(face, 4)] + s[corner_source(face, 5)] + s[corner_source(face, 6)] + s[corner_source(face, 7)] == s[0] + s[1] + s[2] + s[3] + s[4] + s[5] + s[6] + s[7],
        (corner_twist(face, 0) + corner_twist(face, 1) + corner_twist(face, 2) + corner_twist(face, 3) + corner_twist(face, 4) + corner_twist(face, 5) + corner_twist(face, 6) + corner_twist(face, 7)) % 3 == 0,
{
}

/// What a quarter turn brings to the edge slots is what was there, in
/// another order; the flips that it adds come to a multiple of two.
proof fn lemma_edge_sources_sum(s: Seq<u8>, face: Face)
    requires
        s.len() == 12,
    ensures
        s[edge_source(face, 0)] + s[edge_source(face, 1)] + s[edge_source(face, 2)] + s[edge_source(face, 3)] + s[edge_source(face, 4)] + s[edge_source(face, 5)] + s[edge_source(face, 6)] + s[edge_source(face, 7)] + s[edge_source(face, 8)] + s[edge_source(face, 9)] + s[edge_source(face, 10)] + s[edge_source(face, 11)] == s[0] + s[1] + s[2] + s[3] + s[4] + s[5] + s[6] + s[7] + s[8] + s[9] + s[10] + s[11],
        (edge_flip(face, 0) + edge_flip(face, 1) + edge_flip(face, 2) + edge_flip(face, 3) + edge_flip(face, 4) + edge_flip(face, 5) + edge_flip(face, 6) + edge_flip(face, 7) + edge_flip(face, 8) + edge_flip(face, 9) + edge_flip(face, 10) + edge_flip(face, 11)) % 2 == 0,
{
}

/// Twists that are, up to threes, what was there in another order and a
/// multiple of three more, add up to a multiple of three as before.
proof fn lemma_twist_sum(q: Seq<u8>, x: Seq<int>, t: Seq<int>, before: int)
    requires
        q.len() == 8,
        x.len() == 8,
        t.len() == 8,
        forall|i: int| 0 <= i < 8 ==> #[trigger] q[i] == (x[i] + t[i]) % 3,
        x[0] + x[1] + x[2] + x[3] + x[4] + x[5] + x[6] + x[7] == before,
        (t[0] + t[1] + t[2] + t[3] + t[4] + t[5] + t[6] + t[7]) % 3 == 0,
        before % 3 == 0,
    ensures
        total(q, 8) % 3 == 0,
{
    lemma_total_8(q);
    assert(q[0] == (x[0] + t[0]) % 3 && q[1] == (x[1] + t[1]) % 3);
    assert(q[2] == (x[2] + t[2]) % 3 && q[3] == (x[3] + t[3]) % 3);
    assert(q[4] == (x[4] + t[4]) % 3 && q[5] == (x[5] + t[5]) % 3);
    assert(q[6] == (x[6] + t[6]) % 3 && q[7] == (x[7] + t[7]) % 3);
}

/// Flips that are, up to twos, what was there in another order and a
/// multiple of two more, add up to a multiple of two as before.
proof fn lemma_flip_sum(q: Seq<u8>, x: Seq<int>, t: Seq<int>, before: int)
    requires
        q.len() == 12,
        x.len() == 12,
        t.len() == 12,
        forall|i: int| 0 <= i < 12 ==> #[trigger] q[i] == (x[i] + t[i]) % 2,
        x[0] + x[1] + x[2] + x[3] + x[4] + x[5] + x[6] + x[7] + x[8] + x[9] + x[10] + x[11] == before,
        (t[0] + t[1] + t[2] + t[3] + t[4] + t[5] + t[6] + t[7] + t[8] + t[9] + t[10] + t[11]) % 2 == 0,
        before % 2 == 0,
    ensures
        total(q, 12) % 2 == 0,
{
    lemma_total_12(q);
    assert(q[0] == (x[0] + t[0]) % 2 && q[1] == (x[1] + t[1]) % 2);
    assert(q[2] == (x[2] + t[2]) % 2 && q[3] == (x[3] + t[3]) % 2);
    assert(q[4] == (x[4] + t[4]) % 2 && q[5] == (x[5] + t[5]) % 2);
    assert(q[6] == (x[6] + t[6]) % 2 && q[7] == (x[7] + t[7]) % 2);
    assert(q[8] == (x[8] + t[8]) % 2 && q[9] == (x[9] + t[9]) % 2);
    assert(q[10] == (x[10] + t[10]) % 2 && q[11] == (x[11] + t[11]) % 2);
}

/// A quarter turn keeps the twists a multiple of three.
proof fn lemma_twists_kept(p: PieceState, face: Face)
    requires
        p.wf(),
        total(p.co, 8) % 3 == 0,
    ensures
        total(p.quarter_turn(face).co, 8) % 3 == 0,
{
    let s = p.co;
    let x = Seq::new(8, |i: int| s[corner_source(face, i)] as int);
    let t = Seq::new(8, |i: int| corner_twist(face, i));
    lemma_total_8(s);
    lemma_corner_sources_sum(s, face);
    lemma_twist_sum(p.quarter_turn(face).co, x, t, total(s, 8));
}

/// A quarter turn keeps the flips a multiple of two.
proof fn lemma_flips_kept(p: PieceState, face: Face)
    requires
        p.wf(),
        total(p.eo, 12) % 2 == 0,
    ensures
        total(p.quarter_turn(face).eo, 12) % 2 == 0,
{
    let s = p.eo;
    let x = Seq::new(12, |i: int| s[edge_source(face, i)] as int);
    let t = Seq::new(12, |i: int| edge_flip(face, i));
    lemma_total_12(s);
    lemma_edge_sources_sum(s, face);
    lemma_flip_sum(p.quarter_turn(face).eo, x, t, total(s, 12));
}

/// A quarter turn brings no piece twice.
proof fn lemma_distinct_kept(p: PieceState, face: Face)
    requires
        p.wf(),
        distinct(p.cp),
        distinct(p.ep),
    ensures
        distinct(p.quarter_turn(face).cp),
        distinct(p.quarter_turn(face).ep),
{
    let q = p.quarter_turn(face);
    assert forall|i: int, j: int| 0 <= i < j < 8 implies q.cp[i] != q.cp[j] by {
        let a = corner_source(face, i);
        let b = corner_source(face, j);
        if a < b {
            assert(p.cp[a] != p.cp[b]);
        } else {
            assert(p.cp[b] != p.cp[a]);
        }
    }
    assert forall|i: int, j: int| 0 <= i < j < 12 implies q.ep[i] != q.ep[j] by {
        let a = edge_source(face, i);
        let b = edge_source(face, j);
        if a < b {
            assert(p.ep[a] != p.ep[b]);
        } else {
            assert(p.ep[b] != p.ep[a]);
        }
    }
}

/// A quarter turn of a face takes a cube that can be put together to one
/// that can: no piece occurs twice, the twists add up to a multiple of
/// three, the flips to a multiple of two, and corners and edges are
/// permuted alike, evenly or oddly.
pub proof fn lemma_quarter_turn_valid(p: PieceState, face: Face)
    requires
        p.valid(),
    ensures
        p.quarter_turn(face).valid(),
{
    lemma_quarter_turn_wf(p, face);
    lemma_distinct_kept(p, face);
    lemma_twists_kept(p, face);
    lemma_flips_kept(p, face);
    lemma_parity_flips(p, face);
}

/// Any number of quarter turns keeps a cube one that can be put together.
pub proof fn lemma_turned_valid(p: PieceState, face: Face, n: nat)
    requires
        p.valid(),
    ensures
        p.turned(face, n).valid(),
    decreases n,
{
    if n > 0 {
        lemma_turned_valid(p, face, (n - 1) as nat);
        lemma_quarter_turn_valid(p.turned(face, (n - 1) as nat), face);
    }
}

/// Every move keeps a cube one that can be put together.
pub proof fn lemma_move_valid(p: PieceState, m: Move)
    requires
        p.valid(),
    ensures
        p.moved(m).valid(),
{
    lemma_turned_valid(p, m.face, m.turn.quarters_spec());
}

/// Every sequence of moves keeps a cube one that can be put together.
pub proof fn lemma_moves_valid(p: PieceState, ms: Seq<Move>)
    requires
        p.valid(),
    ensures
        p.moved_all(ms).valid(),
    decreases ms.len(),
{
    if ms.len() > 0 {
        lemma_moves_valid(p, ms.drop_last());
        lemma_move_valid(p.moved_all(ms.drop_last()), ms.last());
    }
}

/// The solved cube can be put together.
pub proof fn lemma_solved_valid()
    ensures
        PieceState::solved().valid(),
{
    reveal(above);
    reveal_with_fuel(total, 13);
    reveal_with_fuel(inversions, 13);
    reveal_with_fuel(larger_before, 13);
}

} // verus!
