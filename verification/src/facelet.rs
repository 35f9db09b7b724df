//! The cube as 54 stickers.
//!
//! The stickers are listed face by face in the order U, R, F, D, L, B, each
//! face row by row from its top left sticker, so that sticker `9 * f + 3 * r + c`
//! is the one in row `r` and column `c` of face `f`. On the solved cube the six
//! faces show `W`, `R`, `G`, `Y`, `O` and `B` in that order.

use vstd::prelude::*;
use vstd::string::*;
use crate::moves::Face;
use crate::moves::Move;

verus! {

/// Why a sticker text is not a cube.
#[derive(Clone, Copy, Debug, PartialEq, Eq, Structural)]
pub enum ParseError {
    /// The text does not hold exactly 54 symbols.
    WrongLength,
    /// The symbol at `index` is none of the six colours.
    InvalidSymbol { index: usize, symbol: char },
    /// The colour `symbol` does not occur exactly nine times.
    WrongColorCount { symbol: char },
}

/// The six colour symbols.
pub open spec fn is_symbol(c: char) -> bool {
    c == 'W' || c == 'R' || c == 'G' || c == 'Y' || c == 'O' || c == 'B'
}

/// The colour of sticker `i` on the solved cube.
pub open spec fn solved_cell(i: int) -> char {
    if i < 9 {
        'W'
    } else if i < 18 {
        'R'
    } else if i < 27 {
        'G'
    } else if i < 36 {
        'Y'
    } else if i < 45 {
        'O'
    } else {
        'B'
    }
}

/// The stickers of the solved cube.
pub open spec fn solved_cells() -> Seq<char> {
    Seq::new(54, |i: int| solved_cell(i))
}

/// How often the symbol `c` occurs in `s`.
pub open spec fn count(s: Seq<char>, c: char) -> nat {
    s.to_multiset().count(c)
}

/// Every symbol of `s` is one of the six colours.
pub open spec fn all_symbols(s: Seq<char>) -> bool {
    forall|i: int| 0 <= i < s.len() ==> is_symbol(#[trigger] s[i])
}

/// Each of the six colours occurs nine times in `s`.
pub open spec fn nine_of_each(s: Seq<char>) -> bool {
    &&& count(s, 'W') == 9
    &&& count(s, 'R') == 9
    &&& count(s, 'G') == 9
    &&& count(s, 'Y') == 9
    &&& count(s, 'O') == 9
    &&& count(s, 'B') == 9
}

/// What the stickers of a cube satisfy: 54 symbols, nine of each colour.
pub open spec fn valid_cells(s: Seq<char>) -> bool {
    &&& s.len() == 54
    &&& all_symbols(s)
    &&& nine_of_each(s)
}

/// The first position of `s` that holds no colour symbol.
pub open spec fn first_invalid(s: Seq<char>) -> int {
    choose|i: int|
        0 <= i < s.len() && !is_symbol(s[i]) && forall|j: int| 0 <= j < i ==> is_symbol(s[j])
}

/// The first colour, in the order W, R, G, Y, O, B, that does not occur
/// nine times in `s`.
pub open spec fn first_miscounted(s: Seq<char>) -> char {
    if count(s, 'W') != 9 {
        'W'
    } else if count(s, 'R') != 9 {
        'R'
    } else if count(s, 'G') != 9 {
        'G'
    } else if count(s, 'Y') != 9 {
        'Y'
    } else if count(s, 'O') != 9 {
        'O'
    } else {
        'B'
    }
}

/// What parsing a text gives: the length is checked first, then the symbols
/// from the left, then the colour counts.
pub open spec fn parse_spec(text: Seq<char>) -> Result<Seq<char>, ParseError> {
    if text.len() != 54 {
        Err(ParseError::WrongLength)
    } else if !all_symbols(text) {
        Err(
            ParseError::InvalidSymbol {
                index: first_invalid(text) as usize,
                symbol: text[first_invalid(text)],
            },
        )
    } else if !nine_of_each(text) {
        Err(ParseError::WrongColorCount { symbol: first_miscounted(text) })
    } else {
        Ok(text)
    }
}

/// The sticker that a clockwise quarter turn of `face` brings to position `i`.
pub open spec fn turn_source(face: Face, i: int) -> int {
    turn_table(face, i as usize) as int
}

/// The table behind [`turn_source`]: the twenty stickers that a quarter turn
/// of `face` moves, each with the position that it comes from.
pub open spec fn turn_table(face: Face, i: usize) -> usize {
    match face {
        Face::U => match i {
            0 => 6, 1 => 3, 2 => 0, 3 => 7, 5 => 1,
            6 => 8, 7 => 5, 8 => 2, 9 => 45, 10 => 46,
            11 => 47, 18 => 9, 19 => 10, 20 => 11, 36 => 18,
            37 => 19, 38 => 20, 45 => 36, 46 => 37, 47 => 38,
            _ => i,
        },
        Face::R => match i {
            2 => 20, 5 => 23, 8 => 26, 9 => 15, 10 => 12,
            11 => 9, 12 => 16, 14 => 10, 15 => 17, 16 => 14,
            17 => 11, 20 => 29, 23 => 32, 26 => 35, 29 => 51,
            32 => 48, 35 => 45, 45 => 8, 48 => 5, 51 => 2,
            _ => i,
        },
        Face::F => match i {
            6 => 44, 7 => 41, 8 => 38, 9 => 6, 12 => 7,
            15 => 8, 18 => 24, 19 => 21, 20 => 18, 21 => 25,
            23 => 19, 24 => 26, 25 => 23, 26 => 20, 27 => 15,
            28 => 12, 29 => 9, 38 => 27, 41 => 28, 44 => 29,
            _ => i,
        },
        Face::D => match i {
            15 => 24, 16 => 25, 17 => 26, 24 => 42, 25 => 43,
            26 => 44, 27 => 33, 28 => 30, 29 => 27, 30 => 34,
            32 => 28, 33 => 35, 34 => 32, 35 => 29, 42 => 51,
            43 => 52, 44 => 53, 51 => 15, 52 => 16, 53 => 17,
            _ => i,
        },
        Face::L => match i {
            0 => 53, 3 => 50, 6 => 47, 18 => 0, 21 => 3,
            24 => 6, 27 => 18, 30 => 21, 33 => 24, 36 => 42,
            37 => 39, 38 => 36, 39 => 43, 41 => 37, 42 => 44,
            43 => 41, 44 => 38, 47 => 33, 50 => 30, 53 => 27,
            _ => i,
        },
        Face::B => match i {
            0 => 11, 1 => 14, 2 => 17, 11 => 35, 14 => 34,
            17 => 33, 33 => 36, 34 => 39, 35 => 42, 36 => 2,
            39 => 1, 42 => 0, 45 => 51, 46 => 48, 47 => 45,
            48 => 52, 50 => 46, 51 => 53, 52 => 50, 53 => 47,
            _ => i,
        },
    }
}

/// The stickers after a clockwise quarter turn of `face`.
pub open spec fn quarter_turn(s: Seq<char>, face: Face) -> Seq<char> {
    Seq::new(54, |i: int| s[turn_source(face, i)])
}

/// The stickers after `n` clockwise quarter turns of `face`.
pub open spec fn turned(s: Seq<char>, face: Face, n: nat) -> Seq<char>
    decreases n,
{
    if n == 0 {
        s
    } else {
        quarter_turn(turned(s, face, (n - 1) as nat), face)
    }
}

/// The stickers after the move `m`: a half turn is two quarter turns, a
/// quarter turn back is three.
pub open spec fn moved(s: Seq<char>, m: Move) -> Seq<char> {
    turned(s, m.face, m.turn.quarters_spec())
}

/// The stickers after the moves of `ms`, from left to right.
pub open spec fn moved_all(s: Seq<char>, ms: Seq<Move>) -> Seq<char>
    decreases ms.len(),
{
    if ms.len() == 0 {
        s
    } else {
        moved(moved_all(s, ms.drop_last()), ms.last())
    }
}

/// `s` with the symbols at `a`, `b`, `c`, `d` moved one place along that cycle.
pub open spec fn rotate4(s: Seq<char>, a: int, b: int, c: int, d: int) -> Seq<char> {
    s.update(a, s[b]).update(b, s[c]).update(c, s[d]).update(d, s[a])
}

proof fn lemma_rotate4_keeps_symbols(s: Seq<char>, a: int, b: int, c: int, d: int)
    requires
        0 <= a < s.len(),
        0 <= b < s.len(),
        0 <= c < s.len(),
        0 <= d < s.len(),
        a != b && a != c && a != d && b != c && b != d && c != d,
    ensures
        rotate4(s, a, b, c, d).to_multiset() =~= s.to_multiset(),
        all_symbols(s) ==> all_symbols(rotate4(s, a, b, c, d)),
        rotate4(s, a, b, c, d).len() == s.len(),
{
    broadcast use vstd::seq_lib::group_to_multiset_ensures;

    let s1 = s.update(a, s[b]);
    let s2 = s1.update(b, s[c]);
    let s3 = s2.update(c, s[d]);
    let s4 = s3.update(d, s[a]);
    vstd::seq_lib::to_multiset_update(s, a, s[b]);
    vstd::seq_lib::to_multiset_update(s1, b, s[c]);
    vstd::seq_lib::to_multiset_update(s2, c, s[d]);
    vstd::seq_lib::to_multiset_update(s3, d, s[a]);
    assert(s.to_multiset().count(s[a]) > 0) by {
        assert(s.contains(s[a]));
    }
    assert(s.to_multiset().count(s[b]) > 0) by {
        assert(s.contains(s[b]));
    }
    assert(s.to_multiset().count(s[c]) > 0) by {
        assert(s.contains(s[c]));
    }
    assert(s.to_multiset().count(s[d]) > 0) by {
        assert(s.contains(s[d]));
    }
    assert(s4.to_multiset() =~= s.to_multiset());
}

/// The five cycles of four stickers that a quarter turn of `face` is made of.
pub open spec fn turn_cycles(face: Face) -> Seq<(int, int, int, int)> {
    match face {
        Face::U => seq![(0, 6, 8, 2), (1, 3, 7, 5), (9, 45, 36, 18), (10, 46, 37, 19), (11, 47, 38, 20)],
        Face::R => seq![(2, 20, 29, 51), (5, 23, 32, 48), (8, 26, 35, 45), (9, 15, 17, 11), (10, 12, 16, 14)],
        Face::F => seq![(6, 44, 29, 9), (7, 41, 28, 12), (8, 38, 27, 15), (18, 24, 26, 20), (19, 21, 25, 23)],
        Face::D => seq![(15, 24, 42, 51), (16, 25, 43, 52), (17, 26, 44, 53), (27, 33, 35, 29), (28, 30, 34, 32)],
        Face::L => seq![(0, 53, 27, 18), (3, 50, 30, 21), (6, 47, 33, 24), (36, 42, 44, 38), (37, 39, 43, 41)],
        Face::B => seq![(0, 11, 35, 42), (1, 14, 34, 39), (2, 17, 33, 36), (45, 51, 53, 47), (46, 48, 52, 50)],
    }
}

/// `s` after the first `n` cycles of `cs`.
pub open spec fn cycled(s: Seq<char>, cs: Seq<(int, int, int, int)>, n: nat) -> Seq<char>
    decreases n,
{
    if n == 0 {
        s
    } else {
        let c = cs[n - 1];
        rotate4(cycled(s, cs, (n - 1) as nat), c.0, c.1, c.2, c.3)
    }
}

proof fn lemma_turn_cycles_u(s: Seq<char>)
    requires
        s.len() == 54,
    ensures
        quarter_turn(s, Face::U) == cycled(s, turn_cycles(Face::U), 5),
{
    reveal_with_fuel(cycled, 6);
    let cs = turn_cycles(Face::U);
    let t = cycled(s, cs, 5);
    let q = quarter_turn(s, Face::U);
    assert(t.len() == 54);
    assert(q =~= t);
}

proof fn lemma_turn_cycles_r(s: Seq<char>)
    requires
        s.len() == 54,
    ensures
        quarter_turn(s, Face::R) == cycled(s, turn_cycles(Face::R), 5),
{
    reveal_with_fuel(cycled, 6);
    let cs = turn_cycles(Face::R);
    let t = cycled(s, cs, 5);
    let q = quarter_turn(s, Face::R);
    assert(t.len() == 54);
    assert(q =~= t);
}

proof fn lemma_turn_cycles_f(s: Seq<char>)
    requires
        s.len() == 54,
    ensures
        quarter_turn(s, Face::F) == cycled(s, turn_cycles(Face::F), 5),
{
    reveal_with_fuel(cycled, 6);
    let cs = turn_cycles(Face::F);
    let t = cycled(s, cs, 5);
    let q = quarter_turn(s, Face::F);
    assert(t.len() == 54);
    assert(q =~= t);
}

proof fn lemma_turn_cycles_d(s: Seq<char>)
    requires
        s.len() == 54,
    ensures
        quarter_turn(s, Face::D) == cycled(s, turn_cycles(Face::D), 5),
{
    reveal_with_fuel(cycled, 6);
    let cs = turn_cycles(Face::D);
    let t = cycled(s, cs, 5);
    let q = quarter_turn(s, Face::D);
    assert(t.len() == 54);
    assert(q =~= t);
}

proof fn lemma_turn_cycles_l(s: Seq<char>)
    requires
        s.len() == 54,
    ensures
        quarter_turn(s, Face::L) == cycled(s, turn_cycles(Face::L), 5),
{
    reveal_with_fuel(cycled, 6);
    let cs = turn_cycles(Face::L);
    let t = cycled(s, cs, 5);
    let q = quarter_turn(s, Face::L);
    assert(t.len() == 54);
    assert(q =~= t);
}

proof fn lemma_turn_cycles_b(s: Seq<char>)
    requires
        s.len() == 54,
    ensures
        quarter_turn(s, Face::B) == cycled(s, turn_cycles(Face::B), 5),
{
    reveal_with_fuel(cycled, 6);
    let cs = turn_cycles(Face::B);
    let t = cycled(s, cs, 5);
    let q = quarter_turn(s, Face::B);
    assert(t.len() == 54);
    assert(q =~= t);
}

proof fn lemma_cycled_keeps_symbols(s: Seq<char>, cs: Seq<(int, int, int, int)>, n: nat)
    requires
        n <= cs.len(),
        forall|k: int|
            0 <= k < cs.len() ==> {
                let c = #[trigger] cs[k];
                &&& 0 <= c.0 < s.len()
                &&& 0 <= c.1 < s.len()
                &&& 0 <= c.2 < s.len()
                &&& 0 <= c.3 < s.len()
                &&& c.0 != c.1 && c.0 != c.2 && c.0 != c.3 && c.1 != c.2 && c.1 != c.3 && c.2
                    != c.3
            },
    ensures
        cycled(s, cs, n).to_multiset() =~= s.to_multiset(),
        all_symbols(s) ==> all_symbols(cycled(s, cs, n)),
        cycled(s, cs, n).len() == s.len(),
    decreases n,
{
    if n > 0 {
        lemma_cycled_keeps_symbols(s, cs, (n - 1) as nat);
        let c = cs[n - 1];
        lemma_rotate4_keeps_symbols(cycled(s, cs, (n - 1) as nat), c.0, c.1, c.2, c.3);
    }
}

/// A quarter turn moves the stickers about and changes none: the result
/// holds the same symbols as often.
pub proof fn lemma_quarter_turn_keeps_symbols(s: Seq<char>, face: Face)
    requires
        s.len() == 54,
    ensures
        quarter_turn(s, face).to_multiset() == s.to_multiset(),
        all_symbols(s) ==> all_symbols(quarter_turn(s, face)),
        valid_cells(s) ==> valid_cells(quarter_turn(s, face)),
{
    match face {
        Face::U => lemma_turn_cycles_u(s),
        Face::R => lemma_turn_cycles_r(s),
        Face::F => lemma_turn_cycles_f(s),
        Face::D => lemma_turn_cycles_d(s),
        Face::L => lemma_turn_cycles_l(s),
        Face::B => lemma_turn_cycles_b(s),
    }
    lemma_cycled_keeps_symbols(s, turn_cycles(face), 5);
}

/// A move keeps the stickers a cube.
pub proof fn lemma_moved_valid(s: Seq<char>, face: Face, n: nat)
    requires
        valid_cells(s),
    ensures
        valid_cells(turned(s, face, n)),
    decreases n,
{
    if n > 0 {
        lemma_moved_valid(s, face, (n - 1) as nat);
        lemma_quarter_turn_keeps_symbols(turned(s, face, (n - 1) as nat), face);
    }
}

/// Parsing keeps the text: the stickers of the cube that a text gives are
/// the text itself, which is also what the cube is written out as.
pub proof fn lemma_parse_keeps_text(text: Seq<char>)
    ensures
        parse_spec(text) is Ok <==> valid_cells(text),
        parse_spec(text) is Ok ==> parse_spec(text) == Ok::<Seq<char>, ParseError>(text),
{
}

/// A cube given by its 54 stickers.
#[derive(Clone, Copy, Debug, PartialEq, Eq)]
pub struct FaceletCube {
    cells: [char; 54],
}

fn turn_source_of(face: Face, i: usize) -> (j: usize)
    requires
        i < 54,
    ensures
        j == turn_table(face, i),
        j < 54,
{
    match face {
        Face::U => match i {
            0 => 6, 1 => 3, 2 => 0, 3 => 7, 5 => 1,
            6 => 8, 7 => 5, 8 => 2, 9 => 45, 10 => 46,
            11 => 47, 18 => 9, 19 => 10, 20 => 11, 36 => 18,
            37 => 19, 38 => 20, 45 => 36, 46 => 37, 47 => 38,
            _ => i,
        },
        Face::R => match i {
            2 => 20, 5 => 23, 8 => 26, 9 => 15, 10 => 12,
            11 => 9, 12 => 16, 14 => 10, 15 => 17, 16 => 14,
            17 => 11, 20 => 29, 23 => 32, 26 => 35, 29 => 51,
            32 => 48, 35 => 45, 45 => 8, 48 => 5, 51 => 2,
            _ => i,
        },
        Face::F => match i {
            6 => 44, 7 => 41, 8 => 38, 9 => 6, 12 => 7,
            15 => 8, 18 => 24, 19 => 21, 20 => 18, 21 => 25,
            23 => 19, 24 => 26, 25 => 23, 26 => 20, 27 => 15,
            28 => 12, 29 => 9, 38 => 27, 41 => 28, 44 => 29,
            _ => i,
        },
        Face::D => match i {
            15 => 24, 16 => 25, 17 => 26, 24 => 42, 25 => 43,
            26 => 44, 27 => 33, 28 => 30, 29 => 27, 30 => 34,
            32 => 28, 33 => 35, 34 => 32, 35 => 29, 42 => 51,
            43 => 52, 44 => 53, 51 => 15, 52 => 16, 53 => 17,
            _ => i,
        },
        Face::L => match i {
            0 => 53, 3 => 50, 6 => 47, 18 => 0, 21 => 3,
            24 => 6, 27 => 18, 30 => 21, 33 => 24, 36 => 42,
            37 => 39, 38 => 36, 39 => 43, 41 => 37, 42 => 44,
            43 => 41, 44 => 38, 47 => 33, 50 => 30, 53 => 27,
            _ => i,
        },
        Face::B => match i {
            0 => 11, 1 => 14, 2 => 17, 11 => 35, 14 => 34,
            17 => 33, 33 => 36, 34 => 39, 35 => 42, 36 => 2,
            39 => 1, 42 => 0, 45 => 51, 46 => 48, 47 => 45,
            48 => 52, 50 => 46, 51 => 53, 52 => 50, 53 => 47,
            _ => i,
        },
    }
}

fn count_symbol(cells: &[char; 54], c: char) -> (n: usize)
    ensures
        n == count(cells@, c),
{
    broadcast use vstd::seq_lib::group_to_multiset_ensures;

    let mut n: usize = 0;
    let mut i: usize = 0;
    while i < 54
        invariant
            i <= 54,
            n <= i,
            n == count(cells@.take(i as int), c),
        decreases 54 - i,
    {
        proof {
            assert(cells@.take(i + 1) =~= cells@.take(i as int).push(cells@[i as int]));
            vstd::seq_lib::to_multiset_build(cells@.take(i as int), cells@[i as int]);
        }
        if cells[i] == c {
            n = n + 1;
        }
        i = i + 1;
    }
    assert(cells@.take(54) =~= cells@);
    n
}

fn symbol_text(c: char) -> (s: &'static str)
    requires
        is_symbol(c),
    ensures
        s@ == seq![c],
{
    proof {
        reveal_strlit("W");
        reveal_strlit("R");
        reveal_strlit("G");
        reveal_strlit("Y");
        reveal_strlit("O");
        reveal_strlit("B");
    }
    let s = if c == 'W' {
        "W"
    } else if c == 'R' {
        "R"
    } else if c == 'G' {
        "G"
    } else if c == 'Y' {
        "Y"
    } else if c == 'O' {
        "O"
    } else {
        "B"
    };
    assert(s@ =~= seq![c]);
    s
}

impl View for FaceletCube {
    type V = Seq<char>;

    closed spec fn view(&self) -> Seq<char> {
        self.cells@
    }
}

impl FaceletCube {
    /// The stickers are 54 colour symbols, nine of each.
    pub open spec fn wf(&self) -> bool {
        valid_cells(self@)
    }

    /// The solved cube.
    pub fn solved() -> (cube: FaceletCube)
        ensures
            cube@ == solved_cells(),
            cube.wf(),
    {
        let mut cells: [char; 54] = ['B'; 54];
        let mut i: usize = 0;
        while i < 54
            invariant
                i <= 54,
                forall|j: int| 0 <= j < i ==> cells@[j] == solved_cell(j),
            decreases 54 - i,
        {
            let c = if i < 9 {
                'W'
            } else if i < 18 {
                'R'
            } else if i < 27 {
                'G'
            } else if i < 36 {
                'Y'
            } else if i < 45 {
                'O'
            } else {
                'B'
            };
            cells[i] = c;
            i = i + 1;
        }
        assert(cells@ =~= solved_cells());
        proof {
            lemma_solved_counts();
        }
        FaceletCube { cells }
    }

    fn counts_are_nine(&self) -> (ok: Option<char>)
        ensures
            ok is None <==> nine_of_each(self@),
            ok matches Some(c) ==> c == first_miscounted(self@),
    {
        if count_symbol(&self.cells, 'W') != 9 {
            Some('W')
        } else if count_symbol(&self.cells, 'R') != 9 {
            Some('R')
        } else if count_symbol(&self.cells, 'G') != 9 {
            Some('G')
        } else if count_symbol(&self.cells, 'Y') != 9 {
            Some('Y')
        } else if count_symbol(&self.cells, 'O') != 9 {
            Some('O')
        } else if count_symbol(&self.cells, 'B') != 9 {
            Some('B')
        } else {
            None
        }
    }

    /// Reads a cube from its sticker text. The text must hold 54 symbols,
    /// each one of the six colours, each colour nine times; the first of
    /// these that fails is reported.
    pub fn parse(text: &str) -> (r: Result<FaceletCube, ParseError>)
        ensures
            match r {
                Ok(cube) => parse_spec(text@) == Ok::<Seq<char>, ParseError>(cube@) && cube.wf(),
                Err(e) => parse_spec(text@) == Err::<Seq<char>, ParseError>(e),
            },
    {
        if text.unicode_len() != 54 {
            return Err(ParseError::WrongLength);
        }
        let mut cells: [char; 54] = ['B'; 54];
        let mut i: usize = 0;
        while i < 54
            invariant
                i <= 54,
                text@.len() == 54,
                forall|j: int| 0 <= j < i ==> cells@[j] == text@[j] && is_symbol(text@[j]),
            decreases 54 - i,
        {
            let c = text.get_char(i);
            if !(c == 'W' || c == 'R' || c == 'G' || c == 'Y' || c == 'O' || c == 'B') {
                assert(!all_symbols(text@));
                assert(first_invalid(text@) == i);
                return Err(ParseError::InvalidSymbol { index: i, symbol: c });
            }
            cells[i] = c;
            i = i + 1;
        }
        assert(cells@ =~= text@);
        let cube = FaceletCube { cells };
        match cube.counts_are_nine() {
            Some(symbol) => Err(ParseError::WrongColorCount { symbol }),
            None => Ok(cube),
        }
    }

    /// Writes the cube out as its sticker text.
    pub fn to_text(&self) -> (s: String)
        requires
            self.wf(),
        ensures
            s@ == self@,
    {
        let mut s = String::new();
        let mut i: usize = 0;
        while i < 54
            invariant
                i <= 54,
                self.wf(),
                s@ == self@.take(i as int),
            decreases 54 - i,
        {
            assert(is_symbol(self@[i as int]));
            s.append(symbol_text(self.cells[i]));
            assert(self@.take(i + 1) =~= self@.take(i as int) + seq![self@[i as int]]);
            i = i + 1;
        }
        assert(self@.take(54) =~= self@);
        s
    }

    /// The sticker at position `i`.
    pub fn cell(&self, i: usize) -> (c: char)
        requires
            i < 54,
        ensures
            c == self@[i as int],
    {
        self.cells[i]
    }

    fn quarter(&self, face: Face) -> (cube: FaceletCube)
        requires
            self.wf(),
        ensures
            cube@ == quarter_turn(self@, face),
            cube.wf(),
    {
        let mut cells: [char; 54] = self.cells;
        let mut i: usize = 0;
        while i < 54
            invariant
                i <= 54,
                forall|j: int| 0 <= j < i ==> cells@[j] == self@[turn_source(face, j)],
            decreases 54 - i,
        {
            let j = turn_source_of(face, i);
            cells[i] = self.cells[j];
            i = i + 1;
        }
        assert(cells@ =~= quarter_turn(self@, face));
        proof {
            lemma_quarter_turn_keeps_symbols(self@, face);
        }
        FaceletCube { cells }
    }

    /// Turns a face. The cube stays a cube.
    pub fn apply_move(self, action: &Move) -> (cube: FaceletCube)
        requires
            self.wf(),
        ensures
            cube@ == moved(self@, *action),
            cube.wf(),
    {
        let n = action.turn.quarters();
        let mut cube = self;
        let mut k: u8 = 0;
        while k < n
            invariant
                k <= n,
                cube.wf(),
                cube@ == turned(self@, action.face, k as nat),
            decreases n - k,
        {
            cube = cube.quarter(action.face);
            k = k + 1;
        }
        cube
    }

    /// Turns faces one after the other, from the first move to the last.
    pub fn apply_moves(self, actions: &Vec<Move>) -> (cube: FaceletCube)
        requires
            self.wf(),
        ensures
            cube@ == moved_all(self@, actions@),
            cube.wf(),
    {
        let mut cube = self;
        let mut k: usize = 0;
        while k < actions.len()
            invariant
                k <= actions.len(),
                cube.wf(),
                cube@ == moved_all(self@, actions@.take(k as int)),
            decreases actions.len() - k,
        {
            assert(actions@.take(k + 1).drop_last() =~= actions@.take(k as int));
            cube = cube.apply_move(&actions[k]);
            k = k + 1;
        }
        assert(actions@.take(k as int) =~= actions@);
        cube
    }
}

/// How many of the first `k` stickers lie in the block of nine that starts at `lo`.
pub open spec fn block(k: int, lo: int) -> int {
    if k <= lo {
        0
    } else if k >= lo + 9 {
        9
    } else {
        k - lo
    }
}

proof fn lemma_solved_prefix_counts(k: int)
    requires
        0 <= k <= 54,
    ensures
        count(solved_cells().take(k), 'W') == block(k, 0),
        count(solved_cells().take(k), 'R') == block(k, 9),
        count(solved_cells().take(k), 'G') == block(k, 18),
        count(solved_cells().take(k), 'Y') == block(k, 27),
        count(solved_cells().take(k), 'O') == block(k, 36),
        count(solved_cells().take(k), 'B') == block(k, 45),
    decreases k,
{
    broadcast use vstd::seq_lib::group_to_multiset_ensures;

    if k == 0 {
        assert(solved_cells().take(0) =~= Seq::<char>::empty());
        assert(Seq::<char>::empty().to_multiset() =~= vstd::multiset::Multiset::<char>::empty());
    } else {
        lemma_solved_prefix_counts(k - 1);
        assert(solved_cells().take(k) =~= solved_cells().take(k - 1).push(solved_cell(k - 1)));
    }
}

/// The solved cube shows nine stickers of each colour.
pub proof fn lemma_solved_counts()
    ensures
        valid_cells(solved_cells()),
{
    lemma_solved_prefix_counts(54);
    assert(solved_cells().take(54) =~= solved_cells());
}

} // verus!
