//! The eighteen face turns.

use vstd::prelude::*;
use vstd::string::*;

verus! {

/// One of the six faces, in the order in which the sticker text lists them.
#[derive(Clone, Copy, Debug, PartialEq, Eq, Structural)]
pub enum Face {
    U,
    R,
    F,
    D,
    L,
    B,
}

/// How far a face is turned.
#[derive(Clone, Copy, Debug, PartialEq, Eq, Structural)]
pub enum Turn {
    /// A quarter turn clockwise, seen from outside the face.
    Clockwise,
    /// A half turn.
    Half,
    /// A quarter turn counter-clockwise.
    Counter,
}

/// A face turn: one of six faces by one of three amounts.
#[derive(Clone, Copy, Debug, PartialEq, Eq, Structural)]
pub struct Move {
    pub face: Face,
    pub turn: Turn,
}

impl Face {
    /// The letter that names the face.
    pub open spec fn letter_spec(self) -> char {
        match self {
            Face::U => 'U',
            Face::R => 'R',
            Face::F => 'F',
            Face::D => 'D',
            Face::L => 'L',
            Face::B => 'B',
        }
    }

    /// The position of the face in the order U, R, F, D, L, B.
    pub open spec fn index_spec(self) -> int {
        match self {
            Face::U => 0,
            Face::R => 1,
            Face::F => 2,
            Face::D => 3,
            Face::L => 4,
            Face::B => 5,
        }
    }

    pub fn letter(self) -> (c: char)
        ensures
            c == self.letter_spec(),
    {
        match self {
            Face::U => 'U',
            Face::R => 'R',
            Face::F => 'F',
            Face::D => 'D',
            Face::L => 'L',
            Face::B => 'B',
        }
    }
}

impl Turn {
    /// The number of clockwise quarter turns that make up this turn.
    pub open spec fn quarters_spec(self) -> nat {
        match self {
            Turn::Clockwise => 1,
            Turn::Half => 2,
            Turn::Counter => 3,
        }
    }

    /// The turn that undoes this one.
    pub open spec fn inverse_spec(self) -> Turn {
        match self {
            Turn::Clockwise => Turn::Counter,
            Turn::Half => Turn::Half,
            Turn::Counter => Turn::Clockwise,
        }
    }

    pub fn quarters(self) -> (n: u8)
        ensures
            n == self.quarters_spec(),
    {
        match self {
            Turn::Clockwise => 1,
            Turn::Half => 2,
            Turn::Counter => 3,
        }
    }

    pub fn inverse(self) -> (t: Turn)
        ensures
            t == self.inverse_spec(),
    {
        match self {
            Turn::Clockwise => Turn::Counter,
            Turn::Half => Turn::Half,
            Turn::Counter => Turn::Clockwise,
        }
    }
}

/// The moves in their fixed order: U, U2, U', R, R2, R', and so on through
/// F, D, L and B.
pub open spec fn all_moves() -> Seq<Move> {
    seq![
        Move { face: Face::U, turn: Turn::Clockwise },
        Move { face: Face::U, turn: Turn::Half },
        Move { face: Face::U, turn: Turn::Counter },
        Move { face: Face::R, turn: Turn::Clockwise },
        Move { face: Face::R, turn: Turn::Half },
        Move { face: Face::R, turn: Turn::Counter },
        Move { face: Face::F, turn: Turn::Clockwise },
        Move { face: Face::F, turn: Turn::Half },
        Move { face: Face::F, turn: Turn::Counter },
        Move { face: Face::D, turn: Turn::Clockwise },
        Move { face: Face::D, turn: Turn::Half },
        Move { face: Face::D, turn: Turn::Counter },
        Move { face: Face::L, turn: Turn::Clockwise },
        Move { face: Face::L, turn: Turn::Half },
        Move { face: Face::L, turn: Turn::Counter },
        Move { face: Face::B, turn: Turn::Clockwise },
        Move { face: Face::B, turn: Turn::Half },
        Move { face: Face::B, turn: Turn::Counter },
    ]
}

impl Move {
    pub fn new(face: Face, turn: Turn) -> (m: Move)
        ensures
            m.face == face,
            m.turn == turn,
    {
        Move { face, turn }
    }

    /// The move that undoes this one: the same face, the opposite amount.
    pub open spec fn inverse_spec(self) -> Move {
        Move { face: self.face, turn: self.turn.inverse_spec() }
    }

    pub fn inverse(self) -> (m: Move)
        ensures
            m == self.inverse_spec(),
    {
        Move { face: self.face, turn: self.turn.inverse() }
    }

    /// The token of the move: the face letter, then nothing for a quarter
    /// turn clockwise, `2` for a half turn, `'` for a quarter turn back.
    pub open spec fn name_spec(self) -> Seq<char> {
        match self.turn {
            Turn::Clockwise => seq![self.face.letter_spec()],
            Turn::Half => seq![self.face.letter_spec(), '2'],
            Turn::Counter => seq![self.face.letter_spec(), '\''],
        }
    }

    pub fn name(self) -> (s: String)
        ensures
            s@ == self.name_spec(),
    {
        proof {
            reveal_strlit("U");
            reveal_strlit("R");
            reveal_strlit("F");
            reveal_strlit("D");
            reveal_strlit("L");
            reveal_strlit("B");
            reveal_strlit("2");
            reveal_strlit("'");
        }
        let mut s = match self.face {
            Face::U => String::from_str("U"),
            Face::R => String::from_str("R"),
            Face::F => String::from_str("F"),
            Face::D => String::from_str("D"),
            Face::L => String::from_str("L"),
            Face::B => String::from_str("B"),
        };
        assert(s@ =~= seq![self.face.letter_spec()]);
        match self.turn {
            Turn::Clockwise => {},
            Turn::Half => {
                s.append("2");
            },
            Turn::Counter => {
                s.append("'");
            },
        }
        assert(s@ =~= self.name_spec());
        s
    }

    /// The move at place `i` of [`all_moves`].
    pub open spec fn from_index_spec(i: u8) -> Move {
        all_moves()[i as int]
    }

    pub fn from_index(i: u8) -> (m: Move)
        requires
            i < 18,
        ensures
            m == Move::from_index_spec(i),
    {
        let face = match i / 3 {
            0 => Face::U,
            1 => Face::R,
            2 => Face::F,
            3 => Face::D,
            4 => Face::L,
            _ => Face::B,
        };
        let turn = match i % 3 {
            0 => Turn::Clockwise,
            1 => Turn::Half,
            _ => Turn::Counter,
        };
        Move { face, turn }
    }

    /// All eighteen moves, in the order of [`all_moves`].
    pub fn available() -> (v: Vec<Move>)
        ensures
            v@ == all_moves(),
    {
        let v = vec![
            Move { face: Face::U, turn: Turn::Clockwise },
            Move { face: Face::U, turn: Turn::Half },
            Move { face: Face::U, turn: Turn::Counter },
            Move { face: Face::R, turn: Turn::Clockwise },
            Move { face: Face::R, turn: Turn::Half },
            Move { face: Face::R, turn: Turn::Counter },
            Move { face: Face::F, turn: Turn::Clockwise },
            Move { face: Face::F, turn: Turn::Half },
            Move { face: Face::F, turn: Turn::Counter },
            Move { face: Face::D, turn: Turn::Clockwise },
            Move { face: Face::D, turn: Turn::Half },
            Move { face: Face::D, turn: Turn::Counter },
            Move { face: Face::L, turn: Turn::Clockwise },
            Move { face: Face::L, turn: Turn::Half },
            Move { face: Face::L, turn: Turn::Counter },
            Move { face: Face::B, turn: Turn::Clockwise },
            Move { face: Face::B, turn: Turn::Half },
            Move { face: Face::B, turn: Turn::Counter },
        ];
        assert(v@ =~= all_moves());
        v
    }
}

/// No move occurs twice in [`all_moves`].
pub proof fn lemma_all_moves_distinct()
    ensures
        forall|i: int, j: int| 0 <= i < j < 18 ==> all_moves()[i] != all_moves()[j],
{
}

/// Every move occurs in [`all_moves`].
pub proof fn lemma_all_moves_complete(m: Move)
    ensures
        all_moves().contains(m),
        all_moves().len() == 18,
{
    let i = m.face.index_spec() * 3 + m.turn.quarters_spec() - 1;
    assert(all_moves()[i] == m);
}

} // verus!
