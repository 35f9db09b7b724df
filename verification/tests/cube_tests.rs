use rubiks_cube_solver::facelet::FaceletCube;
use rubiks_cube_solver::facelet::ParseError;
use rubiks_cube_solver::moves::Face;
use rubiks_cube_solver::moves::Move;
use rubiks_cube_solver::moves::Turn;
use rubiks_cube_solver::piece::ConversionError;
use rubiks_cube_solver::piece::PieceCube;
use rubiks_cube_solver::scramble::random_moves;
use rubiks_cube_solver::solver::corner_shot;
use rubiks_cube_solver::solver::edge_shot;
use rubiks_cube_solver::solver::inverse_moves;
use rubiks_cube_solver::solver::next_corner_target;
use rubiks_cube_solver::solver::next_edge_target;
use rubiks_cube_solver::solver::solve;
use rubiks_cube_solver::move_names;
use rubiks_cube_solver::solve_cube;
use rubiks_cube_solver::solve_text;
use rubiks_cube_solver::validate_cube;
use rubiks_cube_solver::SolveError;

const SOLVED: &str = "WWWWWWWWWRRRRRRRRRGGGGGGGGGYYYYYYYYYOOOOOOOOOBBBBBBBBB";
const SCRAMBLED: &str = "BOWRWOYOYGWOGRYOBBRBRWGRRWYGRGGYYORYRBBGOBWWWGYWGBOOYB";
const SCRAMBLE: &str = "R U F' L2 D B' U2 R' F D2 L B2";

fn mv(token: &str) -> Move {
    let mut chars = token.chars();
    let face = match chars.next() {
        Some('U') => Face::U,
        Some('R') => Face::R,
        Some('F') => Face::F,
        Some('D') => Face::D,
        Some('L') => Face::L,
        Some('B') => Face::B,
        _ => panic!("no face in {}", token),
    };
    let turn = match chars.next() {
        None => Turn::Clockwise,
        Some('2') => Turn::Half,
        Some('\'') => Turn::Counter,
        _ => panic!("no turn in {}", token),
    };
    Move::new(face, turn)
}

fn moves(text: &str) -> Vec<Move> {
    text.split_whitespace().map(mv).collect()
}

fn corners(cube: &PieceCube) -> (Vec<u8>, Vec<u8>) {
    let mut cp = Vec::new();
    let mut co = Vec::new();
    for i in 0..8 {
        let (piece, twist) = cube.corner(i);
        cp.push(piece);
        co.push(twist);
    }
    (cp, co)
}

fn edges(cube: &PieceCube) -> (Vec<u8>, Vec<u8>) {
    let mut ep = Vec::new();
    let mut eo = Vec::new();
    for i in 0..12 {
        let (piece, flip) = cube.edge(i);
        ep.push(piece);
        eo.push(flip);
    }
    (ep, eo)
}

#[test]
fn move_names_are_face_and_suffix() {
    assert_eq!(mv("R").name(), "R");
    assert_eq!(Move::new(Face::U, Turn::Half).name(), "U2");
    assert_eq!(Move::new(Face::F, Turn::Counter).name(), "F'");
    assert_eq!(Face::L.letter(), 'L');
    assert_eq!(Turn::Counter.quarters(), 3);
}

#[test]
fn there_are_eighteen_moves() {
    let all = Move::available();
    assert_eq!(all.len(), 18);
    for (i, m) in all.iter().enumerate() {
        assert_eq!(*m, Move::from_index(i as u8));
        for (j, n) in all.iter().enumerate() {
            assert_eq!(m == n, i == j);
        }
    }
    assert_eq!(all[0].name(), "U");
    assert_eq!(all[4].name(), "R2");
    assert_eq!(all[17].name(), "B'");
}

#[test]
fn inverse_turns_the_other_way() {
    assert_eq!(mv("R").inverse(), mv("R'"));
    assert_eq!(mv("R'").inverse(), mv("R"));
    assert_eq!(mv("D2").inverse(), mv("D2"));
    assert_eq!(inverse_moves(&moves("R U2 F'")), moves("F U2 R'"));
}

#[test]
fn move_then_inverse_is_identity() {
    let start = FaceletCube::parse(SCRAMBLED).unwrap();
    let pieces = PieceCube::from_facelets(&start).unwrap();
    for m in Move::available() {
        assert_eq!(start.apply_move(&m).apply_move(&m.inverse()), start);
        assert_eq!(pieces.apply_move(&m).apply_move(&m.inverse()), pieces);
    }
}

#[test]
fn parse_round_trips() {
    for text in [SOLVED, SCRAMBLED] {
        assert_eq!(FaceletCube::parse(text).unwrap().to_text(), text);
    }
}

#[test]
fn parse_rejects_wrong_length() {
    assert_eq!(FaceletCube::parse(&SOLVED[..53]), Err(ParseError::WrongLength));
    assert_eq!(FaceletCube::parse(""), Err(ParseError::WrongLength));
    let long = format!("{}W", SOLVED);
    assert_eq!(FaceletCube::parse(&long), Err(ParseError::WrongLength));
    assert_eq!(validate_cube(&SOLVED[..53]), Err(ParseError::WrongLength));
}

#[test]
fn parse_rejects_invalid_symbol() {
    let text = format!("{}x{}", &SOLVED[..20], &SOLVED[21..]);
    assert_eq!(
        FaceletCube::parse(&text),
        Err(ParseError::InvalidSymbol { index: 20, symbol: 'x' })
    );
    let two = format!("{}?{}w", &SOLVED[..3], &SOLVED[4..53]);
    assert_eq!(
        FaceletCube::parse(&two),
        Err(ParseError::InvalidSymbol { index: 3, symbol: '?' })
    );
}

#[test]
fn parse_rejects_wrong_color_count() {
    let text = format!("{}R{}", &SOLVED[..8], &SOLVED[9..]);
    assert_eq!(FaceletCube::parse(&text), Err(ParseError::WrongColorCount { symbol: 'W' }));
    let other = format!("{}G{}", &SOLVED[..53], "");
    assert_eq!(FaceletCube::parse(&other), Err(ParseError::WrongColorCount { symbol: 'G' }));
    assert_eq!(validate_cube(&other), Err(ParseError::WrongColorCount { symbol: 'G' }));
}

#[test]
fn length_is_checked_before_symbols_and_symbols_before_counts() {
    assert_eq!(FaceletCube::parse("x"), Err(ParseError::WrongLength));
    let text = format!("{}RRz", &SOLVED[..51]);
    assert_eq!(
        FaceletCube::parse(&text),
        Err(ParseError::InvalidSymbol { index: 53, symbol: 'z' })
    );
}

#[test]
fn validate_accepts_a_cube() {
    assert_eq!(validate_cube(SOLVED), Ok(()));
    assert_eq!(validate_cube(SCRAMBLED), Ok(()));
}

#[test]
fn solved_constant_is_the_solved_text() {
    assert_eq!(FaceletCube::solved().to_text(), SOLVED);
    assert_eq!(FaceletCube::solved().cell(9), 'R');
    assert!(PieceCube::solved().is_solved());
    assert_eq!(PieceCube::from_facelets(&FaceletCube::solved()), Ok(PieceCube::solved()));
}

#[test]
fn quarter_turn_of_r_moves_the_right_stickers() {
    let cube = FaceletCube::solved().apply_move(&mv("R"));
    assert_eq!(cube.to_text(), "WWGWWGWWGRRRRRRRRRGGYGGYGGYYYBYYBYYBOOOOOOOOOWBBWBBWBB");
    let pieces = PieceCube::solved().apply_move(&mv("R"));
    assert_eq!(corners(&pieces), (vec![4, 1, 2, 0, 7, 5, 6, 3], vec![2, 0, 0, 1, 1, 0, 0, 2]));
    assert_eq!(
        edges(&pieces),
        (vec![8, 1, 2, 3, 11, 5, 6, 7, 4, 9, 10, 0], vec![0, 0, 0, 0, 0, 0, 0, 0, 0, 0, 0, 0])
    );
}

#[test]
fn r_then_r_prime_is_solved() {
    let cube = FaceletCube::parse(SOLVED).unwrap().apply_move(&mv("R")).apply_move(&mv("R'"));
    assert_eq!(cube.to_text(), SOLVED);
}

#[test]
fn half_turn_is_two_quarters_and_reverse_is_three() {
    let start = FaceletCube::parse(SCRAMBLED).unwrap();
    let pieces = PieceCube::from_facelets(&start).unwrap();
    for face in [Face::U, Face::R, Face::F, Face::D, Face::L, Face::B] {
        let q = Move::new(face, Turn::Clockwise);
        let twice = start.apply_move(&q).apply_move(&q);
        assert_eq!(start.apply_move(&Move::new(face, Turn::Half)), twice);
        assert_eq!(start.apply_move(&Move::new(face, Turn::Counter)), twice.apply_move(&q));
        assert_eq!(twice.apply_move(&q).apply_move(&q), start);
        let twice = pieces.apply_move(&q).apply_move(&q);
        assert_eq!(pieces.apply_move(&Move::new(face, Turn::Half)), twice);
        assert_eq!(pieces.apply_move(&Move::new(face, Turn::Counter)), twice.apply_move(&q));
    }
}

#[test]
fn apply_moves_folds_from_the_left() {
    let cube = FaceletCube::solved().apply_moves(&moves(SCRAMBLE));
    assert_eq!(cube.to_text(), SCRAMBLED);
    let mut step = FaceletCube::solved();
    for m in moves(SCRAMBLE) {
        step = step.apply_move(&m);
    }
    assert_eq!(step, cube);
    assert_eq!(FaceletCube::solved().apply_moves(&Vec::new()), FaceletCube::solved());
}

#[test]
fn conversion_reads_pieces_and_positions() {
    let pieces = PieceCube::from_facelets(&FaceletCube::parse(SCRAMBLED).unwrap()).unwrap();
    assert_eq!(corners(&pieces), (vec![4, 7, 3, 1, 5, 0, 2, 6], vec![0, 0, 2, 0, 1, 1, 2, 0]));
    assert_eq!(
        edges(&pieces),
        (vec![2, 10, 11, 6, 7, 0, 1, 4, 8, 3, 9, 5], vec![1, 1, 1, 1, 0, 1, 1, 1, 1, 0, 1, 1])
    );
    assert_eq!(pieces, PieceCube::solved().apply_moves(&moves(SCRAMBLE)));
    assert!(pieces.is_valid());
    assert!(!pieces.is_solved());
}

#[test]
fn moving_stickers_and_moving_pieces_agree() {
    let mut facelets = FaceletCube::solved();
    let mut pieces = PieceCube::solved();
    for round in 0..4 {
        for (i, m) in Move::available().iter().enumerate() {
            if (i + round) % 3 == 1 {
                continue;
            }
            let moved = facelets.apply_move(m);
            assert_eq!(PieceCube::from_facelets(&moved), Ok(pieces.apply_move(m)));
            facelets = moved;
            pieces = pieces.apply_move(m);
        }
    }
    for m in Move::available() {
        let moved = facelets.apply_move(&m);
        assert_eq!(PieceCube::from_facelets(&moved), Ok(pieces.apply_move(&m)));
    }
}

#[test]
fn swapped_stickers_are_no_cube() {
    let mut cells: Vec<char> = SOLVED.chars().collect();
    cells.swap(8, 10);
    let text: String = cells.into_iter().collect();
    let facelets = FaceletCube::parse(&text).unwrap();
    assert_eq!(
        PieceCube::from_facelets(&facelets),
        Err(ConversionError::UnrecognizedPieceConfiguration { slot: 0 })
    );
    assert_eq!(
        solve_cube(&text),
        Err(SolveError::Conversion(ConversionError::UnrecognizedPieceConfiguration { slot: 0 }))
    );
}

#[test]
fn unrecognized_edge_is_numbered_after_the_corners() {
    let mut cells: Vec<char> = SOLVED.chars().collect();
    cells.swap(5, 19);
    let text: String = cells.into_iter().collect();
    let facelets = FaceletCube::parse(&text).unwrap();
    assert_eq!(
        PieceCube::from_facelets(&facelets),
        Err(ConversionError::UnrecognizedPieceConfiguration { slot: 9 })
    );
}

#[test]
fn from_parts_checks_the_ranges() {
    let id8 = [0, 1, 2, 3, 4, 5, 6, 7];
    let id12 = [0, 1, 2, 3, 4, 5, 6, 7, 8, 9, 10, 11];
    assert_eq!(PieceCube::from_parts(id8, [0; 8], id12, [0; 12]), Some(PieceCube::solved()));
    assert_eq!(PieceCube::from_parts([8; 8], [0; 8], id12, [0; 12]), None);
    assert_eq!(PieceCube::from_parts(id8, [3; 8], id12, [0; 12]), None);
    assert_eq!(PieceCube::from_parts(id8, [0; 8], [12; 12], [0; 12]), None);
    assert_eq!(PieceCube::from_parts(id8, [0; 8], id12, [2; 12]), None);
}

#[test]
fn validity_is_kept_by_every_move() {
    let mut cube = PieceCube::solved();
    assert!(cube.is_valid());
    for round in 0..3 {
        for (i, m) in Move::available().iter().enumerate() {
            if (i + round) % 4 != 0 {
                cube = cube.apply_move(m);
                assert!(cube.is_valid());
            }
        }
    }
}

#[test]
fn cubes_that_cannot_be_put_together_are_not_valid() {
    let id8 = [0, 1, 2, 3, 4, 5, 6, 7];
    let id12 = [0, 1, 2, 3, 4, 5, 6, 7, 8, 9, 10, 11];
    let twisted = PieceCube::from_parts(id8, [1, 0, 0, 0, 0, 0, 0, 0], id12, [0; 12]).unwrap();
    let flipped =
        PieceCube::from_parts(id8, [0; 8], id12, [0, 1, 0, 0, 0, 0, 0, 0, 0, 0, 0, 0]).unwrap();
    let swapped = PieceCube::from_parts([1, 0, 2, 3, 4, 5, 6, 7], [0; 8], id12, [0; 12]).unwrap();
    let doubled = PieceCube::from_parts([0; 8], [0; 8], id12, [0; 12]).unwrap();
    for cube in [twisted, flipped, swapped, doubled] {
        assert!(!cube.is_valid());
        assert_eq!(solve(&cube), None);
    }
    let both = PieceCube::from_parts(
        [1, 0, 2, 3, 4, 5, 6, 7],
        [0; 8],
        [1, 0, 2, 3, 4, 5, 6, 7, 8, 9, 10, 11],
        [0; 12],
    )
    .unwrap();
    assert!(both.is_valid());
}

#[test]
fn solved_cube_needs_no_move() {
    assert_eq!(solve(&PieceCube::solved()), Some(Vec::new()));
    let pieces = PieceCube::from_facelets(&FaceletCube::parse(SOLVED).unwrap()).unwrap();
    assert_eq!(solve(&pieces), Some(Vec::new()));
    assert_eq!(solve_cube(SOLVED), Ok(Vec::new()));
    assert_eq!(solve_text(SOLVED), Ok(Vec::new()));
}

#[test]
fn targets_follow_the_buffer_piece() {
    assert_eq!(next_edge_target(&PieceCube::solved()), None);
    assert_eq!(next_corner_target(&PieceCube::solved()), None);
    let r = PieceCube::solved().apply_move(&mv("R"));
    assert_eq!(next_edge_target(&r), Some((8, 0)));
    assert_eq!(next_corner_target(&r), Some((0, 0)));
    let scrambled = PieceCube::solved().apply_moves(&moves(SCRAMBLE));
    assert_eq!(next_edge_target(&scrambled), Some((2, 1)));
    assert_eq!(next_corner_target(&scrambled), Some((3, 1)));
}

#[test]
fn shots_are_setup_swap_and_undo() {
    assert_eq!(edge_shot(2, 0), moves("R U R' U' R' F R2 U' R' U' R U R' F'"));
    assert_eq!(edge_shot(1, 1), moves("F' L' R U R' U' R' F R2 U' R' U' R U R' F' L F"));
    assert_eq!(corner_shot(4, 2), moves("R U' R' U' R U R' F' R U R' U' R' F R"));
    assert_eq!(corner_shot(0, 2), moves("R2 D' R U' R' U' R U R' F' R U R' U' R' F R D R2"));
}

#[test]
fn edge_shot_swaps_buffer_and_target() {
    for slot in 1..12u8 {
        for flip in 0..2u8 {
            let cube = PieceCube::solved().apply_moves(&edge_shot(slot, flip));
            let (ep, eo) = edges(&cube);
            assert_eq!(ep[0], slot);
            assert_eq!(ep[slot as usize], 0);
            assert_eq!(eo[0], flip);
            assert_eq!(eo[slot as usize], flip);
            for i in 1..12 {
                if i != slot as usize {
                    assert_eq!((ep[i], eo[i]), (i as u8, 0));
                }
            }
        }
    }
}

#[test]
fn corner_shot_swaps_buffer_and_target() {
    for slot in [0u8, 1, 3, 4, 5, 6, 7] {
        for twist in 0..3u8 {
            let cube = PieceCube::solved().apply_moves(&corner_shot(slot, twist));
            let (cp, co) = corners(&cube);
            assert_eq!(cp[2], slot);
            assert_eq!(cp[slot as usize], 2);
            assert_eq!(co[2], (3 - twist) % 3);
            assert_eq!(co[slot as usize], twist);
            for i in 0..8 {
                if i != slot as usize && i != 2 {
                    assert_eq!((cp[i], co[i]), (i as u8, 0));
                }
            }
        }
    }
}

#[test]
fn solution_of_a_quarter_turn_of_u() {
    let names = solve_cube(&FaceletCube::solved().apply_move(&mv("U")).to_text()).unwrap();
    let expected = "B2 D L2 R U R' U' R' F R2 U' R' U' R U R' F' L2 D' B2 \
        R U R' U' R' F R2 U' R' U' R U R' F' \
        F2 D' L2 R U R' U' R' F R2 U' R' U' R U R' F' L2 D F2 \
        F R' R U' R' U' R U R' F' R U R' U' R' F R R F' \
        F R U' R' U' R U R' F' R U R' U' R' F R F' \
        R D' R U' R' U' R U R' F' R U R' U' R' F R D R' \
        F' R U' R' U' R U R' F' R U R' U' R' F R F \
        D F' R U' R' U' R U R' F' R U R' U' R' F R F D' \
        R D' R U' R' U' R U R' F' R U R' U' R' F R D R'";
    let expected: Vec<String> = expected.split_whitespace().map(String::from).collect();
    assert_eq!(names.len(), 164);
    assert_eq!(names, expected);
}

#[test]
fn solution_solves_the_scramble() {
    let pieces = PieceCube::from_facelets(&FaceletCube::parse(SCRAMBLED).unwrap()).unwrap();
    let solution = solve(&pieces).unwrap();
    assert_eq!(solution.len(), 408);
    assert!(pieces.apply_moves(&solution).is_solved());
    let facelets = FaceletCube::parse(SCRAMBLED).unwrap().apply_moves(&solution);
    assert_eq!(facelets.to_text(), SOLVED);
    assert_eq!(solve_text(SCRAMBLED), Ok(solution.clone()));
    assert_eq!(solve_cube(SCRAMBLED), Ok(move_names(&solution)));
}

#[test]
fn every_single_move_is_solved() {
    for m in Move::available() {
        let cube = PieceCube::solved().apply_move(&m);
        let solution = solve(&cube).unwrap();
        assert!(!solution.is_empty());
        assert!(cube.apply_moves(&solution).is_solved());
    }
}

#[test]
fn every_pair_of_moves_is_solved() {
    for a in Move::available() {
        for b in Move::available() {
            let cube = PieceCube::solved().apply_move(&a).apply_move(&b);
            let solution = solve(&cube).unwrap();
            assert!(cube.apply_moves(&solution).is_solved());
            let back = cube.apply_moves(&inverse_moves(&vec![a, b]));
            assert!(back.is_solved());
        }
    }
}

#[test]
fn random_scrambles_are_solved() {
    for n in [0u8, 1, 2, 3, 5, 8, 13, 21, 34, 55, 89, 144, 255] {
        for _ in 0..8 {
            let cube = PieceCube::random(n);
            assert!(cube.is_valid());
            let solution = solve(&cube).unwrap();
            assert!(solution.len() <= 920);
            assert!(cube.apply_moves(&solution).is_solved());
        }
    }
    assert!(PieceCube::random(0).is_solved());
}

#[test]
fn random_facelet_cubes_are_cubes() {
    assert_eq!(FaceletCube::random(0).to_text(), SOLVED);
    for n in [1u8, 7, 40] {
        let cube = FaceletCube::random(n);
        assert_eq!(validate_cube(&cube.to_text()), Ok(()));
        let solution = solve_text(&cube.to_text()).unwrap();
        assert_eq!(cube.apply_moves(&solution).to_text(), SOLVED);
    }
}

#[test]
fn random_moves_are_moves() {
    assert!(random_moves(0).is_empty());
    let ms = random_moves(200);
    assert_eq!(ms.len(), 200);
    let all = Move::available();
    assert!(ms.iter().all(|m| all.contains(m)));
    assert!(ms.iter().any(|m| *m != ms[0]));
}

#[test]
fn all_edges_flipped_takes_the_most_swaps() {
    let id8 = [0, 1, 2, 3, 4, 5, 6, 7];
    let id12 = [0, 1, 2, 3, 4, 5, 6, 7, 8, 9, 10, 11];
    let cube = PieceCube::from_parts(id8, [0; 8], id12, [1; 12]).unwrap();
    assert!(cube.is_valid());
    let solution = solve(&cube).unwrap();
    assert_eq!(solution.len(), 516);
    assert!(cube.apply_moves(&solution).is_solved());
    let twisted = PieceCube::from_parts(id8, [1, 2, 1, 2, 1, 2, 1, 2], id12, [0; 12]).unwrap();
    let solution = solve(&twisted).unwrap();
    assert_eq!(solution.len(), 254);
    assert!(twisted.apply_moves(&solution).is_solved());
}

#[test]
fn flipped_edge_text_is_unsolvable() {
    let mut cells: Vec<char> = SOLVED.chars().collect();
    cells.swap(7, 19);
    let text: String = cells.into_iter().collect();
    assert_eq!(validate_cube(&text), Ok(()));
    assert_eq!(solve_cube(&text), Err(SolveError::Unsolvable));
    assert_eq!(solve_text(&text), Err(SolveError::Unsolvable));
}

#[test]
fn solve_cube_reports_parse_errors() {
    assert_eq!(solve_cube("WRG"), Err(SolveError::Parse(ParseError::WrongLength)));
    let text = format!("{}q{}", &SOLVED[..30], &SOLVED[31..]);
    assert_eq!(
        solve_cube(&text),
        Err(SolveError::Parse(ParseError::InvalidSymbol { index: 30, symbol: 'q' }))
    );
    let text = format!("{}B{}", &SOLVED[..30], &SOLVED[31..]);
    assert_eq!(
        solve_cube(&text),
        Err(SolveError::Parse(ParseError::WrongColorCount { symbol: 'Y' }))
    );
}
