use tetris_sprint_lkp::PieceType;
use tetris_sprint_lkp::bagrng::{generate_piece_sequence, seed_accepted};
use tetris_sprint_lkp::bagrng::techmino::{parse_seed, ShuffleSequence, XorShift64Star};
use tetris_sprint_lkp::bitboard::{BitBoard, Board, SearchNode, ShapeBoard};
use tetris_sprint_lkp::endgame::{solve_pc, EndgameShared};
use std::io::Read;
use tetris_sprint_lkp::evaluator::{board_features, get_well, BoardFeatures};
use tetris_sprint_lkp::movegen::{
    compile_action, generate_moves, parse_actions, parse_actions_batch, rebuild_actions_general, Action,
    NoReplay, ReplayMove,
};
use tetris_sprint_lkp::replay::techmino::{
    encode_operations, export_replay, gen_replay, replay_data, replay_text, techmino_checks_pass, ReplayTiming,
    TechminoConsumer,
};
use tetris_sprint_lkp::replay::{compile_replay, replay_checks, ActionKind, ReplayConsumer};
use tetris_sprint_lkp::search::{bucket_key, i_left_suffix, path_steps_check, BeamSearch, NodeStep, Path, PathNode};

fn letters(v: &[PieceType]) -> String {
    v.iter()
        .map(|p| match p {
            PieceType::Empty => '.',
            PieceType::Z => 'Z',
            PieceType::S => 'S',
            PieceType::J => 'J',
            PieceType::L => 'L',
            PieceType::T => 'T',
            PieceType::O => 'O',
            PieceType::I => 'I',
        })
        .collect()
}

fn board(h: [u64; 10]) -> ShapeBoard {
    let mut packed = 0u64;
    for (c, &v) in h.iter().enumerate() {
        packed |= v << (6 * c);
    }
    ShapeBoard { packed_shape: packed }
}

fn heights(b: &ShapeBoard) -> Vec<u64> {
    (0..10).map(|c| b.get_height(c)).collect()
}

const TIMING: ReplayTiming = ReplayTiming { first_op: 180, das_wait: 7, tap_wait: 3 };

#[test]
fn piece_sequence_of_seed_12345() {
    let seq = generate_piece_sequence(&"12345".to_string(), 21);
    assert_eq!(letters(&seq), "ZOSLTIJSJIZLOTJOISLTZ");
}

#[test]
fn piece_sequence_of_other_seeds() {
    assert_eq!(letters(&generate_piece_sequence(&"0".to_string(), 21)), "JLSOTIZLTZSIOJJLSITOZ");
    assert_eq!(letters(&generate_piece_sequence(&"1".to_string(), 21)), "ITJZOSLTOSJILZSLITJZO");
    assert_eq!(
        letters(&generate_piece_sequence(&"4294967295".to_string(), 21)),
        "ZLSOJTITLJZOSIISJTOZL"
    );
    assert_eq!(letters(&generate_piece_sequence(&"+12345".to_string(), 7)), "ZOSLTIJ");
}

#[test]
fn every_bag_of_seven_holds_each_piece_once() {
    for seed in ["0", "7", "12345", "99999", "4294967295"] {
        let seq = generate_piece_sequence(&seed.to_string(), 102);
        assert_eq!(seq.len(), 102);
        for bag in seq.chunks(7) {
            let mut seen = [false; 8];
            for p in bag {
                let i = p.index() as usize;
                assert!(i >= 1 && i <= 7);
                assert!(!seen[i]);
                seen[i] = true;
            }
        }
    }
}

#[test]
fn seeds_parse_as_u32() {
    assert_eq!(parse_seed("12345"), Some(12345));
    assert_eq!(parse_seed("+7"), Some(7));
    assert_eq!(parse_seed("4294967295"), Some(4294967295));
    assert_eq!(parse_seed("4294967296"), None);
    assert_eq!(parse_seed(""), None);
    assert_eq!(parse_seed("+"), None);
    assert_eq!(parse_seed("-1"), None);
    assert_eq!(parse_seed("12a"), None);
}

#[test]
fn xorshift_first_output() {
    let mut rng = XorShift64Star::new(12345);
    assert_eq!(rng.next_u64(), 16398161561558986475);
}

#[test]
fn shuffle_deals_a_bag() {
    let mut bag = ShuffleSequence::new(12345);
    let mut dealt = Vec::new();
    for _ in 0..7 {
        dealt.push(bag.next().unwrap());
    }
    let mut sorted = dealt.clone();
    sorted.sort();
    assert_eq!(sorted, vec![1, 2, 3, 4, 5, 6, 7]);
    assert_eq!(dealt[0], 1);
}

#[test]
fn opening_rule() {
    // seed 12345 opens with Z
    assert!(!seed_accepted(&"12345".to_string()));
    // seed 0 opens with J, L
    assert!(seed_accepted(&"0".to_string()));
    // seed 1 opens with I, T
    assert!(seed_accepted(&"1".to_string()));
}

#[test]
fn shape_board_drops_and_clears() {
    let empty = ShapeBoard::default();
    let (b, n) = empty.drop_piece(0, 17, 0).unwrap();
    assert_eq!(n, 0);
    assert_eq!(heights(&b), vec![1, 1, 1, 1, 0, 0, 0, 0, 0, 0]);
    let (b, n) = empty.drop_piece(3, 18, 0).unwrap();
    assert_eq!(n, 0);
    assert_eq!(heights(&b), vec![0, 0, 0, 4, 0, 0, 0, 0, 0, 0]);
    let (b, n) = empty.drop_piece(8, 16, 0).unwrap();
    assert_eq!(n, 0);
    assert_eq!(heights(&b), vec![0, 0, 0, 0, 0, 0, 0, 0, 2, 2]);
    let six = board([1, 1, 1, 1, 1, 1, 0, 0, 0, 0]);
    let (b, n) = six.drop_piece(6, 17, 0).unwrap();
    assert_eq!(n, 1);
    assert_eq!(heights(&b), vec![0; 10]);
}

#[test]
fn shape_board_refuses_a_stack_too_high() {
    let tall = board([20, 0, 0, 0, 0, 0, 0, 0, 0, 0]);
    assert!(tall.drop_piece(0, 18, 0).is_none());
    let high = board([2, 0, 0, 0, 0, 0, 0, 0, 0, 0]);
    // two lines left to clear: the stack may not pass them
    assert!(high.drop_piece(0, 18, 38).is_none());
}

#[test]
fn bit_board_from_shape_board() {
    let b = BitBoard::from_shape_board(board([1, 2, 3, 0, 0, 0, 0, 0, 0, 6]));
    assert_eq!(b.get_column(0), 1);
    assert_eq!(b.get_column(1), 3);
    assert_eq!(b.get_column(2), 7);
    assert_eq!(b.get_column(3), 0);
    assert_eq!(b.get_column(9), 63);
    assert_eq!(b.occupied_cells(), 12);
    assert_eq!(b.raw(), 1 | (3 << 6) | (7 << 12) | (63 << 54));
}

#[test]
fn bit_board_drops_to_the_floor() {
    let empty = BitBoard::empty();
    let (b, n) = empty.drop_piece(0, 17, 36).unwrap();
    assert_eq!(n, 0);
    assert_eq!(b.get_column(0), 1);
    assert_eq!(b.get_column(3), 1);
    assert_eq!(b.get_column(4), 0);
    let six = BitBoard::from_shape_board(board([1, 1, 1, 1, 1, 1, 0, 0, 0, 0]));
    let (b, n) = six.drop_piece(6, 17, 39).unwrap();
    assert_eq!(n, 1);
    assert_eq!(b.raw(), 0);
}

#[test]
fn well_column() {
    assert_eq!(get_well(board([1, 1, 1, 1, 1, 1, 0, 1, 1, 1])), 6);
    assert_eq!(get_well(board([1, 1, 1, 1, 1, 1, 1, 1, 1, 0])), 9);
    assert_eq!(get_well(board([1, 1, 1, 0, 1, 1, 1, 1, 1, 1])), 3);
    assert_eq!(get_well(board([1, 0, 1, 1, 1, 1, 1, 1, 1, 1])), 1);
    assert_eq!(get_well(board([1; 10])), 10);
    assert_eq!(get_well(board([0; 10])), 6);
}

#[test]
fn moves_of_a_t_on_the_empty_board() {
    let root = SearchNode::<ShapeBoard>::initial();
    let mut moves = Vec::new();
    let mut replay: Vec<ReplayMove> = Vec::new();
    generate_moves(&mut moves, &mut replay, &root, PieceType::T, 5);
    // only the flat T, pointing up, leaves no hole on the floor: 8 columns,
    // and the hold alone
    assert_eq!(moves.len(), 9);
    assert_eq!(replay.len(), 9);
    assert!(moves.iter().all(|m| m.parent_idx == 5));
    let hold = moves[8];
    assert_eq!(hold.keys_pressed, 1);
    assert_eq!(hold.meta >> 11, 5);
    assert!(replay[8].hold_only);
    // the first: flat at the left wall, one DAS and the drop
    assert_eq!(moves[0].keys_pressed, 2);
    assert_eq!(moves[0].meta, 1 << 9);
    assert_eq!(replay[0].finesse_idx, 2);
    assert_eq!(replay[0].x, 0);
    let mut plain = Vec::new();
    generate_moves(&mut plain, &mut NoReplay, &root, PieceType::O, 0);
    assert_eq!(plain.len(), 10);
    let mut i_moves = Vec::new();
    generate_moves(&mut i_moves, &mut NoReplay, &root, PieceType::I, 0);
    assert_eq!(i_moves.len(), 18);
}

#[test]
fn key_notation() {
    assert_eq!(parse_actions("DL,CW,DLU"), vec![Action::DasLeft, Action::RotateCW, Action::DasLeftUp]);
    assert_eq!(parse_actions(""), Vec::<Action>::new());
    assert_eq!(parse_actions(" L , 180 "), vec![Action::MoveLeft, Action::Rotate180]);
    assert_eq!(
        parse_actions("DR,CCW,DRU,R"),
        vec![Action::DasRight, Action::RotateCCW, Action::DasRightUp, Action::MoveRight]
    );
    assert_eq!(
        parse_actions_batch(&["L", "R,R", "DL,DLU"]),
        vec![
            vec![Action::MoveLeft],
            vec![Action::MoveRight, Action::MoveRight],
            vec![Action::DasLeft, Action::DasLeftUp]
        ]
    );
}

fn first_t_path() -> Vec<PathNode> {
    let root = SearchNode::<ShapeBoard>::initial();
    let mut moves = Vec::new();
    generate_moves(&mut moves, &mut NoReplay, &root, PieceType::T, 0);
    vec![PathNode::Normal(root), PathNode::Normal(moves[0])]
}

#[test]
fn rebuilds_and_compiles_a_move() {
    let path = first_t_path();
    let m = rebuild_actions_general(&path[0], PieceType::T, &path[1]);
    assert_eq!(m, ReplayMove { hold: false, finesse_idx: 2, x: 0, reused: false, hold_only: false, special: false });
    let steps = compile_action(&path, &[PieceType::T]);
    assert_eq!(steps.len(), 1);
    assert_eq!(steps[0].idx, 0);
    assert!(!steps[0].hold && !steps[0].reused && !steps[0].burst && !steps[0].pipeline);
    assert_eq!(steps[0].actions, vec![Action::DasLeft, Action::DasLeftUp]);
}

#[test]
fn lone_hold_merges_into_the_next_move() {
    let root = SearchNode::<ShapeBoard>::initial();
    let mut moves = Vec::new();
    generate_moves(&mut moves, &mut NoReplay, &root, PieceType::T, 0);
    let held = *moves.last().unwrap();
    let mut next = Vec::new();
    generate_moves(&mut next, &mut NoReplay, &held, PieceType::I, 1);
    // I flat, spawn position: no keys but the drop
    let flat = next[3];
    assert_eq!(flat.keys_pressed, 2);
    let path = vec![PathNode::Normal(root), PathNode::Normal(held), PathNode::Normal(flat)];
    let steps = compile_action(&path, &[PieceType::T, PieceType::I]);
    assert_eq!(steps.len(), 1);
    assert_eq!(steps[0].idx, 1);
    assert!(steps[0].hold);
    assert_eq!(steps[0].actions, Vec::<Action>::new());
}

#[test]
fn techmino_consumer_writes_frames() {
    let mut c = TechminoConsumer::new(TIMING);
    c.tap(ActionKind::RotateCW);
    c.das_start(ActionKind::DasRight);
    c.das_release(ActionKind::DasRight);
    c.burst(vec![ActionKind::MoveLeft]);
    c.pipeline(ActionKind::DasLeft);
    assert_eq!(
        c.into_operations(),
        vec![
            180, 3, 183, 35, // tap CW
            186, 2, // DAS right down
            193, 34, // DAS right up
            200, 1, 203, 33, 206, 6, 209, 38, // burst: left, then the drop
            212, 1, 215, 6, 218, 38 // pipeline: left held, then the drop
        ]
    );
}

#[test]
fn varint_bytes() {
    assert_eq!(encode_operations(&vec![180, 1, 300, 33]), vec![129, 52, 1, 120, 33]);
    assert_eq!(encode_operations(&vec![16384, 6]), vec![129, 128, 0, 6]);
    assert_eq!(encode_operations(&vec![]), Vec::<u8>::new());
}

#[test]
fn replay_of_one_move() {
    let path = first_t_path();
    let mut c = TechminoConsumer::new(TIMING);
    compile_replay(&path, &[PieceType::T], &mut c);
    assert_eq!(c.into_operations(), vec![180, 1, 187, 33, 194, 6, 197, 38]);
    let bytes = export_replay(&path, &[PieceType::T], &TIMING);
    assert_eq!(bytes, vec![129, 52, 1, 7, 33, 7, 6, 3, 38]);
}

#[test]
fn replay_file_decodes_to_its_payload() {
    let path = first_t_path();
    let code = gen_replay(&b"{\"seed\":\"0\"}".to_vec(), &path, &[PieceType::T], &TIMING).unwrap();
    let compressed = base64::Engine::decode(&base64::engine::general_purpose::STANDARD, code.as_bytes()).unwrap();
    let mut data = Vec::new();
    flate2::read::ZlibDecoder::new(compressed.as_slice()).read_to_end(&mut data).unwrap();
    let mut expected = b"{\"seed\":\"0\"}\n".to_vec();
    expected.extend([129, 52, 1, 7, 33, 7, 6, 3, 38]);
    assert_eq!(data, expected);
    assert_ne!(compressed, expected);
    let same = tetris_sprint_lkp::replay::gen_replay(&b"{\"seed\":\"0\"}".to_vec(), &path, &[PieceType::T], &TIMING);
    assert_eq!(same, Some(code));
}

#[test]
fn endgame_table_remembers_states() {
    let mut shared = EndgameShared::new();
    assert_eq!(shared.best_keys(), u16::MAX);
    shared.set_best(120);
    assert_eq!(shared.best_keys(), 120);
    shared.set_best(130);
    assert_eq!(shared.best_keys(), 120);
    let node = SearchNode::<ShapeBoard>::initial().to_bitboard();
    let mut node = SearchNode { keys_pressed: 50, meta: 36, ..node };
    assert!(shared.visit(0, &node));
    assert!(!shared.visit(0, &node));
    node.keys_pressed = 49;
    assert!(shared.visit(0, &node));
    node.keys_pressed = 60;
    assert!(!shared.visit(0, &node));
    // another shard: a different piece position
    assert!(shared.visit(1, &node));
}

#[test]
fn endgame_finishes_with_an_i() {
    let start = SearchNode::<ShapeBoard> {
        state: board([1, 1, 1, 1, 1, 1, 0, 0, 0, 0]),
        keys_pressed: 100,
        meta: 39,
        parent_idx: 0,
    };
    let mut shared = EndgameShared::default();
    let solution = solve_pc(start.to_bitboard(), &[PieceType::I], 0, &mut shared);
    assert_eq!(solution.len(), 1);
    let last = solution[0];
    assert_eq!(last.meta & 0x1FF, 40);
    assert_eq!(last.keys_pressed, 102);
    assert_eq!(last.parent_idx, 0);
    assert_eq!(shared.best_keys(), 102);
    // already done: nothing to place
    let done = SearchNode { meta: 40, ..start };
    let mut shared = EndgameShared::new();
    assert!(solve_pc(done.to_bitboard(), &[PieceType::I], 0, &mut shared).is_empty());
    assert_eq!(shared.best_keys(), 100);
}

#[test]
fn backtrace_follows_parents() {
    let root = SearchNode::<ShapeBoard>::initial();
    let mut layer1 = Vec::new();
    generate_moves(&mut layer1, &mut NoReplay, &root, PieceType::T, 0);
    let mut layer2 = Vec::new();
    generate_moves(&mut layer2, &mut NoReplay, &layer1[3], PieceType::O, 3);
    let layers = vec![vec![root], layer1.clone()];
    let path = BeamSearch::backtrace_path(&layers, 2, &layer2[0]);
    assert_eq!(path, vec![root, layer1[3], layer2[0]]);
}

#[test]
fn checkmin_prefers_fewer_keys() {
    let root = SearchNode::<ShapeBoard>::initial();
    let pc = SearchNode::<ShapeBoard>::initial().to_bitboard();
    let b = Path { keys_pressed: 5, depth: 0, node: root, pc_sequence: vec![SearchNode { keys_pressed: 5, ..pc }] };
    let layers = vec![vec![root]];
    let found = BeamSearch::checkmin_path(&layers, &[PieceType::T], &[], &b).unwrap();
    assert_eq!(found.len(), 2);
    assert_eq!(found[1].keys_pressed(), 5);
    let better = vec![PathNode::Normal(SearchNode { keys_pressed: 4, ..root })];
    assert!(BeamSearch::checkmin_path(&layers, &[PieceType::T], &better, &b).is_none());
    let worse = vec![PathNode::Normal(SearchNode { keys_pressed: 9, ..root })];
    assert!(BeamSearch::checkmin_path(&layers, &[PieceType::T], &worse, &b).is_some());
}

#[test]
fn path_node_fields() {
    let n = SearchNode::<ShapeBoard> { state: ShapeBoard::default(), keys_pressed: 7, meta: 0x801, parent_idx: 0 };
    let p = PathNode::Normal(n);
    assert_eq!(p.meta(), 0x801);
    assert_eq!(p.keys_pressed(), 7);
    let q = PathNode::Pc(n.to_bitboard());
    assert_eq!(q.meta(), 0x801);
    assert_eq!(q.keys_pressed(), 7);
}

#[test]
fn board_features_of_a_node() {
    let node = SearchNode::<ShapeBoard> {
        state: board([1, 2, 3, 0, 0, 0, 0, 0, 0, 6]),
        keys_pressed: 3,
        meta: 0x800 | 0x200 | 38,
        parent_idx: 0,
    };
    assert_eq!(
        board_features(&node),
        BoardFeatures { held: true, bump: 10, bump_light: 1, parity: 2, max_height: 6, lines: 36, das_room: 5 }
    );
    let flat = SearchNode::<ShapeBoard> { state: board([2; 10]), keys_pressed: 0, meta: 0x400 | 3, parent_idx: 0 };
    assert_eq!(
        board_features(&flat),
        BoardFeatures { held: false, bump: 0, bump_light: 0, parity: 0, max_height: 2, lines: 3, das_room: 0 }
    );
}

#[test]
fn direct_replay_of_one_move() {
    let path = first_t_path();
    let ops = tetris_sprint_lkp::replay::compile_path(&path, &[PieceType::T], &TIMING);
    // the release of the last DAS waits for the end, then the drop and its extra frame
    assert_eq!(ops, vec![180, 1, 187, 33, 187, 6, 190, 38]);
    assert_eq!(ops.len(), 4 * path[1].keys_pressed() as usize);
    let bytes = tetris_sprint_lkp::replay::export_replay(&path, &[PieceType::T], &TIMING);
    assert_eq!(bytes, vec![129, 52, 1, 7, 33, 0, 6, 3, 38]);
}

#[test]
fn direct_replay_with_a_lone_hold() {
    let root = SearchNode::<ShapeBoard>::initial();
    let mut moves = Vec::new();
    generate_moves(&mut moves, &mut NoReplay, &root, PieceType::T, 0);
    let held = *moves.last().unwrap();
    let mut next = Vec::new();
    generate_moves(&mut next, &mut NoReplay, &held, PieceType::I, 1);
    let flat = next[3];
    let mut after = Vec::new();
    generate_moves(&mut after, &mut NoReplay, &flat, PieceType::O, 2);
    let o = after[4];
    let path = vec![PathNode::Normal(root), PathNode::Normal(held), PathNode::Normal(flat), PathNode::Normal(o)];
    let ops = tetris_sprint_lkp::replay::compile_path(&path, &[PieceType::T, PieceType::I, PieceType::O], &TIMING);
    assert_eq!(ops.len(), 4 * o.keys_pressed as usize);
    // the hold comes first, then the I drops without moving
    assert_eq!(&ops[..4], &[180, 8, 183, 40]);
    assert_eq!(&ops[4..8], &[186, 6, 189, 38]);
}

#[test]
fn i_pieces_left() {
    let seq = [PieceType::I, PieceType::T, PieceType::I, PieceType::O];
    assert_eq!(i_left_suffix(&seq), vec![2, 1, 1, 0, 0]);
    assert_eq!(i_left_suffix(&[]), vec![0]);
}

#[test]
fn diversity_bucket() {
    let node = SearchNode::<ShapeBoard> {
        state: board([0, 0, 0, 0, 0, 0, 0, 0, 0, 0]),
        keys_pressed: 0,
        meta: 0,
        parent_idx: 0,
    };
    assert_eq!(bucket_key(&node), (6, 0, 0));
    // five-bit fields: 7 at field 3 is bits 15..20
    let odd = SearchNode { state: ShapeBoard { packed_shape: 7 << 15 }, ..node };
    assert_eq!(bucket_key(&odd), (6, 7, 3));
}

#[test]
fn at_most_68_moves() {
    // J with an I held: every placement of both, and nothing more
    let root = SearchNode::<ShapeBoard> {
        state: board([2, 2, 2, 2, 2, 2, 2, 2, 2, 0]),
        keys_pressed: 0,
        meta: 7 << 11,
        parent_idx: 0,
    };
    for piece in [PieceType::J, PieceType::L, PieceType::T, PieceType::I, PieceType::O, PieceType::S, PieceType::Z] {
        let mut moves = Vec::new();
        generate_moves(&mut moves, &mut NoReplay, &root, piece, 0);
        assert!(moves.len() <= 68);
    }
}

#[test]
fn keys_charged_are_the_keys_played() {
    // every move from the empty board and from a flat board, with and
    // without a held piece: keys = presses of its key sequence + the drop
    // (+ the hold)
    let starts = [
        SearchNode::<ShapeBoard>::initial(),
        SearchNode::<ShapeBoard> { state: board([1; 10]), keys_pressed: 0, meta: 3 << 11, parent_idx: 0 },
    ];
    for start in starts {
        for piece in [PieceType::J, PieceType::L, PieceType::T, PieceType::I, PieceType::O, PieceType::S, PieceType::Z] {
            let mut moves = Vec::new();
            let mut replay: Vec<ReplayMove> = Vec::new();
            generate_moves(&mut moves, &mut replay, &start, piece, 0);
            for (n, m) in moves.iter().zip(replay.iter()) {
                if m.hold_only {
                    assert_eq!(n.keys_pressed, start.keys_pressed + 1);
                    continue;
                }
                let path = vec![PathNode::Normal(start), PathNode::Normal(*n)];
                let ops = tetris_sprint_lkp::replay::compile_path(&path, &[piece], &TIMING);
                assert_eq!(ops.len(), 4 * n.keys_pressed as usize);
            }
        }
    }
}

fn read_varints(bytes: &[u8]) -> Vec<u64> {
    let mut out = Vec::new();
    let mut acc = 0u64;
    for &b in bytes {
        acc = acc * 128 + (b & 127) as u64;
        if b < 128 {
            out.push(acc);
            acc = 0;
        }
    }
    out
}

#[test]
fn replay_bytes_read_back() {
    let ops = vec![180, 1, 187, 33, 194, 6, 197, 38, 70000, 3, 70003, 35];
    let vals = read_varints(&encode_operations(&ops));
    let mut restored = Vec::new();
    for (i, &v) in vals.iter().enumerate() {
        let x = if i > 1 && i % 2 == 0 { (v as u32).wrapping_add(restored[i - 2]) } else { v as u32 };
        restored.push(x);
    }
    assert_eq!(restored, ops);
}

#[test]
fn endgame_solution_is_a_move() {
    let start = SearchNode::<ShapeBoard> {
        state: board([1, 1, 1, 1, 1, 1, 0, 0, 0, 0]),
        keys_pressed: 100,
        meta: 39,
        parent_idx: 0,
    }
    .to_bitboard();
    let mut shared = EndgameShared::new();
    let solution = solve_pc(start, &[PieceType::I], 0, &mut shared);
    let mut moves = Vec::new();
    generate_moves(&mut moves, &mut NoReplay, &start, PieceType::I, 0);
    assert!(moves.contains(&solution[0]));
    let path = vec![PathNode::Pc(start), PathNode::Pc(solution[0])];
    let m = rebuild_actions_general(&path[0], PieceType::I, &path[1]);
    assert_eq!((m.finesse_idx, m.x), (7, 6));
}

fn low_field(v: u64) -> SearchNode<ShapeBoard> {
    SearchNode { state: ShapeBoard { packed_shape: v }, keys_pressed: 0, meta: 0, parent_idx: 0 }
}

#[test]
fn layer_keeps_at_most_a_bucket_of_each_profile() {
    let mut ordered: Vec<SearchNode<ShapeBoard>> = vec![low_field(3); 301];
    ordered.push(low_field(4));
    let layer = BeamSearch::select_layer(&ordered);
    assert_eq!(layer.len(), 301);
    assert_eq!(layer.iter().filter(|n| n.state.packed_shape == 3).count(), 300);
    assert_eq!(layer[300].state.packed_shape, 4);
}

#[test]
fn layer_stops_at_the_beam_width() {
    let mut ordered: Vec<SearchNode<ShapeBoard>> = Vec::new();
    for _ in 0..200 {
        for v in 0..32u64 {
            ordered.push(low_field(v));
        }
    }
    let layer = BeamSearch::select_layer(&ordered);
    assert_eq!(layer.len(), 3000);
    for (i, n) in layer.iter().enumerate() {
        assert_eq!(n.state.packed_shape, ordered[i].state.packed_shape);
    }
}

#[test]
fn node_step_prunes_expands_and_hands_over() {
    let root = SearchNode::<ShapeBoard>::initial();
    assert_eq!(BeamSearch::node_step(&root, 0, 101, None), NodeStep::Expand);
    let five = SearchNode { keys_pressed: 5, ..root };
    assert_eq!(BeamSearch::node_step(&five, 0, 101, Some(104)), NodeStep::Prune);
    assert_eq!(BeamSearch::node_step(&five, 0, 101, Some(105)), NodeStep::Expand);
    let near = SearchNode { keys_pressed: 200, meta: 36, ..root };
    assert_eq!(BeamSearch::node_step(&near, 95, 101, None), NodeStep::Endgame);
    assert_eq!(BeamSearch::node_step(&near, 94, 101, None), NodeStep::Expand);
    let short = SearchNode { meta: 35, ..near };
    assert_eq!(BeamSearch::node_step(&short, 95, 101, Some(300)), NodeStep::Expand);
}

#[test]
fn state_hash_packs_the_state_above_the_board() {
    let node = SearchNode { state: ShapeBoard { packed_shape: 5 }, keys_pressed: 1, meta: 3, parent_idx: 0 };
    assert_eq!(BeamSearch::state_hash(&node), 5 | (3u64 << 50));
}

fn solution(keys: u16, depth: usize) -> Path {
    let root = SearchNode::<ShapeBoard>::initial();
    Path { keys_pressed: keys, depth, node: root, pc_sequence: Vec::new() }
}

#[test]
fn offered_solutions_keep_the_fewest_keys() {
    let mut best: Vec<Path> = Vec::new();
    BeamSearch::offer_solution(&mut best, solution(50, 1));
    BeamSearch::offer_solution(&mut best, solution(60, 2));
    assert_eq!(best.iter().map(|p| p.depth).collect::<Vec<_>>(), vec![1]);
    BeamSearch::offer_solution(&mut best, solution(50, 3));
    assert_eq!(best.iter().map(|p| p.depth).collect::<Vec<_>>(), vec![1, 3]);
    BeamSearch::offer_solution(&mut best, solution(40, 4));
    assert_eq!(best.iter().map(|p| p.depth).collect::<Vec<_>>(), vec![4]);
}

#[test]
fn merged_solutions_keep_the_fewest_keys() {
    let depths = |v: &Vec<Path>| v.iter().map(|p| p.depth).collect::<Vec<_>>();
    let m = BeamSearch::merge_solutions(vec![solution(50, 1)], vec![solution(50, 2), solution(50, 3)]);
    assert_eq!(depths(&m), vec![1, 2, 3]);
    let m = BeamSearch::merge_solutions(vec![solution(50, 1)], vec![solution(49, 2)]);
    assert_eq!(depths(&m), vec![2]);
    let m = BeamSearch::merge_solutions(vec![solution(50, 1)], vec![solution(51, 2)]);
    assert_eq!(depths(&m), vec![1]);
    let m = BeamSearch::merge_solutions(Vec::new(), vec![solution(51, 2)]);
    assert_eq!(depths(&m), vec![2]);
    let m = BeamSearch::merge_solutions(vec![solution(51, 2)], Vec::new());
    assert_eq!(depths(&m), vec![2]);
}

/// Plays Techmino operations on a keyboard: a side key (codes 1 and 2) is
/// pressed only while neither side key is down, a key is released only while
/// down. Returns whether every operation kept that, and whether any key is
/// still down at the end.
fn side_keys_ok(ops: &[u32]) -> (bool, bool) {
    let mut down = [false; 9];
    let mut ok = true;
    for pair in ops.chunks(2) {
        let code = pair[1];
        if code < 32 {
            let k = code as usize;
            if (k == 1 || k == 2) && (down[1] || down[2]) {
                ok = false;
            }
            if down[k] {
                ok = false;
            }
            down[k] = true;
        } else {
            let k = (code - 32) as usize;
            if !down[k] {
                ok = false;
            }
            down[k] = false;
        }
    }
    (ok, down.iter().any(|d| *d))
}

#[test]
fn replay_keeps_the_das_rules() {
    let root = SearchNode::<ShapeBoard>::initial();
    let mut first = Vec::new();
    generate_moves(&mut first, &mut NoReplay, &root, PieceType::T, 0);
    let n1 = first[0];
    let mut second = Vec::new();
    generate_moves(&mut second, &mut NoReplay, &n1, PieceType::T, 0);
    let mut carried_paths = 0;
    for n2 in second.iter() {
        let path = vec![PathNode::Normal(root), PathNode::Normal(n1), PathNode::Normal(*n2)];
        let pieces = [PieceType::T, PieceType::T];
        let steps = compile_action(&path, &pieces);
        if steps.len() == 2 && steps[1].reused {
            carried_paths += 1;
        }
        let mut c = TechminoConsumer::new(TIMING);
        compile_replay(&path, &pieces, &mut c);
        let ops = c.into_operations();
        let (ok, still_down) = side_keys_ok(&ops);
        assert!(ok);
        assert!(!still_down);
    }
    assert!(carried_paths > 0);
}

#[test]
fn replay_data_is_the_metadata_line_and_the_bytes() {
    let path = first_t_path();
    let data = replay_data(&b"{}".to_vec(), &path, &[PieceType::T], &TIMING);
    assert_eq!(data, vec![b'{', b'}', 10, 129, 52, 1, 7, 33, 7, 6, 3, 38]);
}

#[test]
fn replay_text_is_base64() {
    assert_eq!(replay_text(None), None);
    assert_eq!(replay_text(Some(vec![1, 2, 3])), Some("AQID".to_string()));
    assert_eq!(replay_text(Some(vec![0xFF])), Some("/w==".to_string()));
    assert_eq!(replay_text(Some(Vec::new())), Some(String::new()));
}

#[test]
fn pick_best_keeps_the_fewest_keys() {
    let root = SearchNode::<ShapeBoard>::initial();
    let pc_root = root.to_bitboard();
    let mut moves = Vec::new();
    generate_moves(&mut moves, &mut NoReplay, &pc_root, PieceType::T, 0);
    let layers = vec![vec![root]];
    let sol = |m: SearchNode<BitBoard>| Path { keys_pressed: m.keys_pressed, depth: 0, node: root, pc_sequence: vec![m] };
    let fewest = *moves.iter().min_by_key(|m| m.keys_pressed).unwrap();
    let most = *moves.iter().max_by_key(|m| m.keys_pressed).unwrap();
    assert!(fewest.keys_pressed < most.keys_pressed);
    let found = BeamSearch::pick_best(&layers, &[PieceType::T], Vec::new(), &vec![sol(most), sol(fewest), sol(most)]);
    assert_eq!(found.len(), 2);
    assert_eq!(found[1].keys_pressed(), fewest.keys_pressed);
    let kept = vec![PathNode::Normal(root)];
    let found = BeamSearch::pick_best(&layers, &[PieceType::T], kept, &vec![sol(fewest)]);
    assert_eq!(found.len(), 1);
    assert_eq!(found[0].keys_pressed(), 0);
    let none = BeamSearch::pick_best(&layers, &[PieceType::T], Vec::new(), &Vec::new());
    assert!(none.is_empty());
}

#[test]
fn writer_check_fails_only_on_a_double_hold() {
    let root = SearchNode::<ShapeBoard>::initial();
    assert!(techmino_checks_pass(&first_t_path(), &[PieceType::T], &TIMING));
    let mut first = Vec::new();
    generate_moves(&mut first, &mut NoReplay, &root, PieceType::T, 0);
    let mut checked = 0;
    let mut double_holds = 0;
    for n1 in first.iter() {
        let mut second = Vec::new();
        generate_moves(&mut second, &mut NoReplay, n1, PieceType::O, 0);
        for n2 in second.iter() {
            let path = vec![PathNode::Normal(root), PathNode::Normal(*n1), PathNode::Normal(*n2)];
            let pieces = [PieceType::T, PieceType::O];
            let m1 = rebuild_actions_general(&path[0], PieceType::T, &path[1]);
            let m2 = rebuild_actions_general(&path[1], PieceType::O, &path[2]);
            let double_hold = m1.hold_only && m2.hold;
            assert_eq!(techmino_checks_pass(&path, &pieces, &TIMING), !double_hold);
            if double_hold {
                double_holds += 1;
                continue;
            }
            let mut c = TechminoConsumer::new(TIMING);
            compile_replay(&path, &pieces, &mut c);
            let ops = c.into_operations();
            let (ok, still_down) = side_keys_ok(&ops);
            assert!(ok && !still_down);
            let steps = compile_action(&path, &pieces);
            let last = steps.last().unwrap().idx + 1;
            assert_eq!(ops.len(), 4 * path[last].keys_pressed() as usize);
            checked += 1;
        }
    }
    assert!(checked > 50 && double_holds > 0);
}

#[test]
fn endgame_drop_adds_four_cells_less_ten_per_line() {
    let start = BitBoard::from_shape_board(board([2, 2, 2, 2, 2, 2, 2, 1, 0, 0]));
    let widths = [3u8, 2, 3, 2, 3, 2, 3, 2, 3, 2, 3, 2, 3, 2, 3, 2, 2, 4, 1];
    for s in 0u8..19 {
        for x in 0u8..=(10 - widths[s as usize]) {
            if let Some((b, n)) = start.drop_piece(x, s, 36) {
                assert_eq!(b.occupied_cells() as u32 + 10 * n as u32, start.occupied_cells() as u32 + 4);
            }
        }
    }
    let six = BitBoard::from_shape_board(board([1, 1, 1, 1, 1, 1, 0, 0, 0, 0]));
    let (b, n) = six.drop_piece(6, 17, 39).unwrap();
    assert_eq!((six.occupied_cells(), b.occupied_cells(), n), (6, 0, 1));
}

#[test]
fn stack_drop_adds_four_cells_less_ten_per_line() {
    let widths = [3u8, 2, 3, 2, 3, 2, 3, 2, 3, 2, 3, 2, 3, 2, 3, 2, 2, 4, 1];
    let cells = |b: &ShapeBoard| (0..10).map(|c| b.get_height(c)).sum::<u64>();
    let start = board([3, 3, 3, 3, 3, 3, 2, 2, 0, 3]);
    let mut drops = 0;
    for s in 0u8..19 {
        for x in 0u8..=(10 - widths[s as usize]) {
            if let Some((b, n)) = start.drop_piece(x, s, 0) {
                assert_eq!(cells(&b) + 10 * n as u64, cells(&start) + 4);
                drops += 1;
            }
        }
    }
    assert!(drops > 0);
    let well = board([4, 4, 4, 4, 4, 4, 4, 4, 4, 0]);
    let (b, n) = well.drop_piece(9, 18, 0).unwrap();
    assert_eq!((n, cells(&b)), (4, 0));
}

#[test]
fn endgame_needs_a_piece_for_every_four_missing_cells() {
    let start = SearchNode::<ShapeBoard> { state: board([0; 10]), keys_pressed: 0, meta: 38, parent_idx: 0 }
        .to_bitboard();
    let missing = (40 - 38) * 10 - start.state.occupied_cells() as usize;
    let mut shared = EndgameShared::new();
    let solution = solve_pc(start, &[PieceType::O; 6], 0, &mut shared);
    assert!(!solution.is_empty());
    assert!(solution.len() >= missing / 4);
    assert_eq!(solution.len(), 5);
    assert_eq!(solution[4].meta & 0x1FF, 40);
    assert_eq!(solution[4].state.occupied_cells(), 0);
}

#[test]
fn replay_checks_tell_writable_paths() {
    let path = first_t_path();
    assert!(replay_checks(&path, &[PieceType::T]));
    assert!(!replay_checks(&path, &[]));
    assert!(!replay_checks(&[], &[PieceType::T]));
    assert!(!replay_checks(&path, &[PieceType::O]));
    let stuck = vec![path[0], path[0]];
    assert!(!replay_checks(&stuck, &[PieceType::T]));
    assert!(replay_checks(&path[..1], &[PieceType::T]) == false);
}

#[test]
fn endgame_table_turns_away_a_repeated_visit() {
    let mut shared = EndgameShared::new();
    let node = SearchNode { keys_pressed: 20, meta: 37, ..SearchNode::<ShapeBoard>::initial().to_bitboard() };
    assert!(shared.visit(2, &node));
    assert!(!shared.visit(2, &node));
    assert!(!shared.visit(2, &node));
}

#[test]
fn path_steps_check_tells_runs_of_moves() {
    let path = first_t_path();
    assert!(path_steps_check(&path, &[PieceType::T]));
    assert!(!path_steps_check(&path, &[PieceType::O]));
    assert!(!path_steps_check(&[], &[PieceType::T]));
    assert!(path_steps_check(&path[..1], &[PieceType::T]));
}

#[test]
fn column_ten_reads_the_bits_above() {
    let b = ShapeBoard { packed_shape: 5u64 << 60 };
    assert_eq!(b.get_height(10), 5);
    assert_eq!(b.get_height(9), 0);
}
