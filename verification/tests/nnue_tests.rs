use nnue::arith::screlu;
use nnue::Accumulator;
use nnue::Network;
use nnue::NnueError;

/// A network with the small illustrative constants: hidden width 2, six
/// features, zero bias, feature 5 carrying the column `[300, -50]`, and
/// unit output weights.
fn scenario_net() -> Network {
    let mut cols: Vec<Vec<i16>> = Vec::new();
    for _ in 0..5 {
        cols.push(vec![1, 1]);
    }
    cols.push(vec![300, -50]);
    Network::from_parts(cols, vec![0, 0], vec![1, 1, 1, 1], 0).unwrap()
}

/// A small asymmetric network for the update and symmetry tests.
fn small_net() -> Network {
    let cols = vec![
        vec![10, -3],
        vec![-7, 40],
        vec![25, 25],
        vec![-1, 2],
        vec![100, -100],
        vec![0, 13],
    ];
    Network::from_parts(cols, vec![5, -9], vec![3, -2, 5, 7], 11).unwrap()
}

#[test]
fn scenario_small_constants() {
    let net = scenario_net();
    let mut us = Accumulator::new(&net);
    let them = Accumulator::new(&net);
    us.add_feature(5, &net);
    // Lane values after the single activation.
    assert_eq!(us.values(), &vec![300, -50]);
    // Lane 0 clamps to 255 and squares to 65025; lane 1 clamps to 0.
    // them contributes nothing; 65025 / 255 = 255; 400 * 255 = 102000;
    // 102000 / (255 * 64) truncates to 6.
    assert_eq!(net.evaluate(&us, &them), 6);
}

#[test]
fn negative_sum_truncates_toward_zero() {
    let mut cols: Vec<Vec<i16>> = Vec::new();
    for _ in 0..6 {
        cols.push(vec![300, -50]);
    }
    let net = Network::from_parts(cols, vec![0, 0], vec![-1, -1, -1, -1], 0).unwrap();
    let mut us = Accumulator::new(&net);
    let them = Accumulator::new(&net);
    us.add_feature(5, &net);
    // The raw sum is -65025; -65025 / 255 = -255; 400 * -255 = -102000;
    // -102000 / 16320 truncates toward zero to -6, not down to -7.
    assert_eq!(net.evaluate(&us, &them), -6);
}

#[test]
fn screlu_boundaries() {
    // Exactly at QA the lane clamps to QA itself.
    assert_eq!(screlu(255), 65025);
    // Above QA it still clamps to QA.
    assert_eq!(screlu(256), 65025);
    assert_eq!(screlu(300), 65025);
    assert_eq!(screlu(i16::MAX), 65025);
    // Zero and negative lanes contribute nothing.
    assert_eq!(screlu(0), 0);
    assert_eq!(screlu(-1), 0);
    assert_eq!(screlu(-50), 0);
    assert_eq!(screlu(i16::MIN), 0);
    // In between, the lane is squared unclipped.
    assert_eq!(screlu(1), 1);
    assert_eq!(screlu(10), 100);
    assert_eq!(screlu(254), 64516);
}

#[test]
fn add_then_remove_restores_values() {
    let net = small_net();
    let mut acc = Accumulator::new(&net);
    acc.add_feature(1, &net);
    acc.add_feature(4, &net);
    let before = acc.values().clone();
    acc.add_feature(2, &net);
    acc.remove_feature(2, &net);
    assert_eq!(acc.values(), &before);
}

#[test]
fn incremental_matches_full_recompute() {
    let net = small_net();
    // Start from the active set {1, 2}, then add 4 and remove 1.
    let mut acc = Accumulator::new(&net);
    acc.add_feature(1, &net);
    acc.add_feature(2, &net);
    acc.add_feature(4, &net);
    acc.remove_feature(1, &net);
    // A fresh reset plus re-adding the resulting set {2, 4}, enumerated
    // in the other order, must agree exactly.
    let mut fresh = Accumulator::new(&net);
    fresh.add_feature(4, &net);
    fresh.add_feature(2, &net);
    assert_eq!(acc.values(), fresh.values());
}

#[test]
fn reset_restores_bias() {
    let net = small_net();
    let mut acc = Accumulator::new(&net);
    acc.add_feature(0, &net);
    acc.add_feature(3, &net);
    acc.reset(&net);
    assert_eq!(acc.values(), net.feature_bias());
    assert_eq!(acc.values(), &vec![5, -9]);
}

#[test]
fn evaluate_deterministic() {
    let net = small_net();
    let mut us = Accumulator::new(&net);
    let mut them = Accumulator::new(&net);
    us.add_feature(2, &net);
    them.add_feature(1, &net);
    let first = net.evaluate(&us, &them);
    let second = net.evaluate(&us, &them);
    assert_eq!(first, second);
    assert_eq!(net.try_evaluate(&us, &them), Some(first));
}

#[test]
fn evaluate_symmetry_swapped() {
    let net = small_net();
    // The same network with the output-weight halves exchanged.
    let cols = vec![
        vec![10, -3],
        vec![-7, 40],
        vec![25, 25],
        vec![-1, 2],
        vec![100, -100],
        vec![0, 13],
    ];
    let swapped = Network::from_parts(cols, vec![5, -9], vec![5, 7, 3, -2], 11).unwrap();
    let mut us = Accumulator::new(&net);
    let mut them = Accumulator::new(&net);
    us.add_feature(0, &net);
    us.add_feature(5, &net);
    them.add_feature(2, &net);
    assert_eq!(swapped.evaluate(&them, &us), net.evaluate(&us, &them));
}

#[test]
fn checked_ops_reject_out_of_range() {
    let net = small_net();
    let mut acc = Accumulator::new(&net);
    let before = acc.values().clone();
    assert_eq!(acc.checked_add_feature(6, &net), Err(NnueError::IndexOutOfRange));
    assert_eq!(acc.values(), &before);
    assert_eq!(acc.checked_remove_feature(100, &net), Err(NnueError::IndexOutOfRange));
    assert_eq!(acc.values(), &before);
    assert_eq!(acc.checked_add_feature(5, &net), Ok(()));
    assert_eq!(acc.values(), &vec![5, 4]);
    assert_eq!(acc.checked_remove_feature(5, &net), Ok(()));
    assert_eq!(acc.values(), &before);
}

#[test]
fn try_evaluate_reports_score_overflow() {
    // A wide network driven to saturation: every lane clamps to 255 and
    // meets the largest output weight, pushing the score past 32 bits.
    let h: usize = 6000;
    let cols = vec![vec![0; h]];
    let net = Network::from_parts(cols, vec![300; h], vec![i16::MAX; 2 * h], 0).unwrap();
    let us = Accumulator::new(&net);
    let them = Accumulator::new(&net);
    assert_eq!(net.try_evaluate(&us, &them), None);
}

#[test]
fn from_parts_rejects_mismatched_dims() {
    // A column shorter than the bias vector.
    let r = Network::from_parts(vec![vec![1, 2], vec![3]], vec![0, 0], vec![1, 1, 1, 1], 0);
    assert_eq!(r.err(), Some(NnueError::InvalidFormat));
    // An output-weight vector that is not twice the hidden width.
    let r = Network::from_parts(vec![vec![1, 2]], vec![0, 0], vec![1, 1, 1], 0);
    assert_eq!(r.err(), Some(NnueError::InvalidFormat));
}

/// Little-endian bytes of a signed 16-bit value.
fn le(v: i16) -> [u8; 2] {
    [(v as u16 & 0xff) as u8, (v as u16 >> 8) as u8]
}

/// A blob for two features and hidden width two: columns `[300, -50]`
/// and `[1, -1]`, bias `[2, 3]`, output weights `[1, 1, 1, 1]`, output
/// bias `7`.
fn blob() -> Vec<u8> {
    let words: [i16; 11] = [300, -50, 1, -1, 2, 3, 1, 1, 1, 1, 7];
    let mut bytes = Vec::new();
    for w in words {
        bytes.extend_from_slice(&le(w));
    }
    bytes
}

#[test]
fn load_reads_layout() {
    let bytes = blob();
    assert_eq!(bytes.len(), 22);
    let net = Network::from_bytes(&bytes, 2, 2).unwrap();
    assert_eq!(net.feature_count(), 2);
    assert_eq!(net.hidden_size(), 2);
    assert_eq!(net.feature_column(0), &vec![300, -50]);
    assert_eq!(net.feature_column(1), &vec![1, -1]);
    assert_eq!(net.feature_bias(), &vec![2, 3]);
    assert_eq!(net.output_weights(), &vec![1, 1, 1, 1]);
    assert_eq!(net.output_bias(), 7);
    let acc = Accumulator::new(&net);
    assert_eq!(acc.values(), &vec![2, 3]);
}

#[test]
fn scenario_from_blob() {
    // The small-constant scenario encoded as a blob: six features of
    // hidden width two, zero bias, feature 5 carrying `[300, -50]`,
    // unit output weights, zero output bias.
    let mut words: Vec<i16> = Vec::new();
    for _ in 0..5 {
        words.push(1);
        words.push(1);
    }
    words.extend_from_slice(&[300, -50]);
    words.extend_from_slice(&[0, 0]);
    words.extend_from_slice(&[1, 1, 1, 1]);
    words.push(0);
    let mut bytes: Vec<u8> = Vec::new();
    for w in words {
        bytes.extend_from_slice(&le(w));
    }
    let net = Network::from_bytes(&bytes, 6, 2).unwrap();
    let mut us = Accumulator::new(&net);
    let them = Accumulator::new(&net);
    us.add_feature(5, &net);
    assert_eq!(net.evaluate(&us, &them), 6);
}

#[test]
fn load_rejects_truncated_blob() {
    let mut bytes = blob();
    assert!(Network::from_bytes(&bytes, 2, 2).is_ok());
    // One byte short of the expected total length must be rejected.
    bytes.pop();
    assert_eq!(Network::from_bytes(&bytes, 2, 2).err(), Some(NnueError::InvalidFormat));
    // One byte over must be rejected as well.
    bytes.push(0);
    bytes.push(0);
    assert_eq!(Network::from_bytes(&bytes, 2, 2).err(), Some(NnueError::InvalidFormat));
    // The empty blob never matches the layout.
    assert_eq!(Network::from_bytes(&Vec::new(), 2, 2).err(), Some(NnueError::InvalidFormat));
}
