use bitcoin_spv_lib::codec::validate_vin;
use bitcoin_spv_lib::codec::validate_vout;
use bitcoin_spv_lib::decode::decode_difficulty;
use bitcoin_spv_lib::decode::decode_proof;
use bitcoin_spv_lib::decode::Difficulty;
use bitcoin_spv_lib::decode::SPVProof;
use bitcoin_spv_lib::epoch::check_epoch;
use bitcoin_spv_lib::header::validate_chain;
use bitcoin_spv_lib::merkle::verify_merkle;
use bitcoin_spv_lib::outcome::Error;
use bitcoin_spv_lib::spv::verify;
use bitcoin_spv_lib::tx::compute_txid;

fn h256(data: &[u8]) -> Vec<u8> {
    bitcoin_spv::btcspv::hash256(&[data]).as_ref().to_vec()
}

fn combine(a: &[u8], b: &[u8]) -> Vec<u8> {
    let mut c = a.to_vec();
    c.extend_from_slice(b);
    h256(&c)
}

/// Compact difficulty encoding of the maximum (difficulty one) target.
const DIFF1_BITS: [u8; 4] = [0xff, 0xff, 0x00, 0x1d];

fn header(prev: &[u8], root: &[u8], bits: [u8; 4]) -> Vec<u8> {
    let mut h = vec![0u8; 80];
    h[4..36].copy_from_slice(prev);
    h[36..68].copy_from_slice(root);
    h[72..76].copy_from_slice(&bits);
    h
}

/// A hash-linked chain of `n` difficulty-one headers; the last one records
/// `root_last` as its Merkle root.
fn linked_chain(n: usize, root_last: &[u8]) -> Vec<u8> {
    let mut out: Vec<u8> = Vec::new();
    let mut prev = vec![0u8; 32];
    for i in 0..n {
        let root = if i + 1 == n { root_last.to_vec() } else { vec![0u8; 32] };
        let h = header(&prev, &root, DIFF1_BITS);
        prev = h256(&h);
        out.extend_from_slice(&h);
    }
    out
}

/// One input, empty script: count prefix, 36-byte outpoint, zero script
/// length, 4-byte sequence.
fn sample_vin() -> Vec<u8> {
    let mut v = vec![1u8];
    v.extend_from_slice(&[0u8; 36]);
    v.push(0);
    v.extend_from_slice(&[0xff, 0xff, 0xff, 0xff]);
    v
}

/// One output, empty script: count prefix, 8-byte value, zero script length.
fn sample_vout() -> Vec<u8> {
    let mut v = vec![1u8];
    v.extend_from_slice(&[0u8; 8]);
    v.push(0);
    v
}

fn be32(value: u8) -> Vec<u8> {
    let mut v = vec![0u8; 32];
    v[31] = value;
    v
}

fn sample_difficulty() -> Difficulty {
    Difficulty { current: be32(1), previous: be32(2) }
}

/// A fully valid proof: the computed transaction id sits at leaf 0 of a
/// four-leaf tree whose root the last of six linked headers records.
fn sample_proof() -> SPVProof {
    let version = vec![1u8, 0, 0, 0];
    let locktime = vec![0u8; 4];
    let vin = sample_vin();
    let vout = sample_vout();
    let tx_id = compute_txid(&version, &vin, &vout, &locktime);
    let l1 = be32(0x11);
    let l2 = be32(0x22);
    let l3 = be32(0x33);
    let root = combine(&combine(&tx_id, &l1), &combine(&l2, &l3));
    let mut nodes = l1.clone();
    nodes.extend_from_slice(&combine(&l2, &l3));
    let headers = linked_chain(6, &root);
    SPVProof {
        version,
        vin,
        vout,
        locktime,
        tx_id,
        index: 0,
        headers,
        intermediate_nodes: nodes,
    }
}

fn encode(p: &SPVProof) -> Vec<u8> {
    let mut b: Vec<u8> = Vec::new();
    b.extend_from_slice(&p.version);
    b.extend_from_slice(&(p.vin.len() as u32).to_le_bytes());
    b.extend_from_slice(&p.vin);
    b.extend_from_slice(&(p.vout.len() as u32).to_le_bytes());
    b.extend_from_slice(&p.vout);
    b.extend_from_slice(&p.locktime);
    b.extend_from_slice(&p.tx_id);
    b.extend_from_slice(&p.index.to_le_bytes());
    b.extend_from_slice(&(p.headers.len() as u32).to_le_bytes());
    b.extend_from_slice(&p.headers);
    b.extend_from_slice(&(p.intermediate_nodes.len() as u32).to_le_bytes());
    b.extend_from_slice(&p.intermediate_nodes);
    b
}

#[test]
fn chain_pair_accumulates_work() {
    let chain = linked_chain(2, &[0u8; 32]);
    let summary = validate_chain(&chain).unwrap();
    assert_eq!(summary.accumulated_work, vec![2u8]);
    assert_eq!(summary.first_difficulty, vec![1u8]);
    assert_eq!(summary.last_merkle_root, vec![0u8; 32]);
}

#[test]
fn chain_linkage_broken_by_one_bit() {
    for i in 1..3usize {
        let mut chain = linked_chain(3, &[0u8; 32]);
        chain[80 * i + 4] ^= 0x01;
        assert_eq!(validate_chain(&chain).err(), Some(Error::ChainLinkageBroken));
    }
}

#[test]
fn chain_structural_errors() {
    assert_eq!(validate_chain(&[]).err(), Some(Error::MalformedProofEncoding));
    assert_eq!(validate_chain(&vec![0u8; 79]).err(), Some(Error::MalformedProofEncoding));
    // A zero mantissa has no defined work value.
    assert_eq!(validate_chain(&vec![0u8; 80]).err(), Some(Error::MalformedProofEncoding));
}

#[test]
fn txid_is_deterministic_and_is_the_double_hash() {
    let version = vec![2u8, 0, 0, 0];
    let vin = sample_vin();
    let vout = sample_vout();
    let locktime = vec![0xff, 0xff, 0xff, 0xff];
    let a = compute_txid(&version, &vin, &vout, &locktime);
    let b = compute_txid(&version, &vin, &vout, &locktime);
    assert_eq!(a, b);
    let mut serialized = version.clone();
    serialized.extend_from_slice(&vin);
    serialized.extend_from_slice(&vout);
    serialized.extend_from_slice(&locktime);
    assert_eq!(a, h256(&serialized));
    assert_eq!(a.len(), 32);
}

#[test]
fn merkle_round_trip_all_leaves() {
    // A synthetic tree of 2^3 leaves.
    let leaves: Vec<Vec<u8>> = (0..8u8).map(|i| be32(i + 1)).collect();
    let level1: Vec<Vec<u8>> = (0..4).map(|i| combine(&leaves[2 * i], &leaves[2 * i + 1])).collect();
    let level2: Vec<Vec<u8>> = (0..2).map(|i| combine(&level1[2 * i], &level1[2 * i + 1])).collect();
    let root = combine(&level2[0], &level2[1]);
    for j in 0..8usize {
        let mut path: Vec<u8> = Vec::new();
        path.extend_from_slice(&leaves[j ^ 1]);
        path.extend_from_slice(&level1[(j / 2) ^ 1]);
        path.extend_from_slice(&level2[(j / 4) ^ 1]);
        assert!(verify_merkle(&leaves[j], &root, &path, j as u64));
        // Flipping one bit in the leaf makes verification fail.
        let mut bad_leaf = leaves[j].clone();
        bad_leaf[0] ^= 0x80;
        assert!(!verify_merkle(&bad_leaf, &root, &path, j as u64));
        // Flipping one bit in an intermediate node makes verification fail.
        let mut bad_path = path.clone();
        bad_path[40] ^= 0x01;
        assert!(!verify_merkle(&leaves[j], &root, &bad_path, j as u64));
    }
}

#[test]
fn merkle_empty_path_compares_leaf_to_root() {
    let leaf = be32(9);
    assert!(verify_merkle(&leaf, &leaf, &[], 0));
    assert!(!verify_merkle(&leaf, &be32(8), &[], 0));
    // A path that is not whole 32-byte digests never verifies.
    assert!(!verify_merkle(&leaf, &leaf, &[0u8; 31], 0));
}

#[test]
fn epoch_current_and_previous_pass_third_value_fails() {
    let current = be32(1);
    let previous = be32(2);
    let observed = vec![0x0cu8];  // 12 units, enough for either epoch
    assert_eq!(check_epoch(&current, &current, &previous, &observed), Ok(()));
    assert_eq!(check_epoch(&previous, &current, &previous, &observed), Ok(()));
    let third = be32(3);
    assert_eq!(
        check_epoch(&third, &current, &previous, &observed),
        Err(Error::UnknownDifficultyEpoch)
    );
}

#[test]
fn work_boundary_exact_multiple_passes_one_less_fails() {
    let current = be32(1);
    let previous = be32(2);
    assert_eq!(check_epoch(&current, &current, &previous, &vec![6u8]), Ok(()));
    assert_eq!(
        check_epoch(&current, &current, &previous, &vec![5u8]),
        Err(Error::InsufficientWork)
    );
    // Leading zero bytes do not change a value.
    assert_eq!(check_epoch(&current, &current, &previous, &be32(6)), Ok(()));
}

#[test]
fn verify_accepts_a_valid_proof() {
    assert_eq!(verify(&sample_proof(), &sample_difficulty()), Ok(()));
}

#[test]
fn verify_rejects_bad_vin_and_vout() {
    let mut p = sample_proof();
    p.vin.push(0);
    assert_eq!(verify(&p, &sample_difficulty()), Err(Error::InvalidVin));
    let mut p = sample_proof();
    p.vout.push(0);
    assert_eq!(verify(&p, &sample_difficulty()), Err(Error::InvalidVout));
}

#[test]
fn verify_rejects_wrong_txid() {
    let mut p = sample_proof();
    p.tx_id[0] ^= 0x01;
    assert_eq!(verify(&p, &sample_difficulty()), Err(Error::TxIdMismatch));
}

#[test]
fn verify_rejects_broken_linkage() {
    let mut p = sample_proof();
    p.headers[80 + 4] ^= 0x01;
    assert_eq!(verify(&p, &sample_difficulty()), Err(Error::ChainLinkageBroken));
}

#[test]
fn verify_rejects_unknown_epoch() {
    let p = sample_proof();
    let d = Difficulty { current: be32(5), previous: be32(7) };
    assert_eq!(verify(&p, &d), Err(Error::UnknownDifficultyEpoch));
}

#[test]
fn epoch_gate_decides_before_merkle_gate() {
    // One difficulty-one header: accumulated work 1 is below the required
    // six, and the Merkle nodes are garbage that would also fail; the
    // outcome must be the epoch stage's.
    let mut p = sample_proof();
    p.headers = linked_chain(1, &[0u8; 32]);
    p.intermediate_nodes = vec![0u8; 64];
    assert_eq!(verify(&p, &sample_difficulty()), Err(Error::InsufficientWork));
}

#[test]
fn swapped_merkle_nodes_fail_with_merkle_kind_only() {
    let mut p = sample_proof();
    let first = p.intermediate_nodes[0..32].to_vec();
    let second = p.intermediate_nodes[32..64].to_vec();
    p.intermediate_nodes[0..32].copy_from_slice(&second);
    p.intermediate_nodes[32..64].copy_from_slice(&first);
    assert_eq!(verify(&p, &sample_difficulty()), Err(Error::MerkleProofInvalid));
}

#[test]
fn vector_validation_matches_shape() {
    assert!(validate_vin(&sample_vin()));
    assert!(validate_vout(&sample_vout()));
    // Trailing bytes are rejected.
    let mut vin = sample_vin();
    vin.push(0);
    assert!(!validate_vin(&vin));
    let mut vout = sample_vout();
    vout.push(0);
    assert!(!validate_vout(&vout));
    // Empty buffers and zero counts are rejected.
    assert!(!validate_vin(&[]));
    assert!(!validate_vin(&[0u8]));
    assert!(!validate_vout(&[0u8]));
    // Truncated element.
    assert!(!validate_vin(&[1u8, 0, 0]));
}

#[test]
fn vector_validation_rejects_non_minimal_count() {
    // Count one written in the three-byte form.
    let mut vin = vec![0xfdu8, 0x01, 0x00];
    vin.extend_from_slice(&sample_vin()[1..]);
    assert!(!validate_vin(&vin));
}

#[test]
fn vector_validation_agrees_with_reference_library() {
    let vin = sample_vin();
    assert_eq!(validate_vin(&vin), bitcoin_spv::btcspv::validate_vin(&vin));
    let mut bad = vin.clone();
    bad.push(0);
    assert_eq!(validate_vin(&bad), bitcoin_spv::btcspv::validate_vin(&bad));
    let vout = sample_vout();
    assert_eq!(validate_vout(&vout), bitcoin_spv::btcspv::validate_vout(&vout));
}

#[test]
fn proof_decode_round_trip() {
    let p = sample_proof();
    let b = encode(&p);
    let q = decode_proof(&b).unwrap();
    assert_eq!(q.version, p.version);
    assert_eq!(q.vin, p.vin);
    assert_eq!(q.vout, p.vout);
    assert_eq!(q.locktime, p.locktime);
    assert_eq!(q.tx_id, p.tx_id);
    assert_eq!(q.index, p.index);
    assert_eq!(q.headers, p.headers);
    assert_eq!(q.intermediate_nodes, p.intermediate_nodes);
    assert_eq!(verify(&q, &sample_difficulty()), Ok(()));
}

#[test]
fn proof_decode_rejects_malformed_buffers() {
    let p = sample_proof();
    let mut b = encode(&p);
    b.push(0);  // trailing byte
    assert_eq!(decode_proof(&b).err(), Some(Error::MalformedProofEncoding));
    let b = encode(&p);
    assert_eq!(decode_proof(&b[..b.len() - 1]).err(), Some(Error::MalformedProofEncoding));
    assert_eq!(decode_proof(&[]).err(), Some(Error::MalformedProofEncoding));
    // Headers that are not whole 80-byte records.
    let mut q = sample_proof();
    q.headers.pop();
    assert_eq!(decode_proof(&encode(&q)).err(), Some(Error::MalformedProofEncoding));
}

#[test]
fn difficulty_decode_checks_length() {
    let mut b = be32(1);
    b.extend_from_slice(&be32(2));
    let d = decode_difficulty(&b).unwrap();
    assert_eq!(d.current, be32(1));
    assert_eq!(d.previous, be32(2));
    assert_eq!(decode_difficulty(&b[..63]).err(), Some(Error::MalformedDifficultyEncoding));
    assert_eq!(decode_difficulty(&[]).err(), Some(Error::MalformedDifficultyEncoding));
}

#[test]
fn verify_accepts_leaf_at_nonzero_index() {
    // The same transaction placed at leaf 2 of the four-leaf tree: the
    // index bits drive the concatenation order at each level.
    let version = vec![1u8, 0, 0, 0];
    let locktime = vec![0u8; 4];
    let vin = sample_vin();
    let vout = sample_vout();
    let tx_id = compute_txid(&version, &vin, &vout, &locktime);
    let l0 = be32(0x11);
    let l1 = be32(0x22);
    let l3 = be32(0x33);
    let root = combine(&combine(&l0, &l1), &combine(&tx_id, &l3));
    let mut nodes = l3.clone();
    nodes.extend_from_slice(&combine(&l0, &l1));
    let headers = linked_chain(6, &root);
    let p = SPVProof {
        version,
        vin,
        vout,
        locktime,
        tx_id,
        index: 2,
        headers,
        intermediate_nodes: nodes,
    };
    assert_eq!(verify(&p, &sample_difficulty()), Ok(()));
    // The right path under the wrong index fails.
    let q = SPVProof { index: 3, ..p };
    assert_eq!(verify(&q, &sample_difficulty()), Err(Error::MerkleProofInvalid));
}

#[test]
fn chain_work_scales_with_target_exponent() {
    // One exponent step below the maximum target: 256 work units.
    let h = header(&[0u8; 32], &[0u8; 32], [0xff, 0xff, 0x00, 0x1c]);
    let summary = validate_chain(&h).unwrap();
    assert_eq!(summary.accumulated_work, vec![1u8, 0]);
    assert_eq!(summary.first_difficulty, vec![1u8, 0]);
}

#[test]
fn chain_work_with_exponent_below_three() {
    // Exponents below three scale the mantissa by one: target 1, so the
    // header's work is the whole maximum target.
    let h = header(&[0u8; 32], &[0u8; 32], [0x01, 0x00, 0x00, 0x00]);
    let summary = validate_chain(&h).unwrap();
    let mut expected = vec![0xffu8, 0xff];
    expected.extend_from_slice(&[0u8; 26]);
    assert_eq!(summary.accumulated_work, expected);
}

#[test]
fn vector_validation_larger_compact_forms() {
    // One input whose script length 253 needs the three-byte form.
    let mut vin = vec![1u8];
    vin.extend_from_slice(&[0u8; 36]);
    vin.extend_from_slice(&[0xfd, 0xfd, 0x00]);
    vin.extend_from_slice(&vec![0u8; 253]);
    vin.extend_from_slice(&[0xff, 0xff, 0xff, 0xff]);
    assert!(validate_vin(&vin));
    assert_eq!(validate_vin(&vin), bitcoin_spv::btcspv::validate_vin(&vin));
    // Script length five in the three-byte form is not minimal.
    let mut bad = vec![1u8];
    bad.extend_from_slice(&[0u8; 36]);
    bad.extend_from_slice(&[0xfd, 0x05, 0x00]);
    bad.extend_from_slice(&vec![0u8; 5]);
    bad.extend_from_slice(&[0xff, 0xff, 0xff, 0xff]);
    assert!(!validate_vin(&bad));
    // A declared script length that overruns the buffer.
    let mut overrun = vec![1u8];
    overrun.extend_from_slice(&[0u8; 36]);
    overrun.push(0x10);
    overrun.extend_from_slice(&[0xff, 0xff, 0xff, 0xff]);
    assert!(!validate_vin(&overrun));
}
