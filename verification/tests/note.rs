use zk_verifier::zk::note::{Deposit, NoteCommitment, ZkError, ZkNoteVerifier};

fn hash(note: &NoteCommitment) -> [u8; 32] {
    ZkNoteVerifier::poseidon_hash(&note.secret, &note.nullifier, note.amount, &note.blinding_factor)
}

fn note() -> NoteCommitment {
    NoteCommitment {
        secret: [1u8; 32],
        nullifier: [2u8; 32],
        amount: 1000,
        blinding_factor: [3u8; 32],
    }
}

#[test]
fn test_verify_and_deposit() {
    let secret = [1u8; 32];
    let nullifier = [2u8; 32];
    let amount = 1000i128;
    let blinding_factor = [3u8; 32];

    let expected = ZkNoteVerifier::poseidon_hash(&secret, &nullifier, amount, &blinding_factor);

    let deposit = ZkNoteVerifier::verify_and_deposit(
        &secret,
        &nullifier,
        amount,
        &blinding_factor,
        &expected,
        None,
    );
    assert_eq!(deposit.leaf_index, 0);
    assert_eq!(deposit, Deposit { leaf_index: 0, commitment: expected, tree_size: 1 });
}

#[test]
fn the_commitment_is_the_exclusive_or_of_the_parts() {
    // 1 ^ 2 ^ 3 is zero, so the amount alone is left: 1000 is 0x03e8.
    let mut expected = [0u8; 32];
    expected[0] = 0xe8;
    expected[1] = 0x03;
    assert_eq!(hash(&note()), expected);

    let mut other = note();
    other.secret[31] = 0x80;
    expected[31] = 0x81;
    assert_eq!(hash(&other), expected);
}

#[test]
fn a_negative_amount_is_taken_in_twos_complement() {
    let mut minus_two = note();
    minus_two.amount = -2;
    let mut expected = [0u8; 32];
    expected[..16].copy_from_slice(&(-2i128).to_le_bytes());
    assert_eq!(expected[0], 0xfe);
    assert_eq!(hash(&minus_two), expected);
    for amount in [i128::MIN, i128::MAX, 0, -1, 1, 0x0123_4567_89ab_cdef_0123_4567_89ab_cdef] {
        let mut other = note();
        other.amount = amount;
        assert_eq!(hash(&other)[..16], amount.to_le_bytes()[..]);
        assert_eq!(hash(&other)[16..], [0u8; 16][..]);
    }
}

#[test]
fn each_component_is_bound() {
    let original = hash(&note());
    let mut other = note();
    other.secret[5] ^= 1;
    assert_ne!(hash(&other), original);
    other = note();
    other.nullifier[6] ^= 1;
    assert_ne!(hash(&other), original);
    other = note();
    other.blinding_factor[7] ^= 1;
    assert_ne!(hash(&other), original);
    other = note();
    other.amount = -1000;
    assert_ne!(hash(&other), original);
}

#[test]
fn deposits_get_consecutive_leaves() {
    let n = note();
    let commitment = hash(&n);
    let mut stored_size = None;
    for expected_index in 0..4 {
        let deposit = ZkNoteVerifier::verify_and_deposit(
            &n.secret,
            &n.nullifier,
            n.amount,
            &n.blinding_factor,
            &commitment,
            stored_size,
        );
        assert_eq!(deposit.leaf_index, expected_index);
        assert_eq!(deposit.tree_size, expected_index + 1);
        stored_size = Some(deposit.tree_size);
    }
}

#[test]
fn a_deposit_is_checked() {
    let n = note();
    let good = hash(&n);
    let mut bad = good;
    bad[31] ^= 1;
    let check = |commitment: &[u8; 32], size: Option<u32>| {
        ZkNoteVerifier::check_deposit(
            &n.secret,
            &n.nullifier,
            n.amount,
            &n.blinding_factor,
            commitment,
            size,
        )
    };
    assert_eq!(check(&good, None), Ok(0));
    assert_eq!(check(&good, Some(7)), Ok(7));
    assert_eq!(check(&good, Some(u32::MAX - 1)), Ok(u32::MAX - 1));
    assert_eq!(check(&good, Some(u32::MAX)), Err(ZkError::TreeFull));
    assert_eq!(check(&bad, None), Err(ZkError::InvalidCommitment));
    assert_eq!(check(&bad, Some(u32::MAX)), Err(ZkError::InvalidCommitment));
}

#[test]
fn a_deposit_is_made_only_where_it_passes() {
    let n = note();
    let good = hash(&n);
    let mut bad = good;
    bad[0] ^= 1;
    let deposit = |commitment: &[u8; 32], size: Option<u32>| {
        ZkNoteVerifier::try_deposit(
            &n.secret,
            &n.nullifier,
            n.amount,
            &n.blinding_factor,
            commitment,
            size,
        )
    };
    let first = Deposit { leaf_index: 0, commitment: good, tree_size: 1 };
    assert_eq!(deposit(&good, None), Ok(first));
    let last = Deposit { leaf_index: u32::MAX - 1, commitment: good, tree_size: u32::MAX };
    assert_eq!(deposit(&good, Some(u32::MAX - 1)), Ok(last));
    assert_eq!(deposit(&good, Some(u32::MAX)), Err(ZkError::TreeFull));
    assert_eq!(deposit(&bad, None), Err(ZkError::InvalidCommitment));
    assert_eq!(deposit(&bad, Some(u32::MAX)), Err(ZkError::InvalidCommitment));
}

#[test]
fn errors_keep_their_numbers() {
    assert_eq!(ZkError::InvalidCommitment.code(), 1);
    assert_eq!(ZkError::TreeFull.code(), 2);
    assert_eq!(ZkError::AlreadySpent.code(), 3);
}
