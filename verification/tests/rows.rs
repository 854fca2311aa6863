use will::persistent_store::rows::{
    next_counter, place_challenge, read_counter, stored_challenge, stored_counter, stored_share,
    write_counter, RowError,
};
use will::persistent_store::{Challenge, SetChallengeError};

#[test]
fn counter_row_is_sixteen_bytes_least_significant_first() {
    assert_eq!(write_counter(0), vec![0u8; 16]);
    let mut one = vec![0u8; 16];
    one[0] = 1;
    assert_eq!(write_counter(1), one);
    assert_eq!(
        write_counter(0x0102_0304_0506_0708_090A_0B0C_0D0E_0F10),
        vec![16, 15, 14, 13, 12, 11, 10, 9, 8, 7, 6, 5, 4, 3, 2, 1]
    );
    assert_eq!(write_counter(u128::MAX), vec![0xFF; 16]);
}

#[test]
fn counter_reads_back() {
    for n in [0u128, 1, 255, 256, 1 << 64, u128::MAX - 1, u128::MAX] {
        assert_eq!(read_counter(&write_counter(n)), Some(n));
    }
}

#[test]
fn counter_row_of_another_length_is_refused() {
    assert_eq!(read_counter(&[]), None);
    assert_eq!(read_counter(&[0; 15]), None);
    assert_eq!(read_counter(&[0; 17]), None);
}

#[test]
fn absent_counter_row_counts_as_zero() {
    assert_eq!(stored_counter(&None), Ok(0));
    assert_eq!(stored_counter(&Some(write_counter(41))), Ok(41));
    assert_eq!(stored_counter(&Some(vec![1, 2, 3])), Err(RowError::InvalidCounter));
}

#[test]
fn next_counter_adds_one() {
    assert_eq!(next_counter(&None), Ok(1));
    assert_eq!(next_counter(&Some(write_counter(9))), Ok(10));
    assert_eq!(next_counter(&Some(vec![0; 3])), Err(RowError::InvalidCounter));
    assert_eq!(next_counter(&Some(write_counter(u128::MAX))), Err(RowError::CounterExhausted));
    assert_eq!(next_counter(&Some(write_counter(u128::MAX - 1))), Ok(u128::MAX));
}

#[test]
fn challenge_row_is_id_then_instance() {
    let challenge = Challenge { id: 0x0201, challenge: vec![0xAA, 0xBB] };
    let mut expected = vec![0u8; 16];
    expected[0] = 1;
    expected[1] = 2;
    expected.extend_from_slice(&[0xAA, 0xBB]);
    assert_eq!(challenge.to_row(), expected);
}

#[test]
fn challenge_reads_back() {
    for challenge in [
        Challenge { id: 0, challenge: Vec::new() },
        Challenge { id: 7, challenge: vec![1, 2, 3] },
        Challenge { id: u128::MAX, challenge: vec![0; 100] },
    ] {
        assert_eq!(Challenge::from_row(&challenge.to_row()), Some(challenge));
    }
}

#[test]
fn challenge_row_is_stable_byte_for_byte() {
    let row: Vec<u8> = (0u8..40).collect();
    let challenge = Challenge::from_row(&row).unwrap();
    assert_eq!(challenge.to_row(), row);
}

#[test]
fn short_challenge_row_is_refused() {
    assert_eq!(Challenge::from_row(&[0; 15]), None);
    assert_eq!(Challenge::from_row(&[]), None);
    assert_eq!(stored_challenge(&Some(vec![0; 15])), Err(RowError::InvalidChallenge));
    assert_eq!(stored_challenge(&None), Ok(None));
    assert_eq!(
        stored_challenge(&Some(vec![0; 16])),
        Ok(Some(Challenge { id: 0, challenge: Vec::new() }))
    );
}

#[test]
fn challenges_differ_in_id_or_instance() {
    let a = Challenge { id: 1, challenge: vec![1, 2] };
    assert!(a.same_as(&a.clone()));
    assert!(!a.same_as(&Challenge { id: 2, challenge: vec![1, 2] }));
    assert!(!a.same_as(&Challenge { id: 1, challenge: vec![1, 3] }));
    assert!(!a.same_as(&Challenge { id: 1, challenge: vec![1, 2, 0] }));
}

#[test]
fn place_challenge_in_a_free_epoch() {
    let challenge = Challenge { id: 0, challenge: vec![5, 6] };
    assert_eq!(place_challenge(&None, &None, &challenge).unwrap(), challenge.to_row());

    let third = Challenge { id: 3, challenge: vec![5, 6] };
    assert_eq!(
        place_challenge(&Some(write_counter(3)), &None, &third).unwrap(),
        third.to_row()
    );
}

#[test]
fn place_challenge_over_a_leftover_of_another_epoch() {
    let leftover = Challenge { id: 2, challenge: vec![1] };
    let challenge = Challenge { id: 3, challenge: vec![5, 6] };
    let placed = place_challenge(&Some(write_counter(3)), &Some(leftover.to_row()), &challenge);
    assert_eq!(placed.unwrap(), challenge.to_row());
}

#[test]
fn place_challenge_errors() {
    let challenge = Challenge { id: 3, challenge: vec![5, 6] };

    let outdated = place_challenge(&Some(write_counter(4)), &None, &challenge);
    assert!(matches!(outdated, Err(SetChallengeError::Outdated)));

    let mismatched = place_challenge(&Some(write_counter(2)), &None, &challenge);
    assert!(matches!(mismatched, Err(SetChallengeError::MismatchedId)));

    let existing = Challenge { id: 3, challenge: vec![7] };
    match place_challenge(&Some(write_counter(3)), &Some(existing.to_row()), &challenge) {
        Err(SetChallengeError::AlreadySet(found)) => assert_eq!(found, existing),
        other => panic!("expected AlreadySet, got {:?}", other),
    }

    let bad_counter = place_challenge(&Some(vec![1]), &None, &challenge);
    assert!(matches!(bad_counter, Err(SetChallengeError::Store(RowError::InvalidCounter))));

    let bad_challenge = place_challenge(&Some(write_counter(3)), &Some(vec![1]), &challenge);
    assert!(matches!(bad_challenge, Err(SetChallengeError::Store(RowError::InvalidChallenge))));

    // The epoch is looked at before the challenge row.
    let both = place_challenge(&Some(write_counter(4)), &Some(vec![1]), &challenge);
    assert!(matches!(both, Err(SetChallengeError::Outdated)));
}

#[test]
fn share_rows_hold_scalar_digits() {
    assert_eq!(stored_share(&[1, 2]).unwrap().to_bytes(), vec![1, 2]);
    assert_eq!(stored_share(&[0, 1]).unwrap_err(), RowError::InvalidShare);
    assert_eq!(stored_share(&[]).unwrap_err(), RowError::InvalidShare);
    assert_eq!(stored_share(&[0xFF; 32]).unwrap_err(), RowError::InvalidShare);
}
