use curv_kzen::arithmetic::traits::Converter;
use curv_kzen::elliptic::curves::secp256_k1::{FE, GE};
use curv_kzen::elliptic::curves::traits::{ECPoint, ECScalar};
use curv_kzen::BigInt;
use will::curve::Point;
use will::persistent_store::Challenge;
use will::scalar::Scalar;
use will::sealed::{OpenError, Sealed};

fn key_of(point: &GE) -> Vec<u8> {
    point.pk_to_key_slice()[1..].to_vec()
}

fn fe(n: u64) -> FE {
    ECScalar::from(&BigInt::from(n))
}

fn digits(scalar: &FE) -> Vec<u8> {
    scalar.to_big_int().to_bytes()
}

/// A joint key with its two shares: beneficiary's, then server's.
fn deposit(s_ben: u64, s_srv: u64) -> (Sealed, Point, Scalar) {
    let joint = GE::generator() * fe(s_ben) * fe(s_srv);
    let client = GE::generator() * fe(s_ben);
    let share = Scalar::from_bytes(&digits(&fe(s_srv))).unwrap();
    let sealed = Sealed::new(Point::from_bytes(&key_of(&joint)).unwrap(), share.clone());
    (sealed, Point::from_bytes(&key_of(&client)).unwrap(), share)
}

fn challenge(id: u128) -> Challenge {
    Challenge { id, challenge: vec![1, 2, 3] }
}

#[test]
fn verify_gives_the_joint_key_for_the_matching_share() {
    let (sealed, client, _) = deposit(1234, 5678);
    let joint = GE::generator() * fe(1234) * fe(5678);
    assert_eq!(sealed.verify(client), Some(key_of(&joint)));
}

#[test]
fn verify_gives_nothing_for_another_share() {
    let (sealed, _, _) = deposit(1234, 5678);
    let other = GE::generator() * fe(1235);
    assert_eq!(sealed.verify(Point::from_bytes(&key_of(&other)).unwrap()), None);
}

#[test]
fn open_releases_the_share() {
    let (sealed, client, share) = deposit(11, 22);
    let opened = sealed.open(&challenge(4), &challenge(4), true, client);
    assert_eq!(opened, Ok(share));
}

#[test]
fn open_refuses_an_old_challenge() {
    let (sealed, client, _) = deposit(11, 22);
    let opened = sealed.open(&challenge(5), &challenge(4), true, client);
    assert_eq!(opened, Err(OpenError::OldChallenge));
}

#[test]
fn open_refuses_another_challenge() {
    let (sealed, client, _) = deposit(11, 22);
    let solved = Challenge { id: 4, challenge: vec![1, 2, 4] };
    assert_eq!(
        sealed.open(&challenge(4), &solved, true, client),
        Err(OpenError::InvalidChallenge)
    );

    let (sealed, client, _) = deposit(11, 22);
    assert_eq!(
        sealed.open(&challenge(4), &challenge(5), true, client),
        Err(OpenError::InvalidChallenge)
    );
}

#[test]
fn open_refuses_a_wrong_solution() {
    let (sealed, client, _) = deposit(11, 22);
    assert_eq!(
        sealed.open(&challenge(4), &challenge(4), false, client),
        Err(OpenError::IncorrectSolution)
    );
}

#[test]
fn open_refuses_another_client_share() {
    let (sealed, _, _) = deposit(11, 22);
    let other = Point::from_bytes(&key_of(&(GE::generator() * fe(12)))).unwrap();
    assert_eq!(
        sealed.open(&challenge(4), &challenge(4), true, other),
        Err(OpenError::ClientShareDoesntMatchServerShare)
    );
}

#[test]
fn open_reports_the_first_check_that_fails() {
    let other = || Point::from_bytes(&key_of(&(GE::generator() * fe(12)))).unwrap();
    let different = Challenge { id: 9, challenge: vec![0] };

    // Stale epoch comes before everything else.
    let (sealed, _, _) = deposit(11, 22);
    assert_eq!(
        sealed.open(&challenge(5), &challenge(4), false, other()),
        Err(OpenError::OldChallenge)
    );
    // The identity of the challenge comes before the solution.
    let (sealed, _, _) = deposit(11, 22);
    assert_eq!(
        sealed.open(&challenge(4), &different, false, other()),
        Err(OpenError::InvalidChallenge)
    );
    // The solution comes before the client's share.
    let (sealed, _, _) = deposit(11, 22);
    assert_eq!(
        sealed.open(&challenge(4), &challenge(4), false, other()),
        Err(OpenError::IncorrectSolution)
    );
}

#[test]
fn sealed_share_can_be_read_in_tests() {
    let (sealed, _, share) = deposit(3, 5);
    assert_eq!(sealed.secret_share(), &share);
    assert_eq!(sealed.secret_share().to_bytes(), vec![5]);
}

#[test]
fn screening_looks_at_the_challenges_alone() {
    assert_eq!(Sealed::screen(&challenge(4), &challenge(4)), Ok(()));
    assert_eq!(Sealed::screen(&challenge(5), &challenge(4)), Err(OpenError::OldChallenge));
    assert_eq!(Sealed::screen(&challenge(4), &challenge(5)), Err(OpenError::InvalidChallenge));
    let other = Challenge { id: 4, challenge: vec![9] };
    assert_eq!(Sealed::screen(&challenge(4), &other), Err(OpenError::InvalidChallenge));
}
